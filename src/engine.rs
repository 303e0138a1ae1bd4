//! The decisions of the versioned storage engine, independent of where the
//! bytes live: the optimistic-concurrency precondition, version numbering,
//! version lookup, and the reading of store listings.
use vstd::prelude::*;
use crate::document::{ConfigData, VersionInfo};
use crate::error::{ErrorView, StorageError};
use crate::json::is_json_object;
use crate::key::ConfigKey;
use crate::metadata::{Metadata, MetadataView, VersionRecord};
use crate::version::{format_version, version_label};

verus! {

/// The view of an optional string argument.
pub open spec fn opt_str(o: Option<&str>) -> Option<Seq<char>> {
    match o {
        Some(s) => Some(s@),
        None => None,
    }
}

/// The view of an optional control record.
pub open spec fn opt_meta(o: Option<&Metadata>) -> Option<MetadataView> {
    match o {
        Some(m) => Some(m@),
        None => None,
    }
}

/// The view of an optional owned control record.
pub open spec fn opt_meta_owned(o: Option<Metadata>) -> Option<MetadataView> {
    match o {
        Some(m) => Some(m@),
        None => None,
    }
}

/// The record that a put starts from: the existing one, or an empty one.
pub open spec fn base_record(existing: Option<MetadataView>) -> MetadataView {
    match existing {
        Some(m) => m,
        None => MetadataView { current_version: Seq::empty(), versions: Seq::empty() },
    }
}

/// The failure, if any, of the optimistic-concurrency precondition of a put
/// on the key at `path`, given its existing record and the version the
/// caller expects to be current.
pub open spec fn put_conflict(
    existing: Option<MetadataView>,
    expected: Option<Seq<char>>,
    path: Seq<char>,
) -> Option<ErrorView> {
    match (existing, expected) {
        (None, None) => None,
        (None, Some(e)) => Some(ErrorView::VersionConflict { expected: e, actual: "none"@ }),
        (Some(_), None) => Some(ErrorView::AlreadyExists(path)),
        (Some(m), Some(e)) => if m.current_version == e {
            None
        } else {
            Some(ErrorView::VersionConflict { expected: e, actual: m.current_version })
        },
    }
}

/// What a put decides: the number of the new version, or why it fails.
/// The precondition is checked first, then the shapes of content and schema,
/// then that a version number is left.
pub open spec fn put_outcome(
    existing: Option<MetadataView>,
    expected: Option<Seq<char>>,
    path: Seq<char>,
    content_is_object: bool,
    schema_is_object: bool,
) -> Result<nat, ErrorView> {
    match put_conflict(existing, expected, path) {
        Some(e) => Err(e),
        None => if !content_is_object {
            Err(ErrorView::ValidationError("Content must be a JSON object"@))
        } else if !schema_is_object {
            Err(ErrorView::ValidationError("Schema must be a JSON object"@))
        } else if base_record(existing).next_number() > u32::MAX {
            Err(ErrorView::Other("No version number is left for "@ + path))
        } else {
            Ok(base_record(existing).next_number())
        },
    }
}

/// Checks the optimistic-concurrency precondition of a put on `key`.
pub fn check_put(key: &ConfigKey, existing: Option<&Metadata>, expected: Option<&str>) -> (r:
    Result<(), StorageError>)
    ensures
        match put_conflict(opt_meta(existing), opt_str(expected), key.path()) {
            None => r is Ok,
            Some(e) => r matches Err(x) && x@ == e,
        },
{
    match (existing, expected) {
        (None, None) => Ok(()),
        (None, Some(e)) => {
            proof {
                reveal_strlit("none");
            }
            Err(
                StorageError::VersionConflict {
                    expected: String::from_str(e),
                    actual: String::from_str("none"),
                },
            )
        },
        (Some(_), None) => Err(StorageError::AlreadyExists(key.to_path())),
        (Some(m), Some(e)) => {
            let e = String::from_str(e);
            if m.current_version == e {
                Ok(())
            } else {
                Err(StorageError::VersionConflict { expected: e, actual: m.current_version.clone() })
            }
        },
    }
}

/// What a put writes: the new version string and the record that references it.
pub struct PutPlan {
    pub version: String,
    pub metadata: Metadata,
}

/// Decides a put of `data` on `key` whose existing record is `existing`,
/// with the new version created at `now`: checks the precondition and the
/// shapes of content and schema, numbers the new version, and appends it to
/// the record.
pub fn plan_put(
    key: &ConfigKey,
    existing: Option<Metadata>,
    data: &ConfigData,
    expected: Option<&str>,
    now: i64,
) -> (r: Result<PutPlan, StorageError>)
    ensures
        match put_outcome(
            opt_meta_owned(existing),
            opt_str(expected),
            key.path(),
            is_json_object(data.content),
            is_json_object(data.schema),
        ) {
            Ok(n) => r matches Ok(p) && p.version@ == version_label(n) && p.metadata@
                == base_record(opt_meta_owned(existing)).with_version(version_label(n), now),
            Err(e) => r matches Err(x) && x@ == e,
        },
{
    match check_put(key, existing.as_ref(), expected) {
        Ok(()) => {},
        Err(e) => {
            return Err(e);
        },
    }
    if !data.content.is_object() {
        return Err(StorageError::ValidationError(String::from_str("Content must be a JSON object")));
    }
    if !data.schema.is_object() {
        return Err(StorageError::ValidationError(String::from_str("Schema must be a JSON object")));
    }
    let ghost start = base_record(opt_meta_owned(existing));
    let mut metadata = match existing {
        Some(m) => m,
        None => Metadata::new(),
    };
    proof {
        assert(metadata@.current_version =~= start.current_version);
        assert(metadata@.versions =~= start.versions);
    }
    let n = metadata.next_version_number();
    if n > u32::MAX as u64 {
        let mut detail = String::from_str("No version number is left for ");
        detail.append(key.to_path().as_str());
        return Err(StorageError::Other(detail));
    }
    let version = format_version(n);
    metadata.add_version_at(version.clone(), now);
    Ok(PutPlan { version, metadata })
}

/// The version that a plain read of the key resolves to: the current one.
pub open spec fn current_outcome(existing: Option<MetadataView>, path: Seq<char>) -> Result<
    Seq<char>,
    ErrorView,
> {
    match existing {
        None => Err(ErrorView::NotFound(path)),
        Some(m) => if m.current_version.len() == 0 {
            Err(ErrorView::NotFound(path))
        } else {
            Ok(m.current_version)
        },
    }
}

/// The current version of `key`, whose record is `existing`; `NotFound`
/// where there is no record or it names no current version.
pub fn current_version(key: &ConfigKey, existing: Option<&Metadata>) -> (r: Result<
    String,
    StorageError,
>)
    ensures
        match current_outcome(opt_meta(existing), key.path()) {
            Ok(v) => r matches Ok(s) && s@ == v,
            Err(e) => r matches Err(x) && x@ == e,
        },
{
    match existing {
        None => Err(StorageError::NotFound(key.to_path())),
        Some(m) => {
            if m.current_version.unicode_len() == 0 {
                Err(StorageError::NotFound(key.to_path()))
            } else {
                Ok(m.current_version.clone())
            }
        },
    }
}

/// Whether `i` is the first entry of `vs` that records `version`.
pub open spec fn first_match(vs: Seq<VersionRecord>, version: Seq<char>, i: int) -> bool {
    &&& 0 <= i < vs.len()
    &&& vs[i].version == version
    &&& forall|j: int| 0 <= j < i ==> #[trigger] vs[j].version != version
}

/// Whether some entry of `vs` records `version`.
pub open spec fn has_version(vs: Seq<VersionRecord>, version: Seq<char>) -> bool {
    exists|i: int| 0 <= i < vs.len() && #[trigger] vs[i].version == version
}

/// The detail of a missing version: `Version <version> not found for <key path>`.
pub open spec fn version_detail(path: Seq<char>, version: Seq<char>) -> Seq<char> {
    "Version "@ + version + " not found for "@ + path
}

/// Finds `version` in the history of `key`, whose record is `existing`: the
/// index of its first entry, or `NotFound` where there is no record or the
/// history does not hold that version.
pub fn find_version(key: &ConfigKey, existing: Option<&Metadata>, version: &str) -> (r: Result<
    usize,
    StorageError,
>)
    ensures
        existing is None ==> (r matches Err(x) && x@ == ErrorView::NotFound(key.path())),
        existing matches Some(m) ==> {
            &&& has_version(m@.versions, version@) ==> (r matches Ok(i) && first_match(
                m@.versions,
                version@,
                i as int,
            ))
            &&& !has_version(m@.versions, version@) ==> (r matches Err(x) && x@
                == ErrorView::NotFound(version_detail(key.path(), version@)))
        },
{
    match existing {
        None => Err(StorageError::NotFound(key.to_path())),
        Some(m) => {
            let wanted = String::from_str(version);
            let mut i: usize = 0;
            while i < m.versions.len()
                invariant
                    i <= m.versions.len(),
                    wanted@ == version@,
                    existing == Some(m),
                    forall|j: int| 0 <= j < i ==> #[trigger] m@.versions[j].version != version@,
                decreases m.versions.len() - i,
            {
                if m.versions[i].version == wanted {
                    proof {
                        assert(m@.versions[i as int].version == version@);
                    }
                    return Ok(i);
                }
                i = i + 1;
            }
            let mut detail = String::from_str("Version ");
            detail.append(version);
            detail.append(" not found for ");
            detail.append(key.to_path().as_str());
            proof {
                assert(detail@ =~= version_detail(key.path(), version@));
            }
            Err(StorageError::NotFound(detail))
        },
    }
}

/// The history of a record as handed to callers, oldest first.
pub fn version_infos(m: &Metadata) -> (r: Vec<VersionInfo>)
    ensures
        r@.len() == m@.versions.len(),
        forall|i: int|
            0 <= i < r@.len() ==> (#[trigger] r@[i]).version@ == m@.versions[i].version
                && r@[i].timestamp == m@.versions[i].timestamp,
{
    let mut r: Vec<VersionInfo> = Vec::new();
    let mut i: usize = 0;
    while i < m.versions.len()
        invariant
            i <= m.versions.len(),
            r@.len() == i,
            forall|j: int|
                0 <= j < i ==> (#[trigger] r@[j]).version@ == m@.versions[j].version
                    && r@[j].timestamp == m@.versions[j].timestamp,
        decreases m.versions.len() - i,
    {
        r.push(
            VersionInfo {
                version: m.versions[i].version.clone(),
                timestamp: m.versions[i].timestamp,
            },
        );
        i = i + 1;
    }
    r
}

/// The views of the segments of a store path.
pub open spec fn segments(parts: Seq<String>) -> Seq<Seq<char>> {
    parts.map_values(|p: String| p@)
}

/// Whether the segments name a control record: at least four segments, the
/// last of which is `metadata.json`.
pub open spec fn is_metadata_listing(parts: Seq<Seq<char>>) -> bool {
    parts.len() >= 4 && parts.last() == "metadata.json"@
}

/// Reads a key back from the segments of a listed path: the first three
/// segments, where the path names a control record; `None` for any other path.
pub fn key_from_segments(parts: &Vec<String>) -> (r: Option<ConfigKey>)
    ensures
        is_metadata_listing(segments(parts@)) <==> r is Some,
        r matches Some(k) ==> k@ == (parts@[0]@, parts@[1]@, parts@[2]@),
{
    let n = parts.len();
    if n < 4 {
        return None;
    }
    let file = String::from_str("metadata.json");
    if parts[n - 1] != file {
        return None;
    }
    Some(ConfigKey::new(parts[0].clone(), parts[1].clone(), parts[2].clone()))
}

/// Whether a listed path lies under `app/env` and has a third segment.
pub open spec fn under_environment(parts: Seq<Seq<char>>, app: Seq<char>, env: Seq<char>) -> bool {
    parts.len() >= 3 && parts[0] == app && parts[1] == env
}

/// Whether one of the first `upto` listed paths lies under `app/env` with
/// `name` as its third segment.
pub open spec fn listed_under(
    listing: Seq<Vec<String>>,
    upto: int,
    app: Seq<char>,
    env: Seq<char>,
    name: Seq<char>,
) -> bool {
    exists|q: int|
        0 <= q < upto && under_environment(segments(#[trigger] listing[q]@), app, env)
            && listing[q]@[2]@ == name
}

/// Whether `names` holds `name`.
pub open spec fn holds_name(names: Seq<String>, name: Seq<char>) -> bool {
    exists|i: int| 0 <= i < names.len() && (#[trigger] names[i])@ == name
}

/// The distinct configuration names that a listing shows under `app/env`:
/// the third segment of each path there, each once.
pub fn config_names_under(listing: &Vec<Vec<String>>, app: &str, env: &str) -> (r: Vec<String>)
    ensures
        forall|i: int, j: int| 0 <= i < j < r@.len() ==> r@[i]@ != r@[j]@,
        forall|i: int|
            0 <= i < r@.len() ==> listed_under(listing@, listing@.len() as int, app@, env@, (
            #[trigger] r@[i])@),
        forall|k: int|
            0 <= k < listing@.len() && under_environment(
                segments(#[trigger] listing@[k]@),
                app@,
                env@,
            ) ==> holds_name(r@, listing@[k]@[2]@),
{
    let app_s = String::from_str(app);
    let env_s = String::from_str(env);
    let mut names: Vec<String> = Vec::new();
    let mut k: usize = 0;
    while k < listing.len()
        invariant
            k <= listing@.len(),
            app_s@ == app@,
            env_s@ == env@,
            forall|i: int, j: int| 0 <= i < j < names@.len() ==> names@[i]@ != names@[j]@,
            forall|i: int|
                0 <= i < names@.len() ==> listed_under(listing@, k as int, app@, env@, (
                #[trigger] names@[i])@),
            forall|q: int|
                0 <= q < k && under_environment(segments(#[trigger] listing@[q]@), app@, env@)
                    ==> holds_name(names@, listing@[q]@[2]@),
        decreases listing@.len() - k,
    {
        let parts = &listing[k];
        let ghost old_names = names@;
        proof {
            assert forall|i: int| 0 <= i < names@.len() implies listed_under(
                listing@,
                k + 1,
                app@,
                env@,
                (#[trigger] names@[i])@,
            ) by {
                let q = choose|q: int|
                    0 <= q < k && under_environment(segments(#[trigger] listing@[q]@), app@, env@)
                        && listing@[q]@[2]@ == names@[i]@;
                assert(0 <= q < k + 1 && under_environment(segments(listing@[q]@), app@, env@));
            }
        }
        if parts.len() >= 3 && parts[0] == app_s && parts[1] == env_s {
            let name = &parts[2];
            let mut seen = false;
            let mut i: usize = 0;
            while i < names.len()
                invariant
                    i <= names@.len(),
                    !seen ==> forall|j: int| 0 <= j < i ==> names@[j]@ != name@,
                    seen ==> holds_name(names@, name@),
                decreases names@.len() - i,
            {
                if names[i] == *name {
                    seen = true;
                }
                i = i + 1;
            }
            proof {
                assert(segments(listing@[k as int]@)[0] == parts@[0]@);
                assert(segments(listing@[k as int]@)[1] == parts@[1]@);
                assert(under_environment(segments(listing@[k as int]@), app@, env@));
            }
            if !seen {
                names.push(name.clone());
                proof {
                    let last = names@.len() - 1;
                    assert(names@[last]@ == listing@[k as int]@[2]@);
                    assert(listed_under(listing@, k + 1, app@, env@, names@[last]@));
                    assert forall|i: int| 0 <= i < names@.len() implies listed_under(
                        listing@,
                        k + 1,
                        app@,
                        env@,
                        (#[trigger] names@[i])@,
                    ) by {
                        if i < last {
                            assert(names@[i] == old_names[i]);
                        }
                    }
                    assert forall|q: int|
                        0 <= q < k + 1 && under_environment(
                            segments(#[trigger] listing@[q]@),
                            app@,
                            env@,
                        ) implies holds_name(names@, listing@[q]@[2]@) by {
                        if q < k {
                            let i = choose|i: int|
                                0 <= i < old_names.len() && (#[trigger] old_names[i])@
                                    == listing@[q]@[2]@;
                            assert(names@[i] == old_names[i]);
                        } else {
                            assert(names@[last]@ == listing@[q]@[2]@);
                        }
                    }
                }
            }
        } else {
            proof {
                if parts@.len() >= 3 {
                    assert(segments(listing@[k as int]@)[0] == parts@[0]@);
                    assert(segments(listing@[k as int]@)[1] == parts@[1]@);
                }
                assert(!under_environment(segments(listing@[k as int]@), app@, env@));
            }
        }
        k = k + 1;
    }
    names
}

/// The paths that the versions of `vs` occupy under `key`: for each
/// version, its content then its schema, in history order.
pub open spec fn blob_paths(key: ConfigKey, vs: Seq<VersionRecord>) -> Seq<Seq<char>>
    decreases vs.len(),
{
    if vs.len() == 0 {
        Seq::empty()
    } else {
        blob_paths(key, vs.drop_last()).push(key.data_path(vs.last().version)).push(
            key.schema_path(vs.last().version),
        )
    }
}

/// The views of a sequence of strings.
pub open spec fn texts(v: Seq<String>) -> Seq<Seq<char>> {
    v.map_values(|s: String| s@)
}

/// Every path that the key's versions and record occupy: the blobs of each
/// version in history order, and the record last.
pub fn deletion_paths(key: &ConfigKey, m: &Metadata) -> (r: Vec<String>)
    ensures
        texts(r@) == blob_paths(*key, m@.versions).push(key.metadata_path()),
{
    let mut r: Vec<String> = Vec::new();
    let mut i: usize = 0;
    while i < m.versions.len()
        invariant
            i <= m.versions.len(),
            texts(r@) == blob_paths(*key, m@.versions.take(i as int)),
        decreases m.versions.len() - i,
    {
        let v = m.versions[i].version.as_str();
        let ghost before = r@;
        let d = key.data_file(v);
        let sc = key.schema_file(v);
        r.push(d);
        r.push(sc);
        proof {
            let t = m@.versions.take(i + 1);
            assert(t.drop_last() =~= m@.versions.take(i as int));
            assert(t.last() == m@.versions[i as int]);
            assert(texts(r@) =~= texts(before).push(d@).push(sc@));
        }
        i = i + 1;
    }
    proof {
        assert(m@.versions.take(i as int) =~= m@.versions);
    }
    let ghost before = r@;
    let f = key.metadata_file();
    r.push(f);
    proof {
        assert(texts(r@) =~= texts(before).push(f@));
    }
    r
}

} // verus!

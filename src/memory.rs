//! An in-memory store that runs the engine's decisions against a map held in
//! the process: the test backend, and the model on which the engine's laws
//! are stated.
use vstd::prelude::*;
use crate::assoc::{
    keys_distinct, lemma_push_distinct, lemma_to_map_absent, lemma_to_map_dom,
    lemma_to_map_finite, lemma_to_map_index, lemma_to_map_remove, lemma_to_map_update, to_map,
};
use crate::api::{api_error_of, ApiError, ApiErrorView, PutConfigRequest};
use crate::document::{ConfigData, DocView, VersionInfo};
use crate::resolution::{
    needs_existence_probe, plan_schema, schema_not_object, schema_required, SchemaPlan,
};
use crate::validation::{schema_check, validate_request, verdict};
use crate::engine::{
    base_record, current_outcome, current_version, find_version, has_version,
    opt_str, plan_put, put_outcome, version_detail, version_infos,
};
use crate::error::{ErrorView, StorageError};
use crate::json::is_json_object;
use crate::key::{join3, ConfigKey};
use crate::metadata::{
    lemma_with_version_well_formed, max_version_number, now_micros,
    Metadata,
    MetadataView, VersionRecord,
};
use crate::version::{lemma_version_label_injective, lemma_version_label_number, version_label};

verus! {

/// The view of a configuration key: application, environment, name.
pub type KeyView = (Seq<char>, Seq<char>, Seq<char>);

/// What the store holds for one key: its control record and, for each entry
/// of the history, the content and schema written with it.
pub struct ConfigState {
    pub metadata: MetadataView,
    pub blobs: Seq<(serde_json::Value, serde_json::Value)>,
}

/// The whole store as contracts see it.
pub type StoreView = Map<KeyView, ConfigState>;

/// The path of a key.
pub open spec fn key_path(k: KeyView) -> Seq<char> {
    join3(k.0, k.1, k.2)
}

/// The content and schema of one version.
pub struct Snapshot {
    pub content: serde_json::Value,
    pub schema: serde_json::Value,
}

/// What the store holds for one key.
pub struct StoredConfig {
    pub key: ConfigKey,
    pub metadata: Metadata,
    pub blobs: Vec<Snapshot>,
}

/// The views of a sequence of snapshots.
pub open spec fn snapshots(v: Seq<Snapshot>) -> Seq<(serde_json::Value, serde_json::Value)> {
    v.map_values(|s: Snapshot| (s.content, s.schema))
}

impl StoredConfig {
    pub open spec fn entry(&self) -> (KeyView, ConfigState) {
        (self.key@, ConfigState { metadata: self.metadata@, blobs: snapshots(self.blobs@) })
    }
}

/// The history of a store's key is `v1`, `v2`, ... in order, each with its
/// blobs, and the record is well formed.
pub open spec fn state_wf(c: ConfigState) -> bool {
    &&& c.metadata.well_formed()
    &&& 1 <= c.metadata.versions.len() <= u32::MAX
    &&& c.blobs.len() == c.metadata.versions.len()
    &&& forall|i: int|
        0 <= i < c.metadata.versions.len() ==> (#[trigger] c.metadata.versions[i]).version
            == version_label((i + 1) as nat)
}

/// An in-memory configuration store.
pub struct MemoryStore {
    configs: Vec<StoredConfig>,
}

/// The record of `k` in `s`, if any.
pub open spec fn record_of(s: StoreView, k: KeyView) -> Option<MetadataView> {
    if s.contains_key(k) {
        Some(s[k].metadata)
    } else {
        None
    }
}

/// The view of an operation's outcome.
pub open spec fn outcome<T: View>(r: Result<T, StorageError>) -> Result<T::V, ErrorView> {
    match r {
        Ok(v) => Ok(v@),
        Err(e) => Err(e@),
    }
}

/// Reading `version` of `k`.
pub open spec fn get_version_model(s: StoreView, k: KeyView, version: Seq<char>) -> Result<
    DocView,
    ErrorView,
> {
    if !s.contains_key(k) {
        Err(ErrorView::NotFound(key_path(k)))
    } else if !has_version(s[k].metadata.versions, version) {
        Err(ErrorView::NotFound(version_detail(key_path(k), version)))
    } else {
        let i = choose|i: int|
            0 <= i < s[k].metadata.versions.len() && #[trigger] s[k].metadata.versions[i].version
                == version;
        Ok(DocView { content: s[k].blobs[i].0, schema: s[k].blobs[i].1, version })
    }
}

/// Reading the current version of `k`.
pub open spec fn get_model(s: StoreView, k: KeyView) -> Result<DocView, ErrorView> {
    match current_outcome(record_of(s, k), key_path(k)) {
        Ok(v) => get_version_model(s, k, v),
        Err(e) => Err(e),
    }
}

/// The history of `k`, oldest first.
pub open spec fn list_versions_model(s: StoreView, k: KeyView) -> Result<
    Seq<VersionRecord>,
    ErrorView,
> {
    if s.contains_key(k) {
        Ok(s[k].metadata.versions)
    } else {
        Err(ErrorView::NotFound(key_path(k)))
    }
}

/// Writing a new version of `k`: the new store and the outcome.
pub open spec fn put_model(
    s: StoreView,
    k: KeyView,
    content: serde_json::Value,
    schema: serde_json::Value,
    expected: Option<Seq<char>>,
    now: i64,
) -> (StoreView, Result<Seq<char>, ErrorView>) {
    match put_outcome(
        record_of(s, k),
        expected,
        key_path(k),
        is_json_object(content),
        is_json_object(schema),
    ) {
        Err(e) => (s, Err(e)),
        Ok(n) => {
            let v = version_label(n);
            let blobs = if s.contains_key(k) {
                s[k].blobs
            } else {
                Seq::empty()
            };
            let state = ConfigState {
                metadata: base_record(record_of(s, k)).with_version(v, now),
                blobs: blobs.push((content, schema)),
            };
            (s.insert(k, state), Ok(v))
        },
    }
}

/// Removing `k` with all its versions.
pub open spec fn delete_model(s: StoreView, k: KeyView) -> (StoreView, Result<(), ErrorView>) {
    if s.contains_key(k) {
        (s.remove(k), Ok(()))
    } else {
        (s, Err(ErrorView::NotFound(key_path(k))))
    }
}

/// Every key of the store has a well-formed history.
pub open spec fn store_wf(s: StoreView) -> bool {
    forall|k: KeyView| s.contains_key(k) ==> state_wf(#[trigger] s[k])
}

/// Whether `k` lies under `app/env`.
pub open spec fn in_environment(k: KeyView, app: Seq<char>, env: Seq<char>) -> bool {
    k.0 == app && k.1 == env
}

/// The keys of `s` under `app/env`.
pub open spec fn environment_keys(s: StoreView, app: Seq<char>, env: Seq<char>) -> Set<KeyView> {
    s.dom().filter(|k: KeyView| in_environment(k, app, env))
}

/// Removing every key under `app/env`: the new store and how many keys went.
pub open spec fn delete_environment_model(s: StoreView, app: Seq<char>, env: Seq<char>) -> (
    StoreView,
    nat,
) {
    (s.remove_keys(environment_keys(s, app, env)), environment_keys(s, app, env).len())
}

/// Whether the key path `path` lies under `prefix`: the prefix is empty,
/// equals the path, or is followed in it by a separator.
pub open spec fn under_prefix(path: Seq<char>, prefix: Seq<char>) -> bool {
    ||| prefix.len() == 0
    ||| path == prefix
    ||| (prefix.len() < path.len() && path.subrange(0, prefix.len() as int) == prefix
        && path[prefix.len() as int] == '/')
}

/// A history `v1`, `v2`, ... has its length as largest version number.
pub proof fn lemma_sequential_max(vs: Seq<VersionRecord>)
    requires
        vs.len() <= u32::MAX,
        forall|i: int| 0 <= i < vs.len() ==> (#[trigger] vs[i]).version == version_label((i + 1) as nat),
    ensures
        max_version_number(vs) == vs.len(),
    decreases vs.len(),
{
    if vs.len() > 0 {
        let d = vs.drop_last();
        assert forall|i: int| 0 <= i < d.len() implies (#[trigger] d[i]).version == version_label(
            (i + 1) as nat,
        ) by {
            assert(d[i] == vs[i]);
        }
        lemma_sequential_max(d);
        lemma_version_label_number(vs.len());
    }
}

/// A put keeps every key's history well formed.
pub proof fn lemma_put_store_wf(
    s: StoreView,
    k: KeyView,
    content: serde_json::Value,
    schema: serde_json::Value,
    expected: Option<Seq<char>>,
    now: i64,
)
    requires
        store_wf(s),
    ensures
        store_wf(put_model(s, k, content, schema, expected, now).0),
{
    let s2 = put_model(s, k, content, schema, expected, now).0;
    if put_model(s, k, content, schema, expected, now).1 is Ok {
        let m = base_record(record_of(s, k));
        if s.contains_key(k) {
            assert(state_wf(s[k]));
            lemma_sequential_max(m.versions);
        }
        let n = m.next_number();
        lemma_version_label_number(n);
        lemma_with_version_well_formed(m, version_label(n), now);
        let st = s2[k];
        assert forall|i: int| 0 <= i < st.metadata.versions.len() implies (
        #[trigger] st.metadata.versions[i]).version == version_label((i + 1) as nat) by {
            if i < m.versions.len() {
                assert(st.metadata.versions[i] == m.versions[i]);
            }
        }
        assert forall|q: KeyView| s2.contains_key(q) implies state_wf(#[trigger] s2[q]) by {
            if q != k {
                assert(s2[q] == s[q]);
            }
        }
    }
}

/// The keys that a listing under `prefix` shows; all keys without one.
pub open spec fn list_model(s: StoreView, prefix: Option<Seq<char>>) -> Set<KeyView> {
    s.dom().filter(|k: KeyView| listed(k, prefix))
}

/// Whether a listing under `prefix` shows `k`.
pub open spec fn listed(k: KeyView, prefix: Option<Seq<char>>) -> bool {
    match prefix {
        None => true,
        Some(p) => under_prefix(key_path(k), p),
    }
}

/// Whether the key path `path` lies under `prefix`.
fn has_prefix(path: &str, prefix: &str) -> (r: bool)
    ensures
        r == under_prefix(path@, prefix@),
{
    let plen = prefix.unicode_len();
    let len = path.unicode_len();
    if plen == 0 {
        return true;
    }
    if plen > len {
        return false;
    }
    let mut i: usize = 0;
    while i < plen
        invariant
            i <= plen <= len,
            plen == prefix@.len(),
            len == path@.len(),
            path@.subrange(0, i as int) =~= prefix@.subrange(0, i as int),
        decreases plen - i,
    {
        if path.get_char(i) != prefix.get_char(i) {
            proof {
                assert(path@.subrange(0, plen as int)[i as int] != prefix@[i as int]);
            }
            return false;
        }
        i = i + 1;
    }
    assert(prefix@.subrange(0, plen as int) =~= prefix@);
    if plen == len {
        assert(path@.subrange(0, len as int) =~= path@);
        true
    } else {
        path.get_char(plen) == '/'
    }
}

/// Whether one of the first `upto` entries has key `k` and is listed.
pub open spec fn shown_among(
    entries: Seq<(KeyView, ConfigState)>,
    upto: int,
    prefix: Option<Seq<char>>,
    k: KeyView,
) -> bool {
    exists|j: int| 0 <= j < upto && (#[trigger] entries[j]).0 == k && listed(k, prefix)
}

/// Whether `keys` holds a key whose view is `k`.
pub open spec fn holds_key(keys: Seq<ConfigKey>, k: KeyView) -> bool {
    exists|m: int| 0 <= m < keys.len() && (#[trigger] keys[m])@ == k
}

/// Which schema governs a write of `k` that supplies `schema` (or none) and
/// expects `expected` to be current (or none).
pub open spec fn resolve_schema_model(
    s: StoreView,
    k: KeyView,
    schema: Option<serde_json::Value>,
    expected: Option<Seq<char>>,
) -> Result<serde_json::Value, ApiErrorView> {
    match schema {
        Some(sc) => if is_json_object(sc) {
            Ok(sc)
        } else {
            Err(ApiErrorView::BadRequest(schema_not_object()))
        },
        None => match expected {
            Some(v) => match get_version_model(s, k, v) {
                Ok(d) => Ok(d.schema),
                Err(e) => Err(api_error_of(e)),
            },
            None => if s.contains_key(k) {
                match get_model(s, k) {
                    Ok(d) => Ok(d.schema),
                    Err(e) => Err(api_error_of(e)),
                }
            } else {
                Err(ApiErrorView::BadRequest(schema_required()))
            },
        },
    }
}

/// The whole write path: resolve the schema, validate the content against
/// it, then put; the new store and the outcome.
pub open spec fn put_config_model(
    s: StoreView,
    k: KeyView,
    content: serde_json::Value,
    schema: Option<serde_json::Value>,
    expected: Option<Seq<char>>,
    now: i64,
) -> (StoreView, Result<Seq<char>, ApiErrorView>) {
    match resolve_schema_model(s, k, schema, expected) {
        Err(e) => (s, Err(e)),
        Ok(sc) => match verdict(is_json_object(content), schema_check(sc, content)) {
            Err(e) => (s, Err(e)),
            Ok(()) => {
                let (s2, r) = put_model(s, k, content, sc, expected, now);
                (
                    s2,
                    match r {
                        Ok(v) => Ok(v),
                        Err(e) => Err(api_error_of(e)),
                    },
                )
            },
        },
    }
}

/// The view of an optional owned string.
pub open spec fn opt_string(o: Option<String>) -> Option<Seq<char>> {
    match o {
        Some(s) => Some(s@),
        None => None,
    }
}

/// The view of a service outcome.
pub open spec fn api_result<T: View>(r: Result<T, ApiError>) -> Result<T::V, ApiErrorView> {
    match r {
        Ok(v) => Ok(v@),
        Err(e) => Err(e@),
    }
}

impl View for MemoryStore {
    type V = StoreView;

    closed spec fn view(&self) -> StoreView {
        to_map(self.entries())
    }
}

impl MemoryStore {
    pub closed spec fn entries(&self) -> Seq<(KeyView, ConfigState)> {
        self.configs@.map_values(|c: StoredConfig| c.entry())
    }

    /// The store's invariant: one entry per key, each well formed.
    pub closed spec fn wf(&self) -> bool {
        &&& keys_distinct(self.entries())
        &&& forall|i: int| 0 <= i < self.entries().len() ==> state_wf(#[trigger] self.entries()[i].1)
    }

    /// A store's invariant shows in its view.
    pub proof fn lemma_view_wf(&self)
        requires
            self.wf(),
        ensures
            store_wf(self@),
    {
        assert forall|k: KeyView| self@.contains_key(k) implies state_wf(#[trigger] self@[k]) by {
            lemma_to_map_dom(self.entries(), k);
            let i = choose|i: int| 0 <= i < self.entries().len() && (#[trigger] self.entries()[i]).0 == k;
            lemma_to_map_index(self.entries(), i);
        }
    }

    /// An empty store.
    pub fn new() -> (r: Self)
        ensures
            r.wf(),
            r@ == Map::<KeyView, ConfigState>::empty(),
    {
        let r = MemoryStore { configs: Vec::new() };
        proof {
            assert(r.entries() =~= Seq::empty());
        }
        r
    }

    /// Where `key` stands among the entries.
    fn position(&self, key: &ConfigKey) -> (r: Option<usize>)
        requires
            self.wf(),
        ensures
            r matches Some(i) ==> i < self.entries().len() && self.entries()[i as int].0 == key@
                && self@.contains_key(key@) && self@[key@] == self.entries()[i as int].1,
            r is None ==> !self@.contains_key(key@),
    {
        let mut i: usize = 0;
        while i < self.configs.len()
            invariant
                self.wf(),
                i <= self.configs.len(),
                forall|j: int| 0 <= j < i ==> (#[trigger] self.entries()[j]).0 != key@,
            decreases self.configs.len() - i,
        {
            if self.configs[i].key == *key {
                proof {
                    lemma_to_map_index(self.entries(), i as int);
                }
                return Some(i);
            }
            i = i + 1;
        }
        proof {
            lemma_to_map_absent(self.entries(), key@);
        }
        None
    }

    /// Whether `key` has a record.
    pub fn config_exists(&self, key: &ConfigKey) -> (r: bool)
        requires
            self.wf(),
        ensures
            r == self@.contains_key(key@),
    {
        self.position(key).is_some()
    }

    /// The history of `key`, oldest first; `NotFound` where it has no record.
    pub fn list_versions(&self, key: &ConfigKey) -> (r: Result<Vec<VersionInfo>, StorageError>)
        requires
            self.wf(),
        ensures
            match list_versions_model(self@, key@) {
                Ok(vs) => r matches Ok(infos) && infos@.len() == vs.len() && forall|i: int|
                    0 <= i < vs.len() ==> (#[trigger] infos@[i]).version@ == vs[i].version
                        && infos@[i].timestamp == vs[i].timestamp,
                Err(e) => r matches Err(x) && x@ == e,
            },
    {
        match self.position(key) {
            Some(i) => Ok(version_infos(&self.configs[i].metadata)),
            None => Err(StorageError::NotFound(key.to_path())),
        }
    }

    /// Reads `version` of `key`: its content and schema as written.
    pub fn get_version(&self, key: &ConfigKey, version: &str) -> (r: Result<
        ConfigData,
        StorageError,
    >)
        requires
            self.wf(),
        ensures
            outcome(r) == get_version_model(self@, key@, version@),
    {
        let pos = self.position(key);
        let existing = match pos {
            Some(i) => Some(&self.configs[i].metadata),
            None => None,
        };
        match find_version(key, existing, version) {
            Err(e) => Err(e),
            Ok(j) => {
                let i = pos.unwrap();
                proof {
                    let c = self.entries()[i as int].1;
                    assert(c == self@[key@]);
                    assert(state_wf(c));
                    let k = choose|k: int|
                        0 <= k < c.metadata.versions.len() && #[trigger] c.metadata.versions[k].version
                            == version@;
                    lemma_version_label_injective((k + 1) as nat, (j + 1) as nat);
                    assert(snapshots(self.configs@[i as int].blobs@)[j as int] == (
                        self.configs@[i as int].blobs@[j as int].content,
                        self.configs@[i as int].blobs@[j as int].schema,
                    ));
                }
                let snap = &self.configs[i].blobs[j];
                Ok(
                    ConfigData {
                        content: snap.content.clone(),
                        schema: snap.schema.clone(),
                        version: String::from_str(version),
                    },
                )
            },
        }
    }

    /// Reads the current version of `key`.
    pub fn get(&self, key: &ConfigKey) -> (r: Result<ConfigData, StorageError>)
        requires
            self.wf(),
        ensures
            outcome(r) == get_model(self@, key@),
    {
        let existing = match self.position(key) {
            Some(i) => Some(&self.configs[i].metadata),
            None => None,
        };
        match current_version(key, existing) {
            Err(e) => Err(e),
            Ok(v) => self.get_version(key, v.as_str()),
        }
    }

    /// Writes a new version of `key` with the content and schema of `data`,
    /// created at `now`. Without `expected` the key must have no record;
    /// with it, `expected` must be the current version. The new version is
    /// `v<N>` for the next number `N`, and becomes current.
    pub fn put_at(
        &mut self,
        key: &ConfigKey,
        data: &ConfigData,
        expected: Option<&str>,
        now: i64,
    ) -> (r: Result<String, StorageError>)
        requires
            old(self).wf(),
        ensures
            final(self).wf(),
            (final(self)@, outcome(r)) == put_model(
                old(self)@,
                key@,
                data.content,
                data.schema,
                opt_str(expected),
                now,
            ),
    {
        let ghost before = self@;
        let ghost old_entries = self.entries();
        proof {
            self.lemma_view_wf();
        }
        let pos = self.position(key);
        let existing = match pos {
            Some(i) => Some(self.configs[i].metadata.clone()),
            None => None,
        };
        let plan = match plan_put(key, existing, data, expected, now) {
            Ok(p) => p,
            Err(e) => {
                return Err(e);
            },
        };
        proof {
            lemma_put_store_wf(before, key@, data.content, data.schema, opt_str(expected), now);
        }
        let ghost target = put_model(before, key@, data.content, data.schema, opt_str(expected), now).0;
        let snap = Snapshot { content: data.content.clone(), schema: data.schema.clone() };
        let version = plan.version.clone();
        match pos {
            Some(i) => {
                let mut c = self.configs.remove(i);
                c.metadata = plan.metadata;
                let ghost old_blobs = c.blobs@;
                c.blobs.push(snap);
                proof {
                    assert(snapshots(c.blobs@) =~= snapshots(old_blobs).push((data.content, data.schema)));
                    assert(c.entry().1 == target[key@]);
                }
                self.configs.insert(i, c);
                proof {
                    assert(self.entries() =~= old_entries.update(i as int, (key@, target[key@])));
                    lemma_to_map_update(old_entries, i as int, target[key@]);
                    assert(self@ =~= target);
                }
            },
            None => {
                let c = StoredConfig { key: key.clone(), metadata: plan.metadata, blobs: vec![snap] };
                proof {
                    assert(snapshots(c.blobs@) =~= seq![(data.content, data.schema)]);
                    let pair = (data.content, data.schema);
                    assert(Seq::empty().push(pair) =~= seq![pair]);
                    assert(c.entry().1 == target[key@]);
                    assert forall|j: int| 0 <= j < old_entries.len() implies (#[trigger] old_entries[j]).0 != key@ by {
                        lemma_to_map_dom(old_entries, key@);
                    }
                    lemma_push_distinct(old_entries, c.entry());
                }
                self.configs.push(c);
                proof {
                    assert(self.entries() =~= old_entries.push((key@, target[key@])));
                    assert(self@ =~= target);
                }
            },
        }
        proof {
            assert forall|j: int| 0 <= j < self.entries().len() implies state_wf(#[trigger] self.entries()[j].1) by {
                lemma_to_map_index(self.entries(), j);
                assert(target.contains_key(self.entries()[j].0));
            }
        }
        Ok(version)
    }

    /// Writes a new version of `key`, created now; see `put_at`.
    pub fn put(&mut self, key: &ConfigKey, data: &ConfigData, expected: Option<&str>) -> (r: Result<
        String,
        StorageError,
    >)
        requires
            old(self).wf(),
        ensures
            final(self).wf(),
            exists|now: i64|
                (final(self)@, outcome(r)) == #[trigger] put_model(
                    old(self)@,
                    key@,
                    data.content,
                    data.schema,
                    opt_str(expected),
                    now,
                ),
    {
        let now = now_micros();
        self.put_at(key, data, expected, now)
    }

    /// Removes `key`: its record and every version; `NotFound` where it has
    /// no record.
    pub fn delete(&mut self, key: &ConfigKey) -> (r: Result<(), StorageError>)
        requires
            old(self).wf(),
        ensures
            final(self).wf(),
            final(self)@ == delete_model(old(self)@, key@).0,
            match delete_model(old(self)@, key@).1 {
                Ok(()) => r is Ok,
                Err(e) => r matches Err(x) && x@ == e,
            },
    {
        let ghost old_entries = self.entries();
        match self.position(key) {
            None => Err(StorageError::NotFound(key.to_path())),
            Some(i) => {
                self.configs.remove(i);
                proof {
                    assert(self.entries() =~= old_entries.remove(i as int));
                    lemma_to_map_remove(old_entries, i as int);
                    assert forall|j: int| 0 <= j < self.entries().len() implies state_wf(
                        #[trigger] self.entries()[j].1,
                    ) by {
                        if j < i {
                            assert(self.entries()[j] == old_entries[j]);
                        } else {
                            assert(self.entries()[j] == old_entries[j + 1]);
                        }
                    }
                }
                Ok(())
            },
        }
    }

    /// Removes every key under `app/env`, with all their versions, and
    /// returns how many keys went. Keys elsewhere are untouched.
    pub fn delete_environment(&mut self, app: &str, env: &str) -> (r: usize)
        requires
            old(self).wf(),
        ensures
            final(self).wf(),
            final(self)@ == delete_environment_model(old(self)@, app@, env@).0,
            r == delete_environment_model(old(self)@, app@, env@).1,
    {
        let ghost orig = self@;
        let ghost all = environment_keys(orig, app@, env@);
        let app_s = String::from_str(app);
        let env_s = String::from_str(env);
        let mut count: usize = 0;
        let mut i: usize = 0;
        let ghost total = self.configs.len();
        proof {
            lemma_to_map_finite(self.entries());
            assert(environment_keys(self@, app@, env@) =~= all);
        }
        while i < self.configs.len()
            invariant
                self.wf(),
                app_s@ == app@,
                env_s@ == env@,
                i <= self.configs.len(),
                all.finite(),
                all == environment_keys(orig, app@, env@),
                forall|j: int| 0 <= j < i ==> !in_environment((#[trigger] self.entries()[j]).0, app@, env@),
                forall|k: KeyView| #[trigger] self@.contains_key(k) ==> orig.contains_key(k) && self@[k] == orig[k],
                forall|k: KeyView| #[trigger] orig.contains_key(k) && !in_environment(k, app@, env@) ==> self@.contains_key(k),
                environment_keys(self@, app@, env@).subset_of(all),
                count + environment_keys(self@, app@, env@).len() == all.len(),
                count + self.configs.len() == total,
            decreases self.configs.len() - i,
        {
            if self.configs[i].key.application == app_s && self.configs[i].key.environment == env_s {
                let ghost old_entries = self.entries();
                let ghost old_view = self@;
                let ghost k = old_entries[i as int].0;
                proof {
                    lemma_to_map_index(old_entries, i as int);
                    lemma_to_map_remove(old_entries, i as int);
                }
                self.configs.remove(i);
                proof {
                    assert(self.entries() =~= old_entries.remove(i as int));
                    assert(self@ == old_view.remove(k));
                    assert forall|q: KeyView| self@.contains_key(q) implies orig.contains_key(q)
                        && self@[q] == orig[q] by {
                        assert(old_view.contains_key(q));
                    }
                    assert forall|q: KeyView| orig.contains_key(q) && !in_environment(q, app@, env@)
                        implies self@.contains_key(q) by {
                        assert(old_view.contains_key(q));
                        assert(q != k);
                    }
                    assert(environment_keys(self@, app@, env@) =~= environment_keys(old_view, app@, env@).remove(k));
                    assert(environment_keys(old_view, app@, env@).contains(k));
                    assert(environment_keys(old_view, app@, env@).finite()) by {
                        vstd::set_lib::lemma_set_subset_finite(all, environment_keys(old_view, app@, env@));
                    }
                    assert forall|j: int| 0 <= j < self.entries().len() implies state_wf(
                        #[trigger] self.entries()[j].1,
                    ) by {
                        if j < i {
                            assert(self.entries()[j] == old_entries[j]);
                        } else {
                            assert(self.entries()[j] == old_entries[j + 1]);
                        }
                    }
                    assert forall|j: int| 0 <= j < i implies !in_environment((#[trigger] self.entries()[j]).0, app@, env@) by {
                        assert(self.entries()[j] == old_entries[j]);
                    }
                    assert(environment_keys(self@, app@, env@).len() + 1 == environment_keys(old_view, app@, env@).len());
                }
                count = count + 1;
            } else {
                i = i + 1;
            }
        }
        proof {
            let rest = environment_keys(self@, app@, env@);
            assert forall|k: KeyView| !rest.contains(k) by {
                lemma_to_map_dom(self.entries(), k);
            }
            assert(rest =~= Set::empty());
            assert forall|k: KeyView| #[trigger] self@.contains_key(k) <==> orig.remove_keys(all).contains_key(k) by {
                if self@.contains_key(k) {
                    assert(!rest.contains(k));
                    assert(orig.contains_key(k));
                }
                if orig.remove_keys(all).contains_key(k) {
                    assert(orig.contains_key(k) && !all.contains(k));
                    assert(!in_environment(k, app@, env@));
                }
            }
            assert(self@ =~= orig.remove_keys(all));
        }
        count
    }

    /// The keys whose path lies under `prefix` (all keys without one), each
    /// once, in no particular order.
    pub fn list(&self, prefix: Option<&str>) -> (r: Vec<ConfigKey>)
        requires
            self.wf(),
        ensures
            forall|a: int, b: int| 0 <= a < b < r@.len() ==> r@[a]@ != r@[b]@,
            forall|k: KeyView| #[trigger] holds_key(r@, k) <==> list_model(self@, opt_str(prefix)).contains(k),
    {
        let ghost es = self.entries();
        let ghost p = opt_str(prefix);
        let mut keys: Vec<ConfigKey> = Vec::new();
        let mut i: usize = 0;
        while i < self.configs.len()
            invariant
                self.wf(),
                es == self.entries(),
                p == opt_str(prefix),
                i <= self.configs.len(),
                forall|a: int, b: int| 0 <= a < b < keys@.len() ==> keys@[a]@ != keys@[b]@,
                forall|m: int| 0 <= m < keys@.len() ==> shown_among(es, i as int, p, (#[trigger] keys@[m])@),
                forall|k: KeyView| shown_among(es, i as int, p, k) ==> #[trigger] holds_key(keys@, k),
            decreases self.configs.len() - i,
        {
            let key = &self.configs[i].key;
            let show = match prefix {
                None => true,
                Some(p) => {
                    let path = key.to_path();
                    has_prefix(path.as_str(), p)
                },
            };
            let ghost old_keys = keys@;
            proof {
                assert forall|m: int| 0 <= m < keys@.len() implies shown_among(es, i + 1, p, (#[trigger] keys@[m])@) by {
                    let j = choose|j: int| 0 <= j < i && (#[trigger] es[j]).0 == keys@[m]@ && listed(keys@[m]@, p);
                    assert(0 <= j < i + 1);
                }
            }
            if show {
                let k = key.clone();
                keys.push(k);
                proof {
                    let last = keys@.len() - 1;
                    assert(es[i as int].0 == key@);
                    assert(shown_among(es, i + 1, p, keys@[last]@));
                    assert forall|m: int| 0 <= m < keys@.len() implies shown_among(es, i + 1, p, (#[trigger] keys@[m])@) by {
                        if m < last {
                            assert(keys@[m] == old_keys[m]);
                        }
                    }
                    assert forall|a: int, b: int| 0 <= a < b < keys@.len() implies keys@[a]@ != keys@[b]@ by {
                        if b == last {
                            assert(keys@[a] == old_keys[a]);
                            let j = choose|j: int| 0 <= j < i && (#[trigger] es[j]).0 == old_keys[a]@ && listed(old_keys[a]@, p);
                            assert(es[j].0 != es[i as int].0);
                        } else {
                            assert(keys@[a] == old_keys[a] && keys@[b] == old_keys[b]);
                        }
                    }
                    assert forall|q: KeyView| shown_among(es, i + 1, p, q) implies #[trigger] holds_key(keys@, q) by {
                        let j = choose|j: int| 0 <= j < i + 1 && (#[trigger] es[j]).0 == q && listed(q, p);
                        if j < i {
                            assert(shown_among(es, i as int, p, q));
                            assert(holds_key(old_keys, q));
                            let m = choose|m: int| 0 <= m < old_keys.len() && (#[trigger] old_keys[m])@ == q;
                            assert(keys@[m] == old_keys[m]);
                        } else {
                            assert(keys@[last]@ == q);
                        }
                    }
                }
            } else {
                proof {
                    assert forall|q: KeyView| shown_among(es, i + 1, p, q) implies #[trigger] holds_key(keys@, q) by {
                        let j = choose|j: int| 0 <= j < i + 1 && (#[trigger] es[j]).0 == q && listed(q, p);
                        if j < i {
                            assert(shown_among(es, i as int, p, q));
                        } else {
                            assert(es[i as int].0 == key@);
                        }
                    }
                }
            }
            i = i + 1;
        }
        proof {
            assert forall|k: KeyView| #[trigger] holds_key(keys@, k) <==> list_model(self@, p).contains(k) by {
                lemma_to_map_dom(es, k);
                if holds_key(keys@, k) {
                    let m = choose|m: int| 0 <= m < keys@.len() && (#[trigger] keys@[m])@ == k;
                    assert(shown_among(es, es.len() as int, p, keys@[m]@));
                    let j = choose|j: int| 0 <= j < es.len() && (#[trigger] es[j]).0 == k && listed(k, p);
                    assert(self@.contains_key(k));
                }
                if list_model(self@, p).contains(k) {
                    let j = choose|j: int| 0 <= j < es.len() && (#[trigger] es[j]).0 == k;
                    assert(shown_among(es, es.len() as int, p, k));
                }
            }
        }
        keys
    }

    /// Which schema governs a write of `key` by `request`.
    pub fn resolve_schema(&self, key: &ConfigKey, request: &PutConfigRequest) -> (r: Result<
        serde_json::Value,
        ApiError,
    >)
        requires
            self.wf(),
        ensures
            match resolve_schema_model(
                self@,
                key@,
                request.schema,
                opt_string(request.expected_version),
            ) {
                Ok(sc) => r == Ok::<serde_json::Value, ApiError>(sc),
                Err(e) => r matches Err(x) && x@ == e,
            },
    {
        let expected = match &request.expected_version {
            Some(v) => Some(v.as_str()),
            None => None,
        };
        let exists = needs_existence_probe(request.schema.as_ref(), expected) && self.config_exists(key);
        match plan_schema(request.schema.as_ref(), expected, exists) {
            SchemaPlan::Supplied(s) => Ok(s),
            SchemaPlan::Rejected(e) => Err(e),
            SchemaPlan::FromVersion(v) => match self.get_version(key, v.as_str()) {
                Ok(d) => Ok(d.schema),
                Err(e) => Err(ApiError::from_storage_error(&e)),
            },
            SchemaPlan::FromCurrent => match self.get(key) {
                Ok(d) => Ok(d.schema),
                Err(e) => Err(ApiError::from_storage_error(&e)),
            },
        }
    }

    /// The whole write path for `key`, with the new version created at
    /// `now`: resolve the schema, validate the content against it, then put.
    /// Returns the new version.
    pub fn put_config_at(&mut self, key: &ConfigKey, request: &PutConfigRequest, now: i64) -> (r: Result<
        String,
        ApiError,
    >)
        requires
            old(self).wf(),
        ensures
            final(self).wf(),
            (final(self)@, api_result(r)) == put_config_model(
                old(self)@,
                key@,
                request.content,
                request.schema,
                opt_string(request.expected_version),
                now,
            ),
    {
        let schema = match self.resolve_schema(key, request) {
            Ok(s) => s,
            Err(e) => {
                return Err(e);
            },
        };
        match validate_request(request, &schema) {
            Ok(()) => {},
            Err(e) => {
                return Err(e);
            },
        }
        let data = ConfigData {
            content: request.content.clone(),
            schema,
            version: String::new(),
        };
        let expected = match &request.expected_version {
            Some(v) => Some(v.as_str()),
            None => None,
        };
        match self.put_at(key, &data, expected, now) {
            Ok(v) => Ok(v),
            Err(e) => Err(ApiError::from_storage_error(&e)),
        }
    }

    /// The whole write path for `key`, with the new version created now; see
    /// `put_config_at`.
    pub fn put_config(&mut self, key: &ConfigKey, request: &PutConfigRequest) -> (r: Result<
        String,
        ApiError,
    >)
        requires
            old(self).wf(),
        ensures
            final(self).wf(),
            exists|now: i64|
                (final(self)@, api_result(r)) == #[trigger] put_config_model(
                    old(self)@,
                    key@,
                    request.content,
                    request.schema,
                    opt_string(request.expected_version),
                    now,
                ),
    {
        let now = now_micros();
        self.put_config_at(key, request, now)
    }
}

} // verus!

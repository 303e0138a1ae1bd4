use vstd::prelude::*;
use crate::version::{version_number, parse_version_number};

verus! {

/// One entry of a configuration's history, as contracts see it.
pub struct VersionRecord {
    pub version: Seq<char>,
    pub timestamp: i64,
}

/// A configuration's control record, as contracts see it.
pub struct MetadataView {
    pub current_version: Seq<char>,
    pub versions: Seq<VersionRecord>,
}

/// One entry of a configuration's history: a version string and the instant
/// it was created, in microseconds since the Unix epoch.
#[derive(Debug)]
pub struct VersionMetadata {
    pub version: String,
    pub timestamp: i64,
}

impl View for VersionMetadata {
    type V = VersionRecord;

    open spec fn view(&self) -> VersionRecord {
        VersionRecord { version: self.version@, timestamp: self.timestamp }
    }
}

impl Clone for VersionMetadata {
    fn clone(&self) -> (r: Self)
        ensures
            r@ == self@,
    {
        VersionMetadata { version: self.version.clone(), timestamp: self.timestamp }
    }
}

/// The control record of one configuration: the current version and the
/// history of versions, oldest first.
#[derive(Debug)]
pub struct Metadata {
    pub current_version: String,
    pub versions: Vec<VersionMetadata>,
}

/// The views of a sequence of history entries.
pub open spec fn records(vs: Seq<VersionMetadata>) -> Seq<VersionRecord> {
    vs.map_values(|r: VersionMetadata| r@)
}

impl View for Metadata {
    type V = MetadataView;

    open spec fn view(&self) -> MetadataView {
        MetadataView { current_version: self.current_version@, versions: records(self.versions@) }
    }
}

impl Clone for Metadata {
    fn clone(&self) -> (r: Self)
        ensures
            r@ == self@,
    {
        let mut versions: Vec<VersionMetadata> = Vec::new();
        let mut i: usize = 0;
        while i < self.versions.len()
            invariant
                i <= self.versions.len(),
                versions@.len() == i,
                forall|k: int| 0 <= k < i ==> (#[trigger] versions@[k])@ == self.versions@[k]@,
            decreases self.versions.len() - i,
        {
            let entry = self.versions[i].clone();
            versions.push(entry);
            i = i + 1;
        }
        proof {
            assert(records(versions@) =~= records(self.versions@));
        }
        Metadata { current_version: self.current_version.clone(), versions }
    }
}

/// The largest number among the well-formed version strings of `vs`, or 0.
pub open spec fn max_version_number(vs: Seq<VersionRecord>) -> nat
    decreases vs.len(),
{
    if vs.len() == 0 {
        0
    } else {
        let m = max_version_number(vs.drop_last());
        match version_number(vs.last().version) {
            Some(n) => if n > m {
                n
            } else {
                m
            },
            None => m,
        }
    }
}

impl MetadataView {
    /// The invariant of a control record: the current version is empty exactly
    /// when the history is, and otherwise names its last entry; timestamps
    /// never decrease along the history.
    pub open spec fn well_formed(self) -> bool {
        &&& (self.current_version.len() == 0 <==> self.versions.len() == 0)
        &&& self.versions.len() > 0 ==> self.current_version == self.versions.last().version
        &&& forall|i: int, j: int|
            0 <= i <= j < self.versions.len() ==> #[trigger] self.versions[i].timestamp
                <= #[trigger] self.versions[j].timestamp
    }

    /// The number that the next version of this record gets.
    pub open spec fn next_number(self) -> nat {
        max_version_number(self.versions) + 1
    }

    /// The timestamp that a new entry created at `now` gets: never earlier
    /// than the last entry's.
    pub open spec fn stamp_after(self, now: i64) -> i64 {
        if self.versions.len() > 0 && self.versions.last().timestamp > now {
            self.versions.last().timestamp
        } else {
            now
        }
    }

    /// The record after appending `version`, created at `now`.
    pub open spec fn with_version(self, version: Seq<char>, now: i64) -> MetadataView {
        MetadataView {
            current_version: version,
            versions: self.versions.push(
                VersionRecord { version, timestamp: self.stamp_after(now) },
            ),
        }
    }
}

/// Appending a non-empty version string keeps a record well formed.
pub proof fn lemma_with_version_well_formed(m: MetadataView, version: Seq<char>, now: i64)
    requires
        m.well_formed(),
        version.len() > 0,
    ensures
        m.with_version(version, now).well_formed(),
{
    let v = m.with_version(version, now).versions;
    assert forall|i: int, j: int| 0 <= i <= j < v.len() implies #[trigger] v[i].timestamp
        <= #[trigger] v[j].timestamp by {
        if j == v.len() - 1 && i < j {
            assert(m.versions[i].timestamp <= m.versions.last().timestamp);
        }
    }
}

/// Relies on chrono's `Utc::now` and `DateTime::timestamp_micros`: the
/// current instant in microseconds since the Unix epoch. Nothing is promised
/// of its value.
#[verifier::external_body]
pub(crate) fn now_micros() -> i64 {
    chrono::Utc::now().timestamp_micros()
}

impl Default for Metadata {
    fn default() -> (r: Self)
        ensures
            r@.current_version.len() == 0,
            r@.versions.len() == 0,
    {
        Metadata { current_version: String::new(), versions: Vec::new() }
    }
}

impl Metadata {
    /// An empty record: no current version and no history.
    pub fn new() -> (r: Self)
        ensures
            r@.current_version.len() == 0,
            r@.versions.len() == 0,
            r@.well_formed(),
    {
        Metadata::default()
    }

    /// Appends `version`, created now, to the history and makes it current.
    pub fn add_version(&mut self, version: String)
        ensures
            exists|now: i64| final(self)@ == old(self)@.with_version(version@, now),
            old(self)@.well_formed() && version@.len() > 0 ==> final(self)@.well_formed(),
    {
        let now = now_micros();
        self.add_version_at(version, now);
    }

    /// Appends `version`, created at `now`, to the history and makes it
    /// current. The entry's timestamp is `now`, or the last entry's where that
    /// is later, so that timestamps never decrease.
    pub fn add_version_at(&mut self, version: String, now: i64)
        ensures
            final(self)@ == old(self)@.with_version(version@, now),
            old(self)@.well_formed() && version@.len() > 0 ==> final(self)@.well_formed(),
    {
        let ghost old_view = self@;
        let n = self.versions.len();
        let mut timestamp = now;
        if n > 0 && self.versions[n - 1].timestamp > now {
            timestamp = self.versions[n - 1].timestamp;
        }
        let entry = VersionMetadata { version: version.clone(), timestamp };
        self.versions.push(entry);
        self.current_version = version;
        proof {
            assert(records(self.versions@) =~= old_view.versions.push(
                VersionRecord { version: version@, timestamp: old_view.stamp_after(now) },
            ));
            if old_view.well_formed() && version@.len() > 0 {
                lemma_with_version_well_formed(old_view, version@, now);
            }
        }
    }

    /// The number of the next version: one more than the largest number among
    /// the well-formed version strings, which is 1 for an empty history.
    /// Malformed version strings are passed over.
    pub fn next_version_number(&self) -> (r: u64)
        ensures
            r == self@.next_number(),
    {
        let mut max: u64 = 0;
        let mut i: usize = 0;
        while i < self.versions.len()
            invariant
                i <= self.versions.len(),
                max == max_version_number(self@.versions.take(i as int)),
                max <= u32::MAX,
            decreases self.versions.len() - i,
        {
            let parsed = parse_version_number(self.versions[i].version.as_str());
            proof {
                let t = self@.versions.take(i + 1);
                assert(t.drop_last() =~= self@.versions.take(i as int));
                assert(t.last() == self.versions@[i as int]@);
            }
            match parsed {
                Some(n) => {
                    if n as u64 > max {
                        max = n as u64;
                    }
                },
                None => {},
            }
            i = i + 1;
        }
        proof {
            assert(self@.versions.take(i as int) =~= self@.versions);
        }
        max + 1
    }
}

} // verus!

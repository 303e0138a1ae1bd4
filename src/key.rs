use vstd::prelude::*;

verus! {

/// The text of a path separator.
pub open spec fn sep() -> Seq<char> {
    seq!['/']
}

/// `a/b/c`: three segments joined by the separator.
pub open spec fn join3(a: Seq<char>, b: Seq<char>, c: Seq<char>) -> Seq<char> {
    a + sep() + b + sep() + c
}

/// Appends a separator and then `tail` to `s`.
fn push_segment(s: &mut String, tail: &str)
    ensures
        final(s)@ == old(s)@ + sep() + tail@,
{
    proof {
        reveal_strlit("/");
    }
    s.append("/");
    s.append(tail);
}

/// The address of one configuration: application, environment and name.
#[derive(Debug, Hash)]
pub struct ConfigKey {
    pub application: String,
    pub environment: String,
    pub config_name: String,
}

impl View for ConfigKey {
    type V = (Seq<char>, Seq<char>, Seq<char>);

    open spec fn view(&self) -> Self::V {
        (self.application@, self.environment@, self.config_name@)
    }
}

impl Clone for ConfigKey {
    fn clone(&self) -> (r: Self)
        ensures
            r@ == self@,
    {
        ConfigKey {
            application: self.application.clone(),
            environment: self.environment.clone(),
            config_name: self.config_name.clone(),
        }
    }
}

impl PartialEq for ConfigKey {
    fn eq(&self, other: &ConfigKey) -> (r: bool) {
        self.application == other.application && self.environment == other.environment
            && self.config_name == other.config_name
    }
}

impl vstd::std_specs::cmp::PartialEqSpecImpl for ConfigKey {
    open spec fn obeys_eq_spec() -> bool {
        true
    }

    open spec fn eq_spec(&self, other: &ConfigKey) -> bool {
        self@ == other@
    }
}

impl Eq for ConfigKey {

}

impl ConfigKey {
    pub fn new(application: String, environment: String, config_name: String) -> (r: Self)
        ensures
            r.application@ == application@,
            r.environment@ == environment@,
            r.config_name@ == config_name@,
    {
        ConfigKey { application, environment, config_name }
    }

    /// `application/environment/config_name`.
    pub open spec fn path(&self) -> Seq<char> {
        join3(self.application@, self.environment@, self.config_name@)
    }

    /// The hierarchical name of the key, `application/environment/config_name`.
    pub fn to_path(&self) -> (r: String)
        ensures
            r@ == self.path(),
    {
        let mut s = self.application.clone();
        push_segment(&mut s, self.environment.as_str());
        push_segment(&mut s, self.config_name.as_str());
        s
    }

    /// The path of `file` directly under the key: `<key path>/<file>`.
    pub open spec fn file_path(&self, file: Seq<char>) -> Seq<char> {
        self.path() + sep() + file
    }

    /// The path of `file` stored for `version`:
    /// `<key path>/versions/<version>/<file>`.
    pub open spec fn version_file_path(&self, version: Seq<char>, file: Seq<char>) -> Seq<char> {
        self.path() + sep() + "versions"@ + sep() + version + sep() + file
    }

    /// Where the key's control record is stored.
    pub open spec fn metadata_path(&self) -> Seq<char> {
        self.file_path("metadata.json"@)
    }

    /// Where the content of `version` is stored.
    pub open spec fn data_path(&self, version: Seq<char>) -> Seq<char> {
        self.version_file_path(version, "data.json"@)
    }

    /// Where the schema of `version` is stored.
    pub open spec fn schema_path(&self, version: Seq<char>) -> Seq<char> {
        self.version_file_path(version, "schema.json"@)
    }

    /// The path of `file` directly under the key.
    pub fn config_path(&self, file: &str) -> (r: String)
        ensures
            r@ == self.file_path(file@),
    {
        let mut s = self.to_path();
        push_segment(&mut s, file);
        s
    }

    /// The path of `file` stored for `version`.
    pub fn version_path(&self, version: &str, file: &str) -> (r: String)
        ensures
            r@ == self.version_file_path(version@, file@),
    {
        let mut s = self.to_path();
        push_segment(&mut s, "versions");
        push_segment(&mut s, version);
        push_segment(&mut s, file);
        s
    }

    /// Where the key's control record is stored.
    pub fn metadata_file(&self) -> (r: String)
        ensures
            r@ == self.metadata_path(),
    {
        self.config_path("metadata.json")
    }

    /// Where the content of `version` is stored.
    pub fn data_file(&self, version: &str) -> (r: String)
        ensures
            r@ == self.data_path(version@),
    {
        self.version_path(version, "data.json")
    }

    /// Where the schema of `version` is stored.
    pub fn schema_file(&self, version: &str) -> (r: String)
        ensures
            r@ == self.schema_path(version@),
    {
        self.version_path(version, "schema.json")
    }

    /// The key as text, which is its path.
    pub fn to_string(&self) -> (r: String)
        ensures
            r@ == self.path(),
    {
        self.to_path()
    }
}

} // verus!

use vstd::prelude::*;

verus! {

/// A configuration document: its content, the schema that governs it, and
/// the version it was read at (empty before the store assigns one).
#[derive(Debug)]
pub struct ConfigData {
    pub content: serde_json::Value,
    pub schema: serde_json::Value,
    pub version: String,
}

/// A configuration document as contracts see it.
pub struct DocView {
    pub content: serde_json::Value,
    pub schema: serde_json::Value,
    pub version: Seq<char>,
}

impl View for ConfigData {
    type V = DocView;

    open spec fn view(&self) -> DocView {
        DocView { content: self.content, schema: self.schema, version: self.version@ }
    }
}

impl Clone for ConfigData {
    fn clone(&self) -> (r: Self)
        ensures
            r.content == self.content,
            r.schema == self.schema,
            r.version@ == self.version@,
    {
        ConfigData {
            content: self.content.clone(),
            schema: self.schema.clone(),
            version: self.version.clone(),
        }
    }
}

/// One entry of a configuration's history as handed to callers: the version
/// string and its creation instant in microseconds since the Unix epoch.
#[derive(Debug)]
pub struct VersionInfo {
    pub version: String,
    pub timestamp: i64,
}

impl Clone for VersionInfo {
    fn clone(&self) -> (r: Self)
        ensures
            r.version@ == self.version@,
            r.timestamp == self.timestamp,
    {
        VersionInfo { version: self.version.clone(), timestamp: self.timestamp }
    }
}

} // verus!

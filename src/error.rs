use vstd::prelude::*;

verus! {

/// How a storage operation failed.
#[derive(Debug)]
pub enum StorageError {
    /// The key, or the version asked for, is absent.
    NotFound(String),
    /// A create was attempted on a key that already has a version.
    AlreadyExists(String),
    /// The underlying store could not be read or written.
    IoError(String),
    /// A stored record could not be encoded or decoded.
    SerializationError(String),
    /// The content or the schema does not have the required shape.
    ValidationError(String),
    /// The optimistic-concurrency precondition failed.
    VersionConflict { expected: String, actual: String },
    /// Any other failure of the store.
    Other(String),
}

/// A storage error as contracts see it.
pub enum ErrorView {
    NotFound(Seq<char>),
    AlreadyExists(Seq<char>),
    IoError(Seq<char>),
    SerializationError(Seq<char>),
    ValidationError(Seq<char>),
    VersionConflict { expected: Seq<char>, actual: Seq<char> },
    Other(Seq<char>),
}

impl View for StorageError {
    type V = ErrorView;

    open spec fn view(&self) -> ErrorView {
        match self {
            StorageError::NotFound(s) => ErrorView::NotFound(s@),
            StorageError::AlreadyExists(s) => ErrorView::AlreadyExists(s@),
            StorageError::IoError(s) => ErrorView::IoError(s@),
            StorageError::SerializationError(s) => ErrorView::SerializationError(s@),
            StorageError::ValidationError(s) => ErrorView::ValidationError(s@),
            StorageError::VersionConflict { expected, actual } => ErrorView::VersionConflict {
                expected: expected@,
                actual: actual@,
            },
            StorageError::Other(s) => ErrorView::Other(s@),
        }
    }
}

impl ErrorView {
    /// The human-readable text of the error.
    pub open spec fn message(self) -> Seq<char> {
        match self {
            ErrorView::NotFound(s) => "Configuration not found: "@ + s,
            ErrorView::AlreadyExists(s) => "Configuration already exists: "@ + s,
            ErrorView::IoError(s) => "IO error: "@ + s,
            ErrorView::SerializationError(s) => "Serialization error: "@ + s,
            ErrorView::ValidationError(s) => "Validation error: "@ + s,
            ErrorView::VersionConflict { expected, actual } => "Version conflict: expected "@
                + expected + ", but found "@ + actual,
            ErrorView::Other(s) => "Storage error: "@ + s,
        }
    }
}

/// `prefix` followed by `detail`.
fn prefixed(prefix: &str, detail: &String) -> (r: String)
    ensures
        r@ == prefix@ + detail@,
{
    let mut s = String::from_str(prefix);
    s.append(detail.as_str());
    s
}

impl Clone for StorageError {
    fn clone(&self) -> (r: Self)
        ensures
            r@ == self@,
    {
        match self {
            StorageError::NotFound(s) => StorageError::NotFound(s.clone()),
            StorageError::AlreadyExists(s) => StorageError::AlreadyExists(s.clone()),
            StorageError::IoError(s) => StorageError::IoError(s.clone()),
            StorageError::SerializationError(s) => StorageError::SerializationError(s.clone()),
            StorageError::ValidationError(s) => StorageError::ValidationError(s.clone()),
            StorageError::VersionConflict { expected, actual } => StorageError::VersionConflict {
                expected: expected.clone(),
                actual: actual.clone(),
            },
            StorageError::Other(s) => StorageError::Other(s.clone()),
        }
    }
}

impl StorageError {
    /// The human-readable text of the error.
    pub fn to_string(&self) -> (r: String)
        ensures
            r@ == self@.message(),
    {
        match self {
            StorageError::NotFound(s) => prefixed("Configuration not found: ", s),
            StorageError::AlreadyExists(s) => prefixed("Configuration already exists: ", s),
            StorageError::IoError(s) => prefixed("IO error: ", s),
            StorageError::SerializationError(s) => prefixed("Serialization error: ", s),
            StorageError::ValidationError(s) => prefixed("Validation error: ", s),
            StorageError::VersionConflict { expected, actual } => {
                let mut r = prefixed("Version conflict: expected ", expected);
                r.append(", but found ");
                r.append(actual.as_str());
                r
            },
            StorageError::Other(s) => prefixed("Storage error: ", s),
        }
    }
}

} // verus!

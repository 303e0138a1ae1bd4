//! Which schema governs a write: the one supplied, or that of an earlier
//! version.
use vstd::prelude::*;
use crate::api::{ApiError, ApiErrorView};
use crate::json::is_json_object;

verus! {

/// Where the schema of a write comes from.
#[derive(Debug)]
pub enum SchemaPlan {
    /// The request supplies it.
    Supplied(serde_json::Value),
    /// It is the schema of this version of the key.
    FromVersion(String),
    /// It is the schema of the key's current version.
    FromCurrent,
    /// The write cannot go on.
    Rejected(ApiError),
}

/// The message of a supplied schema that is not a JSON object.
pub open spec fn schema_not_object() -> Seq<char> {
    "Schema must be a valid JSON Schema object"@
}

/// The message of a first write without a schema.
pub open spec fn schema_required() -> Seq<char> {
    "Schema is required when creating the first version"@
}

/// Whether deciding the schema of a write needs to know if the key exists:
/// only when neither a schema nor an expected version is given.
pub fn needs_existence_probe(schema: Option<&serde_json::Value>, expected: Option<&str>) -> (r: bool)
    ensures
        r == (schema is None && expected is None),
{
    schema.is_none() && expected.is_none()
}

/// Decides where the schema of a write comes from: a supplied schema must be
/// a JSON object and is used as it is; without one, the expected version's
/// schema is reused; without that either, the current version's where the
/// key exists; and a first write without a schema is rejected.
pub fn plan_schema(
    schema: Option<&serde_json::Value>,
    expected: Option<&str>,
    key_exists: bool,
) -> (r: SchemaPlan)
    ensures
        match schema {
            Some(s) => if is_json_object(*s) {
                r == SchemaPlan::Supplied(*s)
            } else {
                r matches SchemaPlan::Rejected(e) && e@ == ApiErrorView::BadRequest(
                    schema_not_object(),
                )
            },
            None => match expected {
                Some(v) => r matches SchemaPlan::FromVersion(w) && w@ == v@,
                None => if key_exists {
                    r is FromCurrent
                } else {
                    r matches SchemaPlan::Rejected(e) && e@ == ApiErrorView::BadRequest(
                        schema_required(),
                    )
                },
            },
        },
{
    match schema {
        Some(s) => {
            if s.is_object() {
                SchemaPlan::Supplied(s.clone())
            } else {
                SchemaPlan::Rejected(
                    ApiError::BadRequest(String::from_str("Schema must be a valid JSON Schema object")),
                )
            }
        },
        None => match expected {
            Some(v) => SchemaPlan::FromVersion(String::from_str(v)),
            None => {
                if key_exists {
                    SchemaPlan::FromCurrent
                } else {
                    SchemaPlan::Rejected(
                        ApiError::BadRequest(
                            String::from_str("Schema is required when creating the first version"),
                        ),
                    )
                }
            },
        },
    }
}

} // verus!

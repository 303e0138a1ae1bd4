//! The request and response shapes of the service, and how storage failures
//! surface to callers.
use vstd::prelude::*;
use crate::document::{ConfigData, VersionInfo};
use crate::error::{ErrorView, StorageError};
use crate::key::{sep, ConfigKey};
use crate::version::{decimal, decimal_text};

verus! {

/// A failure as the service reports it to its caller.
#[derive(Debug)]
pub enum ApiError {
    NotFound(String),
    BadRequest(String),
    InternalError(String),
}

/// A service failure as contracts see it.
pub enum ApiErrorView {
    NotFound(Seq<char>),
    BadRequest(Seq<char>),
    InternalError(Seq<char>),
}

impl View for ApiError {
    type V = ApiErrorView;

    open spec fn view(&self) -> ApiErrorView {
        match self {
            ApiError::NotFound(s) => ApiErrorView::NotFound(s@),
            ApiError::BadRequest(s) => ApiErrorView::BadRequest(s@),
            ApiError::InternalError(s) => ApiErrorView::InternalError(s@),
        }
    }
}

/// How a storage failure surfaces: a missing key or version as not found;
/// a stale or malformed request as the caller's error; anything else as a
/// fault of the service. The text is the storage error's message.
pub open spec fn api_error_of(e: ErrorView) -> ApiErrorView {
    match e {
        ErrorView::NotFound(_) => ApiErrorView::NotFound(e.message()),
        ErrorView::AlreadyExists(_) => ApiErrorView::BadRequest(e.message()),
        ErrorView::VersionConflict { .. } => ApiErrorView::BadRequest(e.message()),
        ErrorView::ValidationError(_) => ApiErrorView::BadRequest(e.message()),
        _ => ApiErrorView::InternalError(e.message()),
    }
}

/// The HTTP status and title of a service failure.
pub open spec fn status_of(e: ApiErrorView) -> (u16, Seq<char>) {
    match e {
        ApiErrorView::NotFound(_) => (404, "Not Found"@),
        ApiErrorView::BadRequest(_) => (400, "Bad Request"@),
        ApiErrorView::InternalError(_) => (500, "Internal Server Error"@),
    }
}

/// The body of an error reply.
#[derive(Debug)]
pub struct ErrorResponse {
    pub error: String,
    pub details: Option<String>,
}

/// The body of a reply to an operation that returns no document.
#[derive(Debug)]
pub struct SuccessResponse {
    pub message: String,
    pub version: Option<String>,
}

/// A request to write a configuration: its content, the schema (where none
/// is given the schema of an earlier version is reused), and the version the
/// caller expects to be current (none for a first creation).
#[derive(Debug)]
pub struct PutConfigRequest {
    pub content: serde_json::Value,
    pub schema: Option<serde_json::Value>,
    pub expected_version: Option<String>,
}

/// The reply to a read of a configuration.
#[derive(Debug)]
pub struct GetConfigResponse {
    pub application: String,
    pub environment: String,
    pub config_name: String,
    pub version: String,
    pub content: serde_json::Value,
    pub schema: serde_json::Value,
}

/// The reply to a listing of versions.
#[derive(Debug)]
pub struct ListVersionsResponse {
    pub versions: Vec<VersionInfo>,
}

impl ApiError {
    /// How a storage failure surfaces to the caller.
    pub fn from_storage_error(e: &StorageError) -> (r: ApiError)
        ensures
            r@ == api_error_of(e@),
    {
        let text = e.to_string();
        match e {
            StorageError::NotFound(_) => ApiError::NotFound(text),
            StorageError::AlreadyExists(_) => ApiError::BadRequest(text),
            StorageError::VersionConflict { .. } => ApiError::BadRequest(text),
            StorageError::ValidationError(_) => ApiError::BadRequest(text),
            _ => ApiError::InternalError(text),
        }
    }

    /// The HTTP status code of the failure.
    pub fn status_code(&self) -> (r: u16)
        ensures
            r == status_of(self@).0,
    {
        match self {
            ApiError::NotFound(_) => 404,
            ApiError::BadRequest(_) => 400,
            ApiError::InternalError(_) => 500,
        }
    }

    /// The body of the error reply: the status title and the details.
    pub fn to_response(&self) -> (r: ErrorResponse)
        ensures
            r.error@ == status_of(self@).1,
            r.details matches Some(d) && match self@ {
                ApiErrorView::NotFound(m) => d@ == m,
                ApiErrorView::BadRequest(m) => d@ == m,
                ApiErrorView::InternalError(m) => d@ == m,
            },
    {
        match self {
            ApiError::NotFound(m) => ErrorResponse {
                error: String::from_str("Not Found"),
                details: Some(m.clone()),
            },
            ApiError::BadRequest(m) => ErrorResponse {
                error: String::from_str("Bad Request"),
                details: Some(m.clone()),
            },
            ApiError::InternalError(m) => ErrorResponse {
                error: String::from_str("Internal Server Error"),
                details: Some(m.clone()),
            },
        }
    }
}

impl SuccessResponse {
    /// The reply to a write of `key` that created `version`.
    pub fn updated(key: &ConfigKey, version: String) -> (r: Self)
        ensures
            r.message@ == "Configuration "@ + key.path() + " updated successfully"@,
            r.version matches Some(v) && v@ == version@,
    {
        let mut message = String::from_str("Configuration ");
        message.append(key.to_path().as_str());
        message.append(" updated successfully");
        SuccessResponse { message, version: Some(version) }
    }

    /// The reply to the deletion of `count` configurations under `app/env`.
    pub fn environment_deleted(count: u64, app: &str, env: &str) -> (r: Self)
        ensures
            r.message@ == "Deleted "@ + decimal(count as nat) + " configurations for "@ + app@
                + sep() + env@,
            r.version is None,
    {
        let mut message = String::from_str("Deleted ");
        message.append(decimal_text(count).as_str());
        message.append(" configurations for ");
        message.append(app);
        proof {
            reveal_strlit("/");
        }
        message.append("/");
        message.append(env);
        SuccessResponse { message, version: None }
    }
}

impl GetConfigResponse {
    /// The reply to a read of `key` that found `data`.
    pub fn from_data_and_key(data: ConfigData, key: &ConfigKey) -> (r: Self)
        ensures
            r.application@ == key.application@,
            r.environment@ == key.environment@,
            r.config_name@ == key.config_name@,
            r.version@ == data.version@,
            r.content == data.content,
            r.schema == data.schema,
    {
        GetConfigResponse {
            application: key.application.clone(),
            environment: key.environment.clone(),
            config_name: key.config_name.clone(),
            version: data.version,
            content: data.content,
            schema: data.schema,
        }
    }
}

} // verus!

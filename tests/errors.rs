use app_config_store::api::{ApiError, GetConfigResponse, SuccessResponse};
use app_config_store::{ConfigData, ConfigKey, StorageError};

#[test]
fn test_error_display() {
    let err = StorageError::NotFound("test-key".to_string());
    assert_eq!(err.to_string(), "Configuration not found: test-key");
    let err = StorageError::AlreadyExists("config".to_string());
    assert_eq!(err.to_string(), "Configuration already exists: config");
    let err = StorageError::ValidationError("Invalid schema".to_string());
    assert_eq!(err.to_string(), "Validation error: Invalid schema");
    let err = StorageError::VersionConflict {
        expected: "v1".to_string(),
        actual: "v2".to_string(),
    };
    assert_eq!(err.to_string(), "Version conflict: expected v1, but found v2");
    let err = StorageError::Other("Custom error".to_string());
    assert_eq!(err.to_string(), "Storage error: Custom error");
}

#[test]
fn io_and_serialization_error_display() {
    let err = StorageError::IoError("file not found".to_string());
    assert!(err.to_string().contains("IO error"));
    let err = StorageError::SerializationError("key must be a string".to_string());
    assert!(err.to_string().contains("Serialization error"));
}

#[test]
fn storage_errors_surface_by_kind() {
    let e = ApiError::from_storage_error(&StorageError::NotFound("a/b/c".to_string()));
    assert!(matches!(&e, ApiError::NotFound(m) if m == "Configuration not found: a/b/c"));
    assert_eq!(e.status_code(), 404);
    let e = ApiError::from_storage_error(&StorageError::AlreadyExists("a/b/c".to_string()));
    assert!(matches!(e, ApiError::BadRequest(_)));
    let e = ApiError::from_storage_error(&StorageError::VersionConflict {
        expected: "v1".to_string(),
        actual: "v2".to_string(),
    });
    assert!(matches!(&e, ApiError::BadRequest(m) if m == "Version conflict: expected v1, but found v2"));
    assert_eq!(e.status_code(), 400);
    let e = ApiError::from_storage_error(&StorageError::ValidationError("bad".to_string()));
    assert!(matches!(e, ApiError::BadRequest(_)));
    let e = ApiError::from_storage_error(&StorageError::IoError("disk".to_string()));
    assert!(matches!(e, ApiError::InternalError(_)));
    assert_eq!(e.status_code(), 500);
    let e = ApiError::from_storage_error(&StorageError::Other("x".to_string()));
    assert!(matches!(e, ApiError::InternalError(_)));
}

#[test]
fn api_error_response_body() {
    let r = ApiError::NotFound("Configuration not found".to_string()).to_response();
    assert_eq!(r.error, "Not Found");
    assert_eq!(r.details, Some("Configuration not found".to_string()));
    let r = ApiError::BadRequest("stale".to_string()).to_response();
    assert_eq!(r.error, "Bad Request");
    let r = ApiError::InternalError("boom".to_string()).to_response();
    assert_eq!(r.error, "Internal Server Error");
    assert_eq!(r.details, Some("boom".to_string()));
}

#[test]
fn test_get_config_response_from_data_and_key() {
    let key = ConfigKey::new("app".to_string(), "dev".to_string(), "config".to_string());
    let data = ConfigData {
        content: serde_json::from_str(r#"{"setting": "value"}"#).unwrap(),
        schema: serde_json::from_str(r#"{"type": "object"}"#).unwrap(),
        version: "v1".to_string(),
    };
    let response = GetConfigResponse::from_data_and_key(data.clone(), &key);
    assert_eq!(response.application, "app");
    assert_eq!(response.environment, "dev");
    assert_eq!(response.config_name, "config");
    assert_eq!(response.version, "v1");
    assert_eq!(response.content, data.content);
    assert_eq!(response.schema, data.schema);
}

#[test]
fn success_replies() {
    let key = ConfigKey::new("myapp".to_string(), "dev".to_string(), "api".to_string());
    let r = SuccessResponse::updated(&key, "v1".to_string());
    assert_eq!(r.message, "Configuration myapp/dev/api updated successfully");
    assert_eq!(r.version, Some("v1".to_string()));
    let r = SuccessResponse::environment_deleted(3, "myapp", "dev");
    assert_eq!(r.message, "Deleted 3 configurations for myapp/dev");
    assert_eq!(r.version, None);
    let r = SuccessResponse::environment_deleted(120, "a", "b");
    assert_eq!(r.message, "Deleted 120 configurations for a/b");
}

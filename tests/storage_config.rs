use app_config_store::StorageConfig;

#[test]
fn test_s3_config_construction() {
    let config = StorageConfig::s3(
        "test-bucket".to_string(),
        Some("us-east-1".to_string()),
        Some("http://localhost:9000".to_string()),
        Some("test-key".to_string()),
        Some("test-secret".to_string()),
        true,
    );

    match config {
        StorageConfig::S3 {
            bucket,
            region,
            endpoint,
            access_key_id,
            secret_access_key,
            allow_http,
        } => {
            assert_eq!(bucket, "test-bucket");
            assert_eq!(region, Some("us-east-1".to_string()));
            assert_eq!(endpoint, Some("http://localhost:9000".to_string()));
            assert_eq!(access_key_id, Some("test-key".to_string()));
            assert_eq!(secret_access_key, Some("test-secret".to_string()));
            assert_eq!(allow_http, true);
        }
        _ => panic!("Expected S3 config"),
    }
}

#[test]
fn test_local_config_construction() {
    let config = StorageConfig::local("./data".to_string());

    match config {
        StorageConfig::Local { path } => {
            assert_eq!(path.as_str(), "./data");
        }
        _ => panic!("Expected Local config"),
    }
}

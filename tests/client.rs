use app_config_store::client::{
    config_url, environment_url, health_url, normalize_base_url, version_url, versioned_cache_key,
    versions_url,
};
use app_config_store::ConfigKey;

#[test]
fn test_client_creation() {
    assert_eq!(normalize_base_url("http://localhost:3000"), "http://localhost:3000");
    assert_eq!(normalize_base_url("http://localhost:3000/"), "http://localhost:3000");
}

#[test]
fn test_client_url_formatting() {
    assert_eq!(normalize_base_url("http://localhost:3000"), "http://localhost:3000");
    assert_eq!(normalize_base_url("http://localhost:3000///"), "http://localhost:3000");
}

#[test]
fn resource_addresses() {
    let base = "http://localhost:3000";
    let key = ConfigKey::new("myapp".to_string(), "dev".to_string(), "database".to_string());
    assert_eq!(config_url(base, &key), "http://localhost:3000/configs/myapp/dev/database");
    assert_eq!(versions_url(base, &key), "http://localhost:3000/configs/myapp/dev/database/versions");
    assert_eq!(version_url(base, &key, "v2"), "http://localhost:3000/configs/myapp/dev/database/versions/v2");
    assert_eq!(environment_url(base, "myapp", "dev"), "http://localhost:3000/configs/myapp/dev");
    assert_eq!(health_url(base), "http://localhost:3000/health");
    assert_eq!(normalize_base_url("///"), "");
}

#[test]
fn version_cache_key_kept_apart() {
    let key = ConfigKey::new("app".to_string(), "dev".to_string(), "config".to_string());
    let versioned = versioned_cache_key(&key, "v3");
    assert_eq!(versioned.application, "app@v3");
    assert_eq!(versioned.environment, "dev");
    assert_eq!(versioned.config_name, "config");
    assert!(versioned != key);
}

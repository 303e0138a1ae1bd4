use app_config_store::{ConfigData, ConfigKey, VersionInfo};

fn json(text: &str) -> serde_json::Value {
    serde_json::from_str(text).unwrap()
}

#[test]
fn test_config_key_new() {
    let key = ConfigKey::new("app".to_string(), "dev".to_string(), "config".to_string());
    assert_eq!(key.application, "app");
    assert_eq!(key.environment, "dev");
    assert_eq!(key.config_name, "config");
}

#[test]
fn test_config_key_to_path() {
    let key = ConfigKey::new("myapp".to_string(), "production".to_string(), "database".to_string());
    assert_eq!(key.to_path(), "myapp/production/database");
}

#[test]
fn test_config_key_display() {
    let key = ConfigKey::new("app".to_string(), "staging".to_string(), "api".to_string());
    assert_eq!(key.to_string(), "app/staging/api");
}

#[test]
fn config_key_equality_is_structural() {
    let a = ConfigKey::new("app".to_string(), "dev".to_string(), "db".to_string());
    let b = ConfigKey::new("app".to_string(), "dev".to_string(), "db".to_string());
    let c = ConfigKey::new("app".to_string(), "prod".to_string(), "db".to_string());
    assert!(a == b);
    assert!(a != c);
    assert!(a.clone() == a);
}

#[test]
fn config_key_store_paths() {
    let key = ConfigKey::new("app".to_string(), "dev".to_string(), "db".to_string());
    assert_eq!(key.metadata_file(), "app/dev/db/metadata.json");
    assert_eq!(key.data_file("v3"), "app/dev/db/versions/v3/data.json");
    assert_eq!(key.schema_file("v3"), "app/dev/db/versions/v3/schema.json");
    assert_eq!(key.config_path("other.json"), "app/dev/db/other.json");
    assert_eq!(key.version_path("v1", "x"), "app/dev/db/versions/v1/x");
}

#[test]
fn config_data_clone_keeps_fields() {
    let data = ConfigData {
        content: json(r#"{"host": "localhost", "port": 5432}"#),
        schema: json(r#"{"type": "object"}"#),
        version: "v1".to_string(),
    };
    let copy = data.clone();
    assert_eq!(copy.content, data.content);
    assert_eq!(copy.schema, data.schema);
    assert_eq!(copy.version, "v1");
    let info = VersionInfo { version: "v2".to_string(), timestamp: 7 };
    let info_copy = info.clone();
    assert_eq!(info_copy.version, "v2");
    assert_eq!(info_copy.timestamp, 7);
}

use app_config_store::version::{format_version, parse_version_number};
use app_config_store::{Metadata, VersionMetadata};

#[test]
fn test_metadata_new() {
    let metadata = Metadata::new();
    assert_eq!(metadata.current_version, "");
    assert!(metadata.versions.is_empty());
}

#[test]
fn test_add_version() {
    let mut metadata = Metadata::new();
    metadata.add_version("v1".to_string());
    assert_eq!(metadata.current_version, "v1");
    assert_eq!(metadata.versions.len(), 1);
    assert_eq!(metadata.versions[0].version, "v1");
}

#[test]
fn test_add_multiple_versions() {
    let mut metadata = Metadata::new();
    metadata.add_version("v1".to_string());
    metadata.add_version("v2".to_string());
    metadata.add_version("v3".to_string());
    assert_eq!(metadata.current_version, "v3");
    assert_eq!(metadata.versions.len(), 3);
    assert_eq!(metadata.versions[0].version, "v1");
    assert_eq!(metadata.versions[1].version, "v2");
    assert_eq!(metadata.versions[2].version, "v3");
}

#[test]
fn test_next_version_number_empty() {
    let metadata = Metadata::new();
    assert_eq!(metadata.next_version_number(), 1);
}

#[test]
fn test_next_version_number_with_versions() {
    let mut metadata = Metadata::new();
    metadata.add_version("v1".to_string());
    assert_eq!(metadata.next_version_number(), 2);
    metadata.add_version("v2".to_string());
    assert_eq!(metadata.next_version_number(), 3);
    metadata.add_version("v5".to_string());
    assert_eq!(metadata.next_version_number(), 6);
}

fn now() -> i64 {
    chrono::Utc::now().timestamp_micros()
}

#[test]
fn test_next_version_number_with_non_sequential() {
    let mut metadata = Metadata::new();
    metadata.versions.push(VersionMetadata { version: "v1".to_string(), timestamp: now() });
    metadata.versions.push(VersionMetadata { version: "v10".to_string(), timestamp: now() });
    metadata.versions.push(VersionMetadata { version: "v5".to_string(), timestamp: now() });
    assert_eq!(metadata.next_version_number(), 11);
}

#[test]
fn test_next_version_number_with_invalid_versions() {
    let mut metadata = Metadata::new();
    metadata.versions.push(VersionMetadata { version: "invalid".to_string(), timestamp: now() });
    metadata.versions.push(VersionMetadata { version: "v2".to_string(), timestamp: now() });
    metadata.versions.push(VersionMetadata { version: "vNaN".to_string(), timestamp: now() });
    assert_eq!(metadata.next_version_number(), 3);
}

#[test]
fn test_version_metadata_timestamp() {
    let before = now();
    let mut metadata = Metadata::new();
    metadata.add_version("v1".to_string());
    let after = now();
    assert!(metadata.versions[0].timestamp >= before);
    assert!(metadata.versions[0].timestamp <= after);
}

#[test]
fn timestamps_never_decrease() {
    let mut metadata = Metadata::new();
    metadata.add_version_at("v1".to_string(), 500);
    metadata.add_version_at("v2".to_string(), 200);
    metadata.add_version_at("v3".to_string(), 900);
    assert_eq!(metadata.versions[0].timestamp, 500);
    assert_eq!(metadata.versions[1].timestamp, 500);
    assert_eq!(metadata.versions[2].timestamp, 900);
    assert_eq!(metadata.current_version, "v3");
}

#[test]
fn next_version_number_past_largest_u32() {
    let mut metadata = Metadata::new();
    metadata.add_version_at("v4294967295".to_string(), 1);
    assert_eq!(metadata.next_version_number(), 4294967296);
    metadata.add_version_at("v4294967296".to_string(), 2);
    assert_eq!(metadata.next_version_number(), 4294967296);
}

#[test]
fn version_strings_round_trip() {
    assert_eq!(format_version(1), "v1");
    assert_eq!(format_version(10), "v10");
    assert_eq!(format_version(0), "v0");
    assert_eq!(format_version(4294967295), "v4294967295");
    assert_eq!(parse_version_number("v1"), Some(1));
    assert_eq!(parse_version_number("v007"), Some(7));
    assert_eq!(parse_version_number("v+5"), Some(5));
    assert_eq!(parse_version_number("v4294967295"), Some(4294967295));
    assert_eq!(parse_version_number("v4294967296"), None);
    assert_eq!(parse_version_number("v"), None);
    assert_eq!(parse_version_number("v+"), None);
    assert_eq!(parse_version_number("v-1"), None);
    assert_eq!(parse_version_number("x1"), None);
    assert_eq!(parse_version_number("v1a"), None);
    assert_eq!(parse_version_number(""), None);
}

#[test]
fn metadata_clone_keeps_history() {
    let mut metadata = Metadata::new();
    metadata.add_version_at("v1".to_string(), 3);
    metadata.add_version_at("v2".to_string(), 4);
    let copy = metadata.clone();
    assert_eq!(copy.current_version, "v2");
    assert_eq!(copy.versions.len(), 2);
    assert_eq!(copy.versions[1].version, "v2");
    assert_eq!(copy.versions[1].timestamp, 4);
}

use app_config_store::engine::{
    check_put, config_names_under, current_version, deletion_paths, find_version,
    key_from_segments, plan_put, version_infos,
};
use app_config_store::resolution::{needs_existence_probe, plan_schema, SchemaPlan};
use app_config_store::validation::{join_texts, validation_verdict};
use app_config_store::api::ApiError;
use app_config_store::{ConfigData, ConfigKey, Metadata, StorageError};

fn key(app: &str, env: &str, name: &str) -> ConfigKey {
    ConfigKey::new(app.to_string(), env.to_string(), name.to_string())
}

fn segments(path: &str) -> Vec<String> {
    path.split('/').map(|s| s.to_string()).collect()
}

fn history(versions: &[&str]) -> Metadata {
    let mut m = Metadata::new();
    for (i, v) in versions.iter().enumerate() {
        m.add_version_at(v.to_string(), i as i64);
    }
    m
}

#[test]
fn precondition_table() {
    let k = key("a", "b", "c");
    let m = history(&["v1", "v2"]);
    assert!(check_put(&k, None, None).is_ok());
    assert!(check_put(&k, Some(&m), Some("v2")).is_ok());
    assert!(matches!(check_put(&k, None, Some("v1")), Err(StorageError::VersionConflict { expected, actual }) if expected == "v1" && actual == "none"));
    assert!(matches!(check_put(&k, Some(&m), None), Err(StorageError::AlreadyExists(p)) if p == "a/b/c"));
    assert!(matches!(check_put(&k, Some(&m), Some("v1")), Err(StorageError::VersionConflict { expected, actual }) if expected == "v1" && actual == "v2"));
}

#[test]
fn plan_put_numbers_next_version() {
    let k = key("a", "b", "c");
    let d = ConfigData {
        content: serde_json::from_str("{}").unwrap(),
        schema: serde_json::from_str("{}").unwrap(),
        version: String::new(),
    };
    let plan = plan_put(&k, Some(history(&["v1", "v7", "bogus"])), &d, Some("bogus"), 99).unwrap();
    assert_eq!(plan.version, "v8");
    assert_eq!(plan.metadata.current_version, "v8");
    assert_eq!(plan.metadata.versions.len(), 4);
    assert_eq!(plan.metadata.versions[3].timestamp, 99);
    let plan = plan_put(&k, None, &d, None, 5).unwrap();
    assert_eq!(plan.version, "v1");
    let exhausted = plan_put(&k, Some(history(&["v4294967295"])), &d, Some("v4294967295"), 1);
    assert!(matches!(exhausted, Err(StorageError::Other(_))));
}

#[test]
fn current_and_lookup() {
    let k = key("a", "b", "c");
    let m = history(&["v1", "v2"]);
    assert_eq!(current_version(&k, Some(&m)).unwrap(), "v2");
    assert!(matches!(current_version(&k, None), Err(StorageError::NotFound(_))));
    assert!(matches!(current_version(&k, Some(&Metadata::new())), Err(StorageError::NotFound(_))));
    assert_eq!(find_version(&k, Some(&m), "v2").unwrap(), 1);
    assert!(matches!(find_version(&k, Some(&m), "v3"), Err(StorageError::NotFound(d)) if d == "Version v3 not found for a/b/c"));
    assert!(matches!(find_version(&k, None, "v1"), Err(StorageError::NotFound(d)) if d == "a/b/c"));
    let infos = version_infos(&m);
    assert_eq!(infos.len(), 2);
    assert_eq!(infos[1].version, "v2");
    assert_eq!(infos[1].timestamp, 1);
}

#[test]
fn listing_paths() {
    let k = key_from_segments(&segments("app/dev/db/metadata.json")).unwrap();
    assert_eq!(k.to_path(), "app/dev/db");
    assert!(key_from_segments(&segments("app/dev/db/versions/v1/data.json")).is_none());
    assert!(key_from_segments(&segments("app/dev/metadata.json")).is_none());
    let listing = vec![
        segments("app/dev/db/metadata.json"),
        segments("app/dev/db/versions/v1/data.json"),
        segments("app/dev/cache/metadata.json"),
        segments("app/prod/db/metadata.json"),
        segments("app/dev"),
    ];
    let names = config_names_under(&listing, "app", "dev");
    assert_eq!(names, vec!["db".to_string(), "cache".to_string()]);
}

#[test]
fn paths_to_delete() {
    let k = key("a", "b", "c");
    let paths = deletion_paths(&k, &history(&["v1", "v2"]));
    assert_eq!(
        paths,
        vec![
            "a/b/c/versions/v1/data.json".to_string(),
            "a/b/c/versions/v1/schema.json".to_string(),
            "a/b/c/versions/v2/data.json".to_string(),
            "a/b/c/versions/v2/schema.json".to_string(),
            "a/b/c/metadata.json".to_string(),
        ]
    );
}

#[test]
fn schema_plans() {
    let obj: serde_json::Value = serde_json::from_str(r#"{"type": "object"}"#).unwrap();
    let arr: serde_json::Value = serde_json::from_str("[]").unwrap();
    assert!(matches!(plan_schema(Some(&obj), Some("v1"), true), SchemaPlan::Supplied(s) if s == obj));
    assert!(matches!(plan_schema(Some(&arr), None, false), SchemaPlan::Rejected(ApiError::BadRequest(_))));
    assert!(matches!(plan_schema(None, Some("v4"), false), SchemaPlan::FromVersion(v) if v == "v4"));
    assert!(matches!(plan_schema(None, None, true), SchemaPlan::FromCurrent));
    assert!(matches!(plan_schema(None, None, false), SchemaPlan::Rejected(ApiError::BadRequest(_))));
}

#[test]
fn verdicts() {
    assert!(validation_verdict(true, Ok(vec![])).is_ok());
    let r = validation_verdict(true, Ok(vec!["/a: bad".to_string(), "/b: worse".to_string()]));
    assert!(matches!(&r, Err(ApiError::BadRequest(m)) if m == "Validation failed: /a: bad, /b: worse"));
    let r = validation_verdict(true, Err("no".to_string()));
    assert!(matches!(&r, Err(ApiError::BadRequest(m)) if m == "Invalid schema: no"));
    let r = validation_verdict(false, Ok(vec![]));
    assert!(matches!(&r, Err(ApiError::BadRequest(m)) if m == "Content must be a JSON object"));
    assert_eq!(join_texts(&vec!["x".to_string()], ", "), "x");
    assert_eq!(join_texts(&vec![], ", "), "");
}

#[test]
fn existence_probe_only_without_schema_or_version() {
    let obj: serde_json::Value = serde_json::from_str("{}").unwrap();
    assert!(needs_existence_probe(None, None));
    assert!(!needs_existence_probe(Some(&obj), None));
    assert!(!needs_existence_probe(None, Some("v1")));
}

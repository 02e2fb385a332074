use gemini_marketplace::domain::ValidationStatus;
use gemini_marketplace::error::MarketplaceError;
use gemini_marketplace::manifest::{invalid_json, ExtensionManifest, ManifestFields, ManifestValidation};
use gemini_marketplace::validation::{build_validation_summary, semantic_issues};

/// Decodes a manifest document the way the command-line front end does, and
/// builds the manifest from it.
fn from_str(content: &str, source: &str) -> Result<(ExtensionManifest, ManifestValidation), MarketplaceError> {
    let value: serde_json::Value = match serde_json::from_str(content) {
        Ok(v) => v,
        Err(e) => return Err(invalid_json(source, &e.to_string())),
    };
    let text = |key: &str| value.get(key).and_then(|v| v.as_str()).map(|s| s.to_string());
    let list = |key: &str| -> Vec<String> {
        value
            .get(key)
            .and_then(|v| v.as_array())
            .map(|items| items.iter().filter_map(|i| i.as_str().map(|s| s.to_string())).collect())
            .unwrap_or_default()
    };
    let fields = ManifestFields {
        name: text("name").unwrap_or_default(),
        display_name: text("displayName"),
        description: text("description").unwrap_or_default(),
        repository: text("repository").unwrap_or_default(),
        homepage: text("homepage"),
        documentation: text("documentation"),
        version: text("version").unwrap_or_default(),
        author: text("author"),
        license: text("license"),
        categories: list("categories"),
        tags: list("tags"),
        compatibility: list("compatibility"),
        readme: text("readme"),
    };
    ExtensionManifest::from_fields(fields, source)
}

#[test]
fn normalizes_collections_and_records_warnings() {
    let json = r#"{
        "name": "demo",
        "description": "Demo extension",
        "repository": "https://github.com/example/demo",
        "version": "1.2.3",
        "author": "Example",
        "categories": ["CLI Tools"],
        "tags": ["Utility ", " CLI"],
        "compatibility": ["cli>=1.0"]
    }"#;

    let (manifest, validation) = from_str(json, "example/demo").expect("manifest parsed");

    assert_eq!(manifest.categories, vec!["cli-tools"]);
    assert_eq!(manifest.tags, vec!["utility", "cli"]);
    assert!(validation
        .warnings
        .iter()
        .any(|w| w.field == "categories" && w.message.contains("kebab-case")));
}

#[test]
fn missing_required_fields_emit_warnings() {
    let json = r#"{
        "name": "",
        "description": "",
        "repository": "https://github.com/example/demo",
        "version": "1.2.3"
    }"#;

    let (_manifest, validation) = from_str(json, "example/demo").expect("manifest parsed");

    let fields: Vec<_> = validation.warnings.iter().map(|w| w.field.as_str()).collect();
    assert!(fields.contains(&"name"));
    assert!(fields.contains(&"description"));
    assert!(fields.contains(&"author"));
    assert!(fields.contains(&"categories"));
}

#[test]
fn invalid_json_returns_error() {
    let json = "{ invalid";
    let err = from_str(json, "example/demo").expect_err("should fail");
    let message = err.message();
    assert!(message.contains("invalid JSON"));
}

#[test]
fn semantic_validation_flags_invalid_description() {
    let json = r#"{
        "name": "demo",
        "description": "A very long description that exceeds the allowed limit.................................................................................................................................................................................................................................................................................................................................................................................................................................................................................................................................",
        "repository": "https://github.com/example/demo",
        "version": "1.0.0",
        "categories": ["cli"]
    }"#;
    let (manifest, schema_validation) = from_str(json, "example/demo").expect("manifest loads");
    let summary = build_validation_summary(&manifest, &schema_validation);
    assert_eq!(summary.semantic_status, ValidationStatus::Failed);
    assert!(!summary.errors.is_empty());
}

#[test]
fn invalid_repository_url_is_an_invalid_manifest() {
    let json = r#"{"name": "demo", "description": "d", "repository": "not a url", "version": "1.0.0"}"#;
    match from_str(json, "example/demo") {
        Err(MarketplaceError::InvalidManifest { repository, reason }) => {
            assert_eq!(repository, "example/demo");
            assert!(reason.starts_with("invalid JSON: invalid URL not a url"));
        }
        other => panic!("unexpected {other:?}"),
    }
}

#[test]
fn invalid_version_is_an_invalid_manifest() {
    let json = r#"{"name": "demo", "description": "d", "repository": "https://x.org/a", "version": "one"}"#;
    let err = from_str(json, "example/demo").expect_err("bad version");
    assert!(err.message().contains("invalid SemVer one"));
}

#[test]
fn clean_manifest_has_no_warnings_or_findings() {
    let json = r#"{
        "name": "demo",
        "description": "Demo extension",
        "repository": "https://github.com/example/demo",
        "version": "1.2.3",
        "author": "Example",
        "categories": ["cli"],
        "tags": ["tool"]
    }"#;
    let (manifest, validation) = from_str(json, "example/demo").expect("parsed");
    assert!(validation.is_clean());
    assert!(semantic_issues(&manifest).is_empty());
    let summary = build_validation_summary(&manifest, &validation);
    assert_eq!(summary.schema_status, ValidationStatus::Passed);
    assert_eq!(summary.semantic_status, ValidationStatus::Passed);
}

#[test]
fn validation_push_records_field_and_message() {
    let mut validation = ManifestValidation::default();
    assert!(validation.is_clean());
    validation.push("name", "missing");
    assert!(!validation.is_clean());
    assert_eq!(validation.warnings[0].field, "name");
    assert_eq!(validation.warnings[0].message, "missing");
}

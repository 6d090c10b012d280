use cozydot::json::Json;
use cozydot::operations::npm::{installed_packages, selected_version, NpmPackageMode, NpmPackageOperation};

fn convert(value: &serde_json::Value) -> Json {
    match value {
        serde_json::Value::Null => Json::Null,
        serde_json::Value::Bool(b) => Json::Bool(*b),
        serde_json::Value::Number(n) => Json::Number(n.as_u64()),
        serde_json::Value::String(s) => Json::Str(s.clone()),
        serde_json::Value::Array(items) => Json::Array(items.iter().map(convert).collect()),
        serde_json::Value::Object(members) => {
            Json::Object(members.iter().map(|(k, v)| (k.clone(), convert(v))).collect())
        }
    }
}

fn state(text: &str) -> Result<Vec<String>, String> {
    installed_packages(&convert(&serde_json::from_str(text).unwrap()))
}

#[test]
fn npm_state_accepts_clean_scoped_and_unscoped_dependencies() {
    let installed = state(
        r#"{"dependencies":{"opencode-ai":{"version":"1.0.0"},"@scope/tool":{"version":"2.0.0"}},"problems":[]}"#,
    )
    .unwrap();
    assert_eq!(installed.into_iter().collect::<Vec<_>>(), ["@scope/tool", "opencode-ai"]);
}

#[test]
fn npm_state_accepts_real_empty_global_root() {
    assert!(state(r#"{"name":"lib"}"#).unwrap().is_empty());
}

#[test]
fn npm_state_rejects_reported_and_malformed_dependency_state() {
    for output in [
        r#"[]"#,
        r#"{"dependencies":null}"#,
        r#"{"dependencies":[]}"#,
        r#"{"dependencies":{"BAD":{}}}"#,
        r#"{"dependencies":{"tool":{}}}"#,
        r#"{"dependencies":{"tool":null}}"#,
        r#"{"dependencies":{"tool":{"version":"1.0.0","problems":["broken"]}}}"#,
        r#"{"dependencies":{"tool":{"version":"1.0.0","invalid":true}}}"#,
        r#"{"dependencies":{"tool":{"version":"1.0.0","missing":true}}}"#,
        r#"{"dependencies":{"tool":{"version":"1.0.0","error":{"code":"EFAIL"}}}}"#,
        r#"{"dependencies":{"tool":{"version":"1.0.0","error":null}}}"#,
        r#"{"dependencies":{"tool":{"version":"1.0.0","error":false}}}"#,
        r#"{"dependencies":{"tool":{"version":"1.0.0","error":""}}}"#,
        r#"{"dependencies":{},"problems":["broken"]}"#,
        r#"{"dependencies":{},"error":{"code":"EFAIL"}}"#,
    ] {
        assert!(state(output).is_err(), "{output}");
    }
}

#[test]
fn npm_operations_and_node_versions_are_validated() {
    assert!(NpmPackageOperation::new(vec!["@scope/tool".into(), "tool".into()], NpmPackageMode::EnsurePresent).is_ok());
    assert_eq!(
        NpmPackageOperation::new(vec!["Tool".into()], NpmPackageMode::EnsurePresent).unwrap_err(),
        "invalid unversioned lowercase npm package name: \"Tool\""
    );
    assert!(NpmPackageOperation::new(vec!["@scope/a/b".into()], NpmPackageMode::EnsurePresent).is_err());
    assert_eq!(selected_version(b"v22.1.0\n").unwrap(), "v22.1.0");
    assert_eq!(
        selected_version(b"22.1.0\n").unwrap_err(),
        "fnm returned invalid default Node version: \"22.1.0\""
    );
}

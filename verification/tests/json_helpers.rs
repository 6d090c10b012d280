use cozydot::json::Json;
use cozydot::json_helpers::{
    github_asset, gnome_shell_version, gnome_version, latest_go, stable_go_version, wildcard_match,
};

fn convert(value: &serde_json::Value) -> Json {
    match value {
        serde_json::Value::Null => Json::Null,
        serde_json::Value::Bool(b) => Json::Bool(*b),
        serde_json::Value::Number(n) => Json::Number(n.as_u64()),
        serde_json::Value::String(s) => Json::Str(s.clone()),
        serde_json::Value::Array(items) => Json::Array(items.iter().map(convert).collect()),
        serde_json::Value::Object(members) => {
            Json::Object(members.iter().map(|(k, v)| (k.clone(), convert(v))).collect())
        }
    }
}

fn json(text: &str) -> Json {
    convert(&serde_json::from_str(text).unwrap())
}

#[test]
fn wildcard_is_anchored_and_supports_multiple_stars() {
    assert!(wildcard_match("Obsidian-*.AppImage", "Obsidian-1.8.10.AppImage"));
    assert!(wildcard_match("*linux-amd64-*.deb", "gcm-linux-amd64-2.6.deb"));
    assert!(!wildcard_match("Obsidian-*.AppImage", "xObsidian-1.AppImage"));
}

#[test]
fn stable_go_versions_exclude_prereleases() {
    assert!(stable_go_version("go1.26.1"));
    assert!(!stable_go_version("go1.27rc2"));
}

#[test]
fn partial_go_versions_resolve_to_a_matching_stable_patch() {
    let metadata = json(
        r#"[
            {"version":"go1.26.2","files":[{"filename":"go1.26.2.linux-amd64.tar.gz","sha256":"aa"}]},
            {"version":"go1.25.9","files":[{"filename":"go1.25.9.linux-amd64.tar.gz","sha256":"bb"}]}
        ]"#,
    );
    assert_eq!(
        latest_go(&metadata, "1.26", "amd64").unwrap(),
        ("1.26.2".into(), "go1.26.2.linux-amd64.tar.gz".into(), "aa".into())
    );
    assert!(latest_go(&metadata, "1.2", "amd64").is_err());
}

#[test]
fn gnome_extension_version_matches_the_running_shell() {
    let metadata = json(r#"{"shell_version_map":{"48":{"version":13},"50":{"version":23}}}"#);
    let shell = gnome_shell_version("GNOME Shell 48.4\n").unwrap();
    assert_eq!(shell, "48.4");
    assert_eq!(gnome_version(&metadata, &shell).unwrap(), 13);
    assert!(gnome_version(&metadata, "47.2").is_err());
}

#[test]
fn wildcard_without_stars_requires_the_pattern_at_both_ends() {
    assert!(wildcard_match("tool.deb", "tool.deb"));
    assert!(!wildcard_match("tool.deb", "tool.deb.sig"));
    assert!(wildcard_match("*", "anything"));
    assert!(!wildcard_match("a*c", "ab"));
    assert!(!wildcard_match("ab", "abab"));
}

#[test]
fn github_asset_requires_exactly_one_match() {
    let release = json(
        r#"{"assets":[
            {"name":"tool-1.0-amd64.deb","browser_download_url":"https://example.com/amd64.deb"},
            {"name":"tool-1.0-arm64.deb","browser_download_url":"https://example.com/arm64.deb"},
            {"name":"notes.txt"}
        ]}"#,
    );
    assert_eq!(github_asset(&release, "tool-*-amd64.deb").unwrap(), "https://example.com/amd64.deb");
    assert_eq!(
        github_asset(&release, "tool-*.deb").unwrap_err(),
        "multiple GitHub release assets match \"tool-*.deb\""
    );
    assert_eq!(github_asset(&release, "*.rpm").unwrap_err(), "no GitHub release asset matches \"*.rpm\"");
    assert_eq!(github_asset(&json("{}"), "*").unwrap_err(), "GitHub response has no assets");
}

#[test]
fn go_metadata_errors_name_what_is_missing() {
    assert_eq!(latest_go(&json("{}"), "latest", "amd64").unwrap_err(), "Go metadata must be an array");
    let metadata = json(r#"[{"version":"go1.27rc2"},{"version":"go1.26.1","files":[]}]"#);
    assert_eq!(
        latest_go(&metadata, "latest", "amd64").unwrap_err(),
        "Go metadata has no matching archive checksum"
    );
    assert_eq!(
        latest_go(&metadata, "1.25", "amd64").unwrap_err(),
        "Go metadata has no matching stable release"
    );
}

#[test]
fn gnome_shell_version_is_found_among_words() {
    assert_eq!(gnome_shell_version("GNOME Shell (46.0)").unwrap(), "46.0");
    assert_eq!(
        gnome_shell_version("GNOME Shell\n").unwrap_err(),
        "GNOME Shell version output has no numeric version"
    );
}

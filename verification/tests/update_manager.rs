use dgrlauncher::json::Json;
use dgrlauncher::update_manager::{api_url, auth_header, clean_release_notes, parse_version, select_update};

fn conv(v: &serde_json::Value) -> Json {
    match v {
        serde_json::Value::Null => Json::Null,
        serde_json::Value::Bool(b) => Json::Bool(*b),
        serde_json::Value::Number(n) => Json::Number(n.to_string()),
        serde_json::Value::String(s) => Json::Str(s.clone()),
        serde_json::Value::Array(a) => Json::Array(a.iter().map(conv).collect()),
        serde_json::Value::Object(o) => Json::Object(o.iter().map(|(k, v)| (k.clone(), conv(v))).collect()),
    }
}

fn json(text: &str) -> Json {
    conv(&serde_json::from_str(text).unwrap())
}

#[test]
fn parses_versions() {
    assert_eq!(parse_version("0.7.1"), Some((0, 7, 1)));
    assert_eq!(parse_version("v0.7.1"), Some((0, 7, 1)));
    assert_eq!(parse_version("V0.7.10"), Some((0, 7, 10)));
    assert_eq!(parse_version("0.10.0"), Some((0, 10, 0)));
    assert_eq!(parse_version("1.2"), Some((1, 2, 0)));
    assert!((0, 7, 10) > (0, 7, 9));
    assert!((0, 10, 0) > (0, 9, 9));
}

#[test]
fn version_suffixes_and_garbage() {
    assert_eq!(parse_version(" v1.2.3-beta+7 "), Some((1, 2, 3)));
    assert_eq!(parse_version("1.x"), None);
    assert_eq!(parse_version("v"), None);
}

#[test]
fn release_notes_without_changelog_link() {
    let body = "## Changes\n- fixed it\n\n**Full Changelog**: https://x/compare\n";
    assert_eq!(clean_release_notes(body), "## Changes\n- fixed it");
}

#[test]
fn update_asset_choice() {
    let rel = json(
        r#"{"tag_name": "v0.9.0", "body": "notes",
            "assets": [
              {"name": "dgrlauncher-linux.tar.gz", "browser_download_url": "https://x/l.tgz"},
              {"name": "DgrLauncher-Windows.zip", "browser_download_url": "https://x/w.zip"},
              {"name": "dgrlauncher-windows.txt", "browser_download_url": "https://x/w.txt"}
            ]}"#,
    );
    assert_eq!(
        select_update(&rel, "0.8.2", "windows").unwrap(),
        ("https://x/w.zip".to_string(), "v0.9.0".to_string(), "notes".to_string())
    );
    assert_eq!(select_update(&rel, "0.8.2", "linux").unwrap().0, "https://x/l.tgz");
    assert_eq!(select_update(&rel, "0.9.0", "linux").unwrap_err(), "The launcher is up to date.");
    assert_eq!(select_update(&rel, "0.8.2", "macos").unwrap_err(), "Updates are not available for macos.");
    assert_eq!(select_update(&json("{}"), "0.8.2", "linux").unwrap_err(), "The release has no tag.");
    let no_asset = json(r#"{"tag_name": "1.0.0", "assets": []}"#);
    assert_eq!(select_update(&no_asset, "0.8.2", "linux").unwrap_err(), "No update file for linux in release 1.0.0.");
}

#[test]
fn token_header() {
    assert_eq!(auth_header(Some("  abc ")), Some("Bearer abc".to_string()));
    assert_eq!(auth_header(Some("   ")), None);
    assert_eq!(auth_header(None), None);
    assert_eq!(api_url(), "https://api.github.com/repos/VLAZOF/dgrlauncher/releases/latest");
}

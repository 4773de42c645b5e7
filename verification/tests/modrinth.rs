use dgrlauncher::json::Json;
use dgrlauncher::modrinth::{
    count_installed, encode, identify_candidates, identify_matches, identify_request, install_filename,
    install_record, installed_mods, instance_loader, is_compatible, latest_compatible, link_into, linked_entry,
    mod_file_hash, mods_dir, project_from, remove_mod, safe_filename, search_results, search_url, sidecar_files,
    sidecar_json, sidecar_path, titles_from, titles_url, unlinked_mod_files, versions_from, versions_url,
    InstalledMod, ModDetail, ModVersion,
};
use dgrlauncher::instances::VersionKind;

fn conv(v: &serde_json::Value) -> Json {
    match v {
        serde_json::Value::Null => Json::Null,
        serde_json::Value::Bool(b) => Json::Bool(*b),
        serde_json::Value::Number(n) => Json::Number(n.to_string()),
        serde_json::Value::String(s) => Json::Str(s.clone()),
        serde_json::Value::Array(a) => Json::Array(a.iter().map(conv).collect()),
        serde_json::Value::Object(o) => Json::Object(o.iter().map(|(k, v)| (k.clone(), conv(v))).collect()),
    }
}

fn json(text: &str) -> Json {
    conv(&serde_json::from_str(text).unwrap())
}

fn installed(pid: &str, file: &str) -> InstalledMod {
    InstalledMod {
        project_id: pid.to_string(),
        slug: format!("{pid}-slug"),
        title: format!("{pid} title"),
        icon_url: String::new(),
        version_id: format!("{pid}-v1"),
        version_number: "1.0".to_string(),
        filename: file.to_string(),
    }
}

fn ver(id: &str, loaders: &[&str], games: &[&str]) -> ModVersion {
    ModVersion {
        id: id.to_string(),
        loaders: loaders.iter().map(|s| s.to_string()).collect(),
        game_versions: games.iter().map(|s| s.to_string()).collect(),
        ..Default::default()
    }
}

#[test]
fn compatibility_rule() {
    let v = ver("a", &["neoforge", "forge"], &["1.21.1"]);
    assert!(is_compatible(&v, "neoforge", "1.21.1"));
    assert!(is_compatible(&v, "forge", ""));
    assert!(!is_compatible(&v, "fabric", "1.21.1"));
    assert!(!is_compatible(&v, "", "1.21.1"));
    assert!(!is_compatible(&v, "forge", "1.20.1"));
}

#[test]
fn newest_compatible_is_first_match() {
    let list = vec![ver("new", &["fabric"], &["1.21.4"]), ver("mid", &["fabric"], &["1.21.1"]), ver("old", &["fabric"], &["1.21.1"])];
    assert_eq!(latest_compatible(&list, "fabric", "1.21.1").map(|v| v.id.clone()), Some("mid".to_string()));
    assert!(latest_compatible(&list, "quilt", "1.21.1").is_none());
}

#[test]
fn percent_encoding() {
    assert_eq!(encode("sodium"), "sodium");
    assert_eq!(encode("a b&c"), "a%20b%26c");
    assert_eq!(encode("é~-_."), "%C3%A9~-_.");
}

#[test]
fn request_urls() {
    assert_eq!(
        search_url("  "),
        "https://api.modrinth.com/v2/search?query=%20%20&limit=25&index=downloads&facets=%5B%5B%22project_type%3Amod%22%5D%5D"
    );
    assert_eq!(
        search_url("iris shaders"),
        "https://api.modrinth.com/v2/search?query=iris%20shaders&limit=25&index=relevance&facets=%5B%5B%22project_type%3Amod%22%5D%5D"
    );
    assert_eq!(versions_url("AANobbMI"), "https://api.modrinth.com/v2/project/AANobbMI/version?limit=60");
    assert_eq!(titles_url(&vec![]), None);
    assert_eq!(
        titles_url(&vec!["A".to_string(), "B".to_string()]),
        Some("https://api.modrinth.com/v2/projects?ids=%5B%22A%22%2C%22B%22%5D".to_string())
    );
}

#[test]
fn search_hits_need_an_id() {
    let r = json(r#"{"hits": [
        {"project_id": "P1", "slug": "one", "title": "One", "downloads": 42},
        {"slug": "two"},
        {"title": "no id"}
    ]}"#);
    let hits = search_results(&r);
    assert_eq!(hits.len(), 2);
    assert_eq!((hits[0].id.as_str(), hits[0].title.as_str(), hits[0].downloads), ("P1", "One", 42));
    assert_eq!((hits[1].id.as_str(), hits[1].title.as_str(), hits[1].downloads), ("two", "?", 0));
}

#[test]
fn project_or_not_found() {
    let p = project_from(&json(r#"{"id": "P1", "slug": "s", "title": "T"}"#), "s").unwrap();
    assert_eq!((p.id.as_str(), p.slug.as_str(), p.title.as_str()), ("P1", "s", "T"));
    assert_eq!(project_from(&json(r#"{"description": "gone"}"#), "x").unwrap_err(), "Mod not found: gone");
    assert_eq!(project_from(&json("{}"), "x").unwrap_err(), "Mod not found: x");
}

#[test]
fn versions_pick_primary_file() {
    let r = json(r#"[
        {"id": "v1", "version_number": "1.0", "loaders": ["fabric", 3], "game_versions": ["1.21.1"],
         "files": [{"url": "https://f/a.jar", "filename": "a.jar"}, {"url": "https://f/b.jar", "filename": "b.jar", "primary": true}],
         "dependencies": [{"project_id": "D", "dependency_type": "required"}, {"dependency_type": "optional"}, {"project_id": "E", "dependency_type": "incompatible"}]},
        {"id": "v2", "files": []}
    ]"#);
    let vs = versions_from(&r);
    assert_eq!(vs.len(), 1);
    assert_eq!(vs[0].filename, "b.jar");
    assert_eq!(vs[0].loaders, vec!["fabric".to_string()]);
    assert_eq!(vs[0].dependencies.len(), 2);
    assert_eq!(vs[0].dependencies[0].project_id, Some("D".to_string()));
    assert_eq!(vs[0].dependencies[1].project_id, None);
}

#[test]
fn titles_one_per_id() {
    let r = json(r#"[{"id": "A", "slug": "a", "title": "Alpha"}, {"id": "B"}, {"slug": "x"}, {"id": "A", "slug": "a2", "title": "Alpha 2"}]"#);
    let mut t = titles_from(&r);
    t.sort();
    assert_eq!(
        t,
        vec![
            ("A".to_string(), ("a2".to_string(), "Alpha 2".to_string())),
            ("B".to_string(), (String::new(), "B".to_string()))
        ]
    );
    assert!(titles_from(&json("{}")).is_empty());
}

#[test]
fn unsafe_file_names_refused() {
    assert_eq!(safe_filename("mods/../sodium-0.6.jar "), Some("sodium-0.6.jar".to_string()));
    assert_eq!(safe_filename("C:\\x\\lithium.jar"), Some("lithium.jar".to_string()));
    assert_eq!(safe_filename("../.."), None);
    assert_eq!(safe_filename("readme.txt"), None);
    assert_eq!(safe_filename("dir/"), None);
}

#[test]
fn mods_folder_paths() {
    assert_eq!(mods_dir("/mc", "My Pack"), "/mc/dgrlauncher_instances/My Pack/mods");
    assert_eq!(sidecar_path("/mc", "a/b"), "/mc/dgrlauncher_instances/a_b/mods/.dgrlauncher_mods.json");
}

#[test]
fn sidecar_reads_back_what_was_written() {
    let mods = vec![installed("A", "a.jar"), installed("B", "b.jar")];
    let j = sidecar_json(&mods);
    let files = sidecar_files(&j);
    assert_eq!(files, vec![Some("a.jar".to_string()), Some("b.jar".to_string())]);
    let back = installed_mods(&j, &vec![true, true]);
    assert_eq!(count_installed(&back), 2);
    assert_eq!(back[0].title, "A title");
    assert_eq!(back[1].filename, "b.jar");
    let only_a = installed_mods(&j, &vec![true, false]);
    assert_eq!(only_a.len(), 1);
    assert_eq!(only_a[0].project_id, "A");
}

#[test]
fn sidecar_defaults_and_unsafe_entries() {
    let j = json(r#"{"P": {"filename": "p.jar"}, "Q": {"filename": "../q.txt"}, "R": {}}"#);
    let m = installed_mods(&j, &vec![true, true, true]);
    assert_eq!(m.len(), 1);
    assert_eq!((m[0].title.as_str(), m[0].version_number.as_str()), ("P", "?"));
    assert!(installed_mods(&json("[]"), &vec![]).is_empty());
}

#[test]
fn installing_replaces_previous_version() {
    let project = ModDetail { id: "A".into(), slug: "a".into(), title: "Alpha".into(), ..Default::default() };
    let version = ModVersion { id: "A-v2".into(), version_number: "2.0".into(), filename: "a-2.jar".into(), ..Default::default() };
    let name = install_filename(&version).unwrap();
    let (mods, entry, stale) = install_record(vec![installed("A", "a.jar"), installed("B", "b.jar")], &project, &version, name, 10).unwrap();
    assert_eq!(stale, Some("a.jar".to_string()));
    assert_eq!(entry.filename, "a-2.jar");
    assert_eq!(mods.len(), 2);
    assert!(install_record(vec![], &project, &version, "a-2.jar".into(), 0).unwrap_err() == "Downloaded file is empty.");
    let bad = ModVersion { filename: "../evil.sh".into(), ..Default::default() };
    assert_eq!(install_filename(&bad).unwrap_err(), "Unsafe filename from Modrinth: ../evil.sh");
}

#[test]
fn deleting_returns_the_jar() {
    let (rest, gone) = remove_mod(vec![installed("A", "a.jar"), installed("B", "b.jar")], "A");
    assert_eq!(gone, Some("a.jar".to_string()));
    assert_eq!(rest.len(), 1);
    let (rest, gone) = remove_mod(rest, "Z");
    assert_eq!(gone, None);
    assert_eq!(rest.len(), 1);
}

#[test]
fn hand_dropped_jars() {
    let mods = vec![installed("A", "a.jar")];
    let names = vec!["z.jar".to_string(), "a.jar".to_string(), "notes.txt".to_string(), "b.jar".to_string()];
    assert_eq!(unlinked_mod_files(&mods, &names), vec!["b.jar".to_string(), "z.jar".to_string()]);
    assert_eq!(identify_candidates(&mods, &names), vec!["z.jar".to_string(), "b.jar".to_string()]);
    assert_eq!(
        mod_file_hash(b""),
        "cf83e1357eefb8bdf1542850d66d8007d620e4050b5715dc83f4a921d36ce9ce47d0d13c5d85f2b0ff8318d2877eec2f63b931bd47417a81a538327af927da3e"
    );
}

#[test]
fn identification_round() {
    let req = identify_request(&vec!["h1".to_string()]);
    match &req {
        Json::Object(e) => assert_eq!(e.len(), 2),
        _ => panic!("not an object"),
    }
    let resp = json(r#"{"h1": {"project_id": "P", "id": "v9", "version_number": "9.0"}, "h2": {"project_id": ""}}"#);
    let files = vec![("x.jar".to_string(), "h1".to_string()), ("y.jar".to_string(), "h2".to_string())];
    let m = identify_matches(&resp, &files);
    assert_eq!(m, vec![("x.jar".to_string(), "P".to_string(), "v9".to_string(), "9.0".to_string())]);
    assert!(identify_matches(&json("[]"), &files).is_empty());
    let e = linked_entry(&"x.jar".into(), &"P".into(), &"v9".into(), &"9.0".into(), None);
    assert_eq!((e.title.as_str(), e.slug.as_str()), ("x.jar", ""));
    let (all, n) = link_into(vec![installed("A", "a.jar")], vec![e]);
    assert_eq!((all.len(), n), (2, 1));
}

#[test]
fn store_context_of_instances() {
    let j = json(r#"{"inheritsFrom": "1.21.1"}"#);
    assert_eq!(instance_loader(VersionKind::NeoForge, Some(&j)), Some(("1.21.1".to_string(), "neoforge".to_string())));
    assert_eq!(instance_loader(VersionKind::Vanilla, Some(&j)), None);
    assert_eq!(instance_loader(VersionKind::Fabric, None), None);
}

use dgrlauncher::instances::{
    backward_compatibility_measures, describe_version, game_instance_dir_for_version, get_config_file_path,
    instance_base_mc, instance_config_path, instance_dir_for, instance_icon_presets, rename_check, rename_moves,
    sanitize_instance_name, should_migrate, valid_new_instance_name, version_json_path, version_kind, VersionKind,
    undo_moves, RenameAction, RenameEvent, RenameRun,
};
use dgrlauncher::json::Json;

fn conv(v: &serde_json::Value) -> Json {
    match v {
        serde_json::Value::Null => Json::Null,
        serde_json::Value::Bool(b) => Json::Bool(*b),
        serde_json::Value::Number(n) => Json::Number(n.to_string()),
        serde_json::Value::String(s) => Json::Str(s.clone()),
        serde_json::Value::Array(a) => Json::Array(a.iter().map(conv).collect()),
        serde_json::Value::Object(o) => Json::Object(o.iter().map(|(k, v)| (k.clone(), conv(v))).collect()),
    }
}

fn json(text: &str) -> Json {
    conv(&serde_json::from_str(text).unwrap())
}

const VANILLA_JSON: &str = r#"{"id": "1.21.1", "javaVersion": {"majorVersion": 21}, "mainClass": "net.minecraft.client.main.Main"}"#;
const FABRIC_JSON: &str = r#"{"id": "fabric-loader-0.16.14-1.21.1", "inheritsFrom": "1.21.1",
    "mainClass": "net.fabricmc.loader.impl.launch.knot.KnotClient", "libraries": []}"#;
const NEOFORGE_JSON: &str = r#"{"id": "neoforge-21.1.213", "inheritsFrom": "1.21.1",
    "mainClass": "cpw.mods.bootstraplauncher.BootstrapLauncher", "libraries": [{"name": "net.neoforged:neoforge:21.1.213"}]}"#;

#[test]
fn instance_folder_names() {
    assert_eq!(sanitize_instance_name("1.21.1"), "1.21.1");
    assert_eq!(sanitize_instance_name(" a/b\\c\u{7} "), "a_b_c_");
    assert_eq!(sanitize_instance_name(".."), "unknown");
    assert_eq!(sanitize_instance_name("   "), "unknown");
    assert_eq!(instance_dir_for("/mc", "My Pack"), "/mc/dgrlauncher_instances/My Pack");
    assert_eq!(game_instance_dir_for_version("/mc", "../x"), "/mc/dgrlauncher_instances/.._x");
    assert_eq!(instance_config_path("/mc", "v"), "/mc/dgrlauncher_instances/v/dgrlauncher_instance.json");
    assert_eq!(instance_icon_presets(), vec![String::new(), "star".into(), "heart".into(), "letter".into()]);
    assert_eq!(version_json_path("/mc", "X"), "/mc/versions/X/X.json");
}

#[test]
fn name_rules() {
    assert!(valid_new_instance_name("My Pack", false).is_ok());
    assert_eq!(valid_new_instance_name("../evil", false).unwrap_err(), "Invalid name.");
    assert_eq!(valid_new_instance_name("", false).unwrap_err(), "Invalid name.");
    assert_eq!(valid_new_instance_name("taken", true).unwrap_err(), "A version with this name already exists.");
    assert_eq!(rename_check("a", "a", false).unwrap_err(), "Same name, nothing to do.");
    assert!(rename_check("a", "b", false).is_ok());
}

#[test]
fn rename_moves_in_order() {
    let m = rename_moves("/mc", "1.21.1", "My Vanilla");
    assert_eq!(
        m,
        vec![
            ("/mc/versions/1.21.1".to_string(), "/mc/versions/My Vanilla".to_string()),
            ("/mc/versions/My Vanilla/1.21.1.json".to_string(), "/mc/versions/My Vanilla/My Vanilla.json".to_string()),
            ("/mc/versions/My Vanilla/1.21.1.jar".to_string(), "/mc/versions/My Vanilla/My Vanilla.jar".to_string()),
            ("/mc/dgrlauncher_instances/1.21.1".to_string(), "/mc/dgrlauncher_instances/My Vanilla".to_string()),
        ]
    );
}

#[test]
fn loader_from_json_content() {
    assert_eq!(version_kind("My Vanilla", Some(&json(VANILLA_JSON))), VersionKind::Vanilla);
    assert_eq!(version_kind("My Pack", Some(&json(FABRIC_JSON))), VersionKind::Fabric);
    assert_eq!(version_kind("My Forge Pack", Some(&json(NEOFORGE_JSON))), VersionKind::NeoForge);
    assert_eq!(version_kind("x", None), VersionKind::Vanilla);
    let forge = json(r#"{"inheritsFrom": "1.20.1", "mainClass": "cpw.mods.bootstraplauncher.BootstrapLauncher", "libraries": []}"#);
    assert_eq!(version_kind("pack", Some(&forge)), VersionKind::Forge);
    let odd = json(r#"{"inheritsFrom": "1.20.1", "mainClass": "other"}"#);
    assert_eq!(version_kind("MyFabricThing", Some(&odd)), VersionKind::UnknownModded);
    assert_eq!(version_kind("thing", Some(&odd)), VersionKind::UnknownModded);
    // The folder name never decides: a Forge profile stays Forge under a
    // NeoForge-looking name, and a NeoForge one stays NeoForge when renamed.
    assert_eq!(version_kind("neoforge-21.1.213", Some(&forge)), VersionKind::Forge);
    assert_eq!(version_kind("neoforge-21.1.213", Some(&json(NEOFORGE_JSON))), VersionKind::NeoForge);
    assert_eq!(version_kind("Renamed", Some(&json(NEOFORGE_JSON))), VersionKind::NeoForge);
}

#[test]
fn version_descriptions() {
    assert_eq!(describe_version("My Pack", Some(&json(FABRIC_JSON))), "Minecraft 1.21.1 \u{2022} Fabric");
    assert_eq!(describe_version("1.21.1", Some(&json(VANILLA_JSON))), "Minecraft 1.21.1");
    assert_eq!(describe_version("", Some(&json(VANILLA_JSON))), "");
    assert_eq!(describe_version("x", None), "");
    assert_eq!(instance_base_mc("My Pack", Some(&json(FABRIC_JSON))), "1.21.1");
    assert_eq!(instance_base_mc("1.20.1", None), "1.20.1");
}

#[test]
fn settings_and_migrations() {
    assert_eq!(get_config_file_path("/mc", false), "/mc/dgrlauncher_settings.json");
    assert_eq!(get_config_file_path("/mc", true), "/mc/dgrlauncher_settings_debug.json");
    let m = backward_compatibility_measures("/mc");
    assert_eq!(m.len(), 5);
    assert_eq!(m[0], ("/mc/minelander_instances".to_string(), "/mc/dgrlauncher_instances".to_string(), false));
    assert_eq!(m[4], ("/mc/minelander_profiles".to_string(), "/mc/dgrlauncher_instances".to_string(), true));
    assert!(should_migrate(true, false));
    assert!(!should_migrate(true, true));
    assert!(!should_migrate(false, false));
}

#[test]
fn rollback_undoes_latest_first() {
    let done = vec![
        (String::from("/mc/versions/a"), String::from("/mc/versions/b")),
        (String::from("/mc/versions/b/a.json"), String::from("/mc/versions/b/b.json")),
    ];
    assert_eq!(
        undo_moves(&done),
        vec![
            (String::from("/mc/versions/b/b.json"), String::from("/mc/versions/b/a.json")),
            (String::from("/mc/versions/b"), String::from("/mc/versions/a")),
        ]
    );
    assert!(undo_moves(&Vec::new()).is_empty());
}

fn moves_of(a: RenameAction) -> (String, String) {
    match a {
        RenameAction::Move(f, t) | RenameAction::MoveIfPresent(f, t) => (f, t),
        _ => panic!("expected a rename"),
    }
}

#[test]
fn rename_steps_in_order() {
    assert_eq!(RenameRun::start("/mc", "a", "a/b", false).err(), Some(String::from("Invalid name.")));
    let mut run = RenameRun::start("/mc", "1.21.1", "Mine", false).unwrap();
    assert!(matches!(run.advance(RenameEvent::Begin), RenameAction::Move(ref f, ref t) if f == "/mc/versions/1.21.1" && t == "/mc/versions/Mine"));
    assert_eq!(moves_of(run.advance(RenameEvent::Moved)).0, "/mc/versions/Mine/1.21.1.json");
    assert_eq!(moves_of(run.advance(RenameEvent::Moved)).0, "/mc/versions/Mine/1.21.1.jar");
    match run.advance(RenameEvent::Absent) {
        RenameAction::CheckReadable(p) => assert_eq!(p, "/mc/versions/Mine/Mine.json"),
        _ => panic!("expected the readability check"),
    }
    assert_eq!(moves_of(run.advance(RenameEvent::Readable)).1, "/mc/dgrlauncher_instances/Mine");
    assert!(matches!(run.advance(RenameEvent::Moved), RenameAction::Finished));
}

#[test]
fn failed_rename_rolls_everything_back() {
    let mut run = RenameRun::start("/mc", "broken", "renamed", false).unwrap();
    let _ = run.advance(RenameEvent::Begin);
    let _ = run.advance(RenameEvent::Moved);
    let _ = run.advance(RenameEvent::Moved);
    let _ = run.advance(RenameEvent::Moved);
    match run.advance(RenameEvent::Unreadable) {
        RenameAction::RollBack(undo, msg) => {
            assert_eq!(msg, "Version files unreadable after rename, rolled back.");
            assert_eq!(
                undo,
                vec![
                    (String::from("/mc/versions/renamed/renamed.jar"), String::from("/mc/versions/renamed/broken.jar")),
                    (String::from("/mc/versions/renamed/renamed.json"), String::from("/mc/versions/renamed/broken.json")),
                    (String::from("/mc/versions/renamed"), String::from("/mc/versions/broken")),
                ]
            );
        }
        _ => panic!("expected a roll-back"),
    }
    let mut run = RenameRun::start("/mc", "a", "b", false).unwrap();
    let _ = run.advance(RenameEvent::Begin);
    match run.advance(RenameEvent::Failed(String::from("denied"))) {
        RenameAction::RollBack(undo, msg) => {
            assert!(undo.is_empty());
            assert_eq!(msg, "Rename failed: denied");
        }
        _ => panic!("expected a roll-back"),
    }
    let mut run = RenameRun::start("/mc", "a", "b", false).unwrap();
    let _ = run.advance(RenameEvent::Begin);
    let _ = run.advance(RenameEvent::Moved);
    let _ = run.advance(RenameEvent::Absent);
    let _ = run.advance(RenameEvent::Absent);
    let _ = run.advance(RenameEvent::Readable);
    match run.advance(RenameEvent::Failed(String::from("busy"))) {
        RenameAction::RollBack(undo, msg) => {
            assert_eq!(undo, vec![(String::from("/mc/versions/b"), String::from("/mc/versions/a"))]);
            assert_eq!(msg, "Instance folder failed, rolled back: busy");
        }
        _ => panic!("expected a roll-back"),
    }
}

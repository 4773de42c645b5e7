use dgrlauncher::auth::MinecraftAccount;
use dgrlauncher::downloader::Download;
use dgrlauncher::json::Json;
use dgrlauncher::launcher::{
    automatic_java, check_candidates, check_java_major, check_outcome, dedupe_classpath, fallback_java_major,
    game_command, get_game_args, get_game_jvm_args, get_vec_from, get_version_order, is_modded, lib_manager,
    managed_java_dir, managed_java_folder, minecraft_dir_for, required_java_major, GameSettings, JavaType, Missing,
    sort_versions_newest_first,
};
use std::cmp::Ordering;

fn conv(v: &serde_json::Value) -> Json {
    match v {
        serde_json::Value::Null => Json::Null,
        serde_json::Value::Bool(b) => Json::Bool(*b),
        serde_json::Value::Number(n) => Json::Number(n.to_string()),
        serde_json::Value::String(s) => Json::Str(s.clone()),
        serde_json::Value::Array(a) => Json::Array(a.iter().map(conv).collect()),
        serde_json::Value::Object(o) => Json::Object(o.iter().map(|(k, v)| (k.clone(), conv(v))).collect()),
    }
}

fn json(text: &str) -> Json {
    conv(&serde_json::from_str(text).unwrap())
}

fn strings(v: &[&str]) -> Vec<String> {
    v.iter().map(|s| s.to_string()).collect()
}

#[test]
fn java_table_for_old_versions() {
    assert_eq!(fallback_java_major("1.12.2"), 8);
    assert_eq!(fallback_java_major("1.16.5"), 8);
    assert_eq!(fallback_java_major("1.17.1"), 17);
    assert_eq!(fallback_java_major("1.20.4"), 17);
    assert_eq!(fallback_java_major("1.20.5"), 21);
    assert_eq!(fallback_java_major("1.21.1-fabric"), 21);
    assert_eq!(fallback_java_major("26.1"), 25);
    assert_eq!(fallback_java_major("garbage"), 8);
}

#[test]
fn java_major_from_json_first() {
    let v = json(r#"{"javaVersion": {"majorVersion": 21}}"#);
    assert_eq!(required_java_major(&v, "1.8.9"), 21);
    let old = json(r#"{"javaVersion": {"Version": 16}}"#);
    assert_eq!(required_java_major(&old, "1.8.9"), 16);
    assert_eq!(required_java_major(&json("{}"), "1.8.9"), 8);
    assert_eq!(managed_java_folder(25), "java25");
    assert_eq!(managed_java_dir("/mc", 17), "/mc/dgrlauncher_java/java17");
}

#[test]
fn classpath_drops_repeats_and_empties() {
    assert_eq!(dedupe_classpath("a.jar:b.jar::a.jar:c.jar:", ':'), "a.jar:b.jar:c.jar");
    assert_eq!(dedupe_classpath("", ';'), "");
}

#[test]
fn version_names_in_order() {
    assert_eq!(get_version_order("1.21.1", "1.20.4"), Ordering::Greater);
    assert_eq!(get_version_order("1.9", "1.10"), Ordering::Less);
    assert_eq!(get_version_order("1.21.1", "1.21.1"), Ordering::Equal);
    assert_eq!(get_version_order("1.21.1", "fabric-loader"), Ordering::Greater);
    assert_eq!(get_version_order("1.20.1-forge", "1.20.1-fabric"), Ordering::Greater);
}

#[test]
fn game_args_placeholders() {
    let gd = strings(&["Steve", "1.21.1", "/inst", "/mc/assets", "17", "uuid", "tok", "{}", "legacy", "Release", "Modified", "cp"]);
    let args = strings(&["--username", "${auth_player_name}", "--demo", "--assetsDir", "${game_assets}", "--accessToken", "${auth_access_token}", "--xuid", "${auth_xuid}"]);
    assert_eq!(
        get_game_args(&args, &gd, "/mc"),
        strings(&["--username", "Steve", "--assetsDir", "/mc/resources", "--accessToken", "tok", "--xuid", "uuid"])
    );
}

#[test]
fn jvm_args_filled() {
    let p = json(r#"{"id": "1.21.1", "arguments": {"jvm": ["-Djava.library.path=${natives_directory}", "-cp", "${classpath}",
        "-DlibraryDirectory=${library_directory}", "-Dsep=${classpath_separator}", "-Dver=${version_name}", {"rules": [], "value": "x"}]}}"#);
    assert_eq!(
        get_game_jvm_args(&p, "/n", "/mc", "linux"),
        strings(&["-Djava.library.path=/n", "-DlibraryDirectory=/mc/libraries", "-Dsep=:", "-Dver=1.21.1"])
    );
    assert_eq!(get_game_jvm_args(&json("{}"), "/n", "/mc", "windows"), strings(&["-Djava.library.path=/n"]));
}

#[test]
fn class_path_of_libraries() {
    let p = json(r#"{"libraries": [
        {"name": "com.mojang:brigadier:1.3.10"},
        {"name": "org.lwjgl:lwjgl:3.3.3:natives-linux"},
        {"name": "x:only-windows:1", "rules": [{"os": {"name": "windows"}}]}
    ]}"#);
    assert_eq!(
        lib_manager(&p, "/mc", "linux"),
        "/mc/libraries/com/mojang/brigadier/1.3.10/brigadier-1.3.10.jar:/mc/libraries/org/lwjgl/lwjgl/3.3.3/lwjgl-3.3.3-natives-linux.jar:"
    );
}

#[test]
fn automatic_java_paths() {
    let v = json(r#"{"javaVersion": {"majorVersion": 8}}"#);
    let (bin, flags) = automatic_java(&v, "1.8.9", "/mc", "windows");
    assert_eq!(bin, "/mc/dgrlauncher_java/java8/bin/javaw.exe");
    assert!(flags.contains(&"-XX:+AggressiveOpts".to_string()));
    let (bin, flags) = automatic_java(&json("{}"), "1.21.1", "/mc", "linux");
    assert_eq!(bin, "/mc/dgrlauncher_java/java21/bin/java");
    assert_eq!(flags[0], "-XX:+UnlockExperimentalVMOptions");
    assert_eq!(get_vec_from("a b"), strings(&["a", "b"]));
}

#[test]
fn minecraft_folder_per_system() {
    assert_eq!(minecraft_dir_for("linux", "/home/steve", ""), "/home/steve/.minecraft");
    assert_eq!(minecraft_dir_for("windows", "", "C:\\Users\\Steve"), "C:/Users/Steve/AppData/Roaming/.minecraft");
}

#[test]
fn modded_by_name_or_inheritance() {
    assert!(is_modded("1.21.1-Fabric", &json("{}")));
    assert!(is_modded("My Pack", &json(r#"{"inheritsFrom": "1.21.1"}"#)));
    assert!(!is_modded("1.21.1", &json("{}")));
}

#[test]
fn vanilla_command_line() {
    let p = json(r#"{"id": "1.21.1", "mainClass": "net.minecraft.client.main.Main", "assets": "17",
        "javaVersion": {"majorVersion": 21},
        "arguments": {"game": ["--username", "${auth_player_name}", "--version", "${version_name}"], "jvm": ["-Djava.library.path=${natives_directory}"]},
        "libraries": [{"name": "com.mojang:brigadier:1.3.10"}]}"#);
    let settings = GameSettings {
        account: MinecraftAccount { username: "Steve".into(), token: "tok".into(), uuid: "u-1".into() },
        game_version: "1.21.1".into(),
        jvm: String::new(),
        jvmargs: vec![],
        xmx: "-Xmx2048M".into(),
        game_wrapper_commands: strings(&["gamemoderun"]),
        game_directory: "/mc/dgrlauncher_instances/1.21.1".into(),
        java_type: JavaType::Custom,
        enviroment_variables: vec![],
    };
    let mut s2 = settings.clone();
    s2.jvm = "/usr/bin/java".into();
    s2.jvmargs = strings(&["-Dx=1"]);
    let (prog, args) = game_command(&s2, "/mc", "linux", &p, &Json::Null).unwrap();
    assert_eq!(prog, "gamemoderun");
    assert_eq!(
        args,
        strings(&[
            "/usr/bin/java",
            "-Xmx2048M",
            "-Dx=1",
            "-Djava.library.path=/mc/versions/1.21.1/natives",
            "-cp",
            "/mc/libraries/com/mojang/brigadier/1.3.10/brigadier-1.3.10.jar:/mc/versions/1.21.1/1.21.1.jar",
            "net.minecraft.client.main.Main",
            "--username",
            "Steve",
            "--version",
            "1.21.1"
        ])
    );
    assert!(game_command(&settings, "/mc", "macos", &p, &Json::Null).is_none());
    assert!(game_command(&settings, "/mc", "linux", &json("{}"), &Json::Null).is_none());
}

#[test]
fn check_lists_files_in_report_order() {
    let loader = json(r#"{"inheritsFrom": "1.21.1", "mainClass": "net.fabricmc.loader.impl.launch.knot.KnotClient",
        "libraries": [{"name": "net.fabricmc:fabric-loader:0.16.14", "url": "https://maven.fabricmc.net/"}]}"#);
    let vanilla = json(r#"{"downloads": {"client": {"url": "https://x/client.jar"}}, "assets": "17",
        "libraries": [{"name": "com.mojang:brigadier:1.3.10",
           "downloads": {"artifact": {"path": "com/mojang/brigadier/1.3.10/brigadier-1.3.10.jar", "url": "https://l/b.jar"}}}]}"#);
    let idx = json(r#"{"objects": {"a": {"hash": "00ff"}}}"#);
    let c = check_candidates(&loader, &vanilla, "/mc", "My Pack", "linux", false, false, Some(&idx));
    let paths: Vec<&str> = c.iter().map(|d| d.path.as_str()).collect();
    assert_eq!(
        paths,
        vec![
            "/mc/libraries/net/fabricmc/fabric-loader/0.16.14/fabric-loader-0.16.14.jar",
            "/mc/versions/My Pack/My Pack.jar",
            "/mc/libraries/com/mojang/brigadier/1.3.10/brigadier-1.3.10.jar",
            "/mc/assets/objects//00/00ff"
        ]
    );
    let c = check_candidates(&loader, &vanilla, "/mc", "My Pack", "linux", false, true, None);
    assert_eq!(c.len(), 2);
    assert_eq!(check_java_major(&loader, Some(&json(r#"{"javaVersion": {"majorVersion": 21}}"#)), "My Pack"), 21);
    assert_eq!(check_java_major(&loader, None, "My Pack"), 21);
}

#[test]
fn check_reports_files_then_java() {
    let files = vec![Download { path: "/a".into(), url: "u".into() }];
    assert_eq!(check_outcome(files.clone(), &JavaType::Automatic, 21, false), Some(Missing::VersionFiles(files)));
    assert_eq!(check_outcome(vec![], &JavaType::Automatic, 21, false), Some(Missing::Java(21)));
    assert_eq!(check_outcome(vec![], &JavaType::Automatic, 21, true), None);
    assert_eq!(check_outcome(vec![], &JavaType::System, 21, false), None);
}

#[test]
fn installed_versions_newest_first() {
    let ids: Vec<String> = ["1.20.1", "1.21.1-fabric", "1.8.9", "1.21.1", "neoforge-21.1.213"]
        .iter()
        .map(|s| s.to_string())
        .collect();
    let sorted = sort_versions_newest_first(ids.clone());
    assert_eq!(sorted.len(), ids.len());
    for w in sorted.windows(2) {
        assert_ne!(get_version_order(&w[0], &w[1]), Ordering::Less);
    }
    let mut a = sorted.clone();
    let mut b = ids.clone();
    a.sort();
    b.sort();
    assert_eq!(a, b);
    assert_eq!(sorted[0], "1.21.1-fabric");
    assert_eq!(sorted_pos(&sorted, "1.8.9") > sorted_pos(&sorted, "1.20.1"), true);
}

fn sorted_pos(v: &[String], s: &str) -> usize {
    v.iter().position(|x| x == s).unwrap()
}

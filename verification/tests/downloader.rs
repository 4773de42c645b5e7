use dgrlauncher::downloader::{
    get_assets, get_fabric_loader_versions, get_libraries, get_library_url, get_neoforge_versions,
    installer_failure, installer_outcome, is_natives_archive, is_zip_archive, java_archive_name, java_rename,
    manifest_url, managed_java_bin, megabytes, missing_downloads, natives_folder, neoforge_installer_path,
    neoforge_installer_url, neoforge_java_major, neoforge_mc_of_version, pick_update_entry, temurin_jre_url,
    update_archive_name, version_dir_name, Download, DownloadList, Progress, VersionType,
};
use dgrlauncher::json::Json;

fn conv(v: &serde_json::Value) -> Json {
    match v {
        serde_json::Value::Null => Json::Null,
        serde_json::Value::Bool(b) => Json::Bool(*b),
        serde_json::Value::Number(n) => Json::Number(n.to_string()),
        serde_json::Value::String(s) => Json::Str(s.clone()),
        serde_json::Value::Array(a) => Json::Array(a.iter().map(conv).collect()),
        serde_json::Value::Object(o) => Json::Object(o.iter().map(|(k, v)| (k.clone(), conv(v))).collect()),
    }
}

fn json(text: &str) -> Json {
    conv(&serde_json::from_str(text).unwrap())
}

fn dl(path: &str, url: &str) -> Download {
    Download { path: path.to_string(), url: url.to_string() }
}

#[test]
fn maps_neoforge_versions_to_mc() {
    assert_eq!(neoforge_mc_of_version("21.1.213"), Some("1.21.1".to_string()));
    assert_eq!(neoforge_mc_of_version("20.2.59"), Some("1.20.2".to_string()));
    assert_eq!(neoforge_mc_of_version("26.1.0.5-beta"), Some("26.1".to_string()));
    assert_eq!(neoforge_mc_of_version("26.1.1.7"), Some("26.1.1".to_string()));
    assert_eq!(neoforge_mc_of_version("garbage"), None);
}

#[test]
fn neoforge_mapping_other_shapes() {
    assert_eq!(neoforge_mc_of_version("1.20.1"), Some("1.20.1".to_string()));
    assert_eq!(neoforge_mc_of_version("21.1"), None);
    assert_eq!(neoforge_mc_of_version("21.x.3"), None);
}

#[test]
fn installer_url_is_exact() {
    assert_eq!(
        neoforge_installer_url("21.1.213"),
        "https://maven.neoforged.net/releases/net/neoforged/neoforge/21.1.213/neoforge-21.1.213-installer.jar"
    );
}

#[test]
fn temurin_url_maps_system() {
    assert_eq!(
        temurin_jre_url(21, "linux", "x86_64"),
        "https://api.adoptium.net/v3/binary/latest/21/ga/linux/x64/jre/hotspot/normal/eclipse"
    );
    assert_eq!(
        temurin_jre_url(8, "windows", "aarch64"),
        "https://api.adoptium.net/v3/binary/latest/8/ga/windows/aarch64/jre/hotspot/normal/eclipse"
    );
    assert_eq!(
        temurin_jre_url(17, "macos", "riscv"),
        "https://api.adoptium.net/v3/binary/latest/17/ga/linux/x64/jre/hotspot/normal/eclipse"
    );
}

#[test]
fn library_url_uses_declared_base() {
    assert_eq!(
        get_library_url("https://maven.fabricmc.net/", "net/fabricmc/x/1.0/x-1.0.jar"),
        "https://maven.fabricmc.net/net/fabricmc/x/1.0/x-1.0.jar"
    );
}

#[test]
fn libraries_of_a_profile() {
    let libs = json(
        r#"[
        {"name": "org.lwjgl:lwjgl:3.3.3",
         "downloads": {"artifact": {"path": "org/lwjgl/lwjgl/3.3.3/lwjgl-3.3.3.jar",
                                    "url": "https://libraries.minecraft.net/org/lwjgl/lwjgl/3.3.3/lwjgl-3.3.3.jar"}}},
        {"name": "only:for:windows", "rules": [{"os": {"name": "windows"}}]}
    ]"#,
    );
    let list = match &libs {
        Json::Array(a) => a,
        _ => unreachable!(),
    };
    let r = get_libraries("/mc", list, "/mc/versions/1.21.1", "linux").unwrap();
    assert_eq!(r.len(), 1);
    assert_eq!(r[0].path, "/mc/libraries/org/lwjgl/lwjgl/3.3.3/lwjgl-3.3.3.jar");
    assert_eq!(r[0].url, "https://libraries.minecraft.net/org/lwjgl/lwjgl/3.3.3/lwjgl-3.3.3.jar");
}

#[test]
fn library_without_name_is_an_error() {
    let libs = json(r#"[{"downloads": {}}]"#);
    let list = match &libs {
        Json::Array(a) => a,
        _ => unreachable!(),
    };
    assert_eq!(get_libraries("/mc", list, "/v", "linux").unwrap_err(), "Library without a name.");
}

#[test]
fn assets_by_hash_and_by_name() {
    let idx = json(r#"{"objects": {"icons/a.png": {"hash": "abcdef", "size": 3}}}"#);
    let r = get_assets("/mc", &idx);
    assert_eq!(r, vec![dl("/mc/assets/objects//ab/abcdef", "https://resources.download.minecraft.net/ab/abcdef")]);
    let old = json(r#"{"map_to_resources": true, "objects": {"sound/x.ogg": {"hash": "12ffff"}}}"#);
    let r = get_assets("/mc", &old);
    assert_eq!(r, vec![dl("/mc/resources/sound/x.ogg", "https://resources.download.minecraft.net/12/12ffff")]);
}

#[test]
fn neoforge_list_latest_first() {
    let xml = "<metadata><versioning><versions><version>20.2.59</version><version> 21.1.213 </version><version>garbage</version></versions></versioning></metadata>";
    let r = get_neoforge_versions(xml).unwrap();
    assert_eq!(
        r,
        vec![
            ("1.21.1".to_string(), "21.1.213".to_string()),
            ("1.20.2".to_string(), "20.2.59".to_string())
        ]
    );
    assert!(get_neoforge_versions("<metadata></metadata>").is_err());
}

#[test]
fn fabric_loaders_or_error() {
    let list = json(r#"[{"loader": {"version": "0.16.14"}}, {"loader": {"version": "0.16.13"}}]"#);
    assert_eq!(get_fabric_loader_versions(&list, "1.21.1").unwrap(), vec!["0.16.14".to_string(), "0.16.13".to_string()]);
    let empty = json("[]");
    assert_eq!(
        get_fabric_loader_versions(&empty, "1.2.5").unwrap_err(),
        "No Fabric loader found for Minecraft 1.2.5."
    );
}

#[test]
fn manifest_lookup() {
    let m = json(r#"{"versions": [{"id": "1.21.1", "url": "https://x/1.21.1.json"}]}"#);
    assert_eq!(manifest_url(&m, "1.21.1").unwrap(), "https://x/1.21.1.json");
    assert_eq!(manifest_url(&m, "9.9").unwrap_err(), "Unknown Minecraft version: 9.9");
    assert_eq!(manifest_url(&json("{}"), "1.21.1").unwrap_err(), "Version list has no versions.");
}

#[test]
fn fabric_folder_name() {
    assert_eq!(version_dir_name("1.21.1", &VersionType::Vanilla), "1.21.1");
    assert_eq!(version_dir_name("1.21.1", &VersionType::Fabric { loader: "0.16.14".to_string() }), "1.21.1-fabric");
}

#[test]
fn only_missing_files_are_kept() {
    let list = vec![dl("/a", "u1"), dl("/b", "u2"), dl("/c", "u3")];
    assert_eq!(missing_downloads(list, &vec![true, false, true]), vec![dl("/b", "u2")]);
}

#[test]
fn queue_reports_remaining_files() {
    let mut q = DownloadList::new(vec![dl("/a", "u1"), dl("/b", "u2")]);
    let (d, p) = q.next_file(false).unwrap();
    assert_eq!(d, dl("/a", "u1"));
    assert_eq!(p, Progress::Downloaded(1));
    let (d, p) = q.next_file(true).unwrap();
    assert_eq!(d, dl("/b", "u2"));
    assert_eq!(p, Progress::MissingFilesDownloadProgressed(0));
    assert_eq!(q.next_file(false).unwrap_err(), Progress::Finished);
    assert_eq!(q.next_file(true).unwrap_err(), Progress::MissingFilesDownloadFinished);
}

#[test]
fn megabytes_are_cut_to_a_byte() {
    assert_eq!(megabytes(5 * 1048576 + 7), 5);
    assert_eq!(megabytes(300 * 1048576), 44);
}

#[test]
fn java_archive_names() {
    assert_eq!(java_archive_name("linux").unwrap(), "compressed.tar.gz");
    assert_eq!(java_archive_name("windows").unwrap(), "compressed.zip");
    assert_eq!(java_archive_name("macos").unwrap_err(), "System not supported.");
}

#[test]
fn java_top_folder_is_renamed() {
    assert_eq!(
        java_rename("/mc/dgrlauncher_java", "jdk-21.0.5+11-jre", 21).unwrap(),
        ("/mc/dgrlauncher_java/jdk-21.0.5+11-jre".to_string(), "/mc/dgrlauncher_java/java21".to_string())
    );
    assert_eq!(java_rename("/mc/dgrlauncher_java", "", 21).unwrap_err(), "Java archive is empty.");
}

#[test]
fn managed_java_binary() {
    assert_eq!(managed_java_bin("/mc", 17, "linux"), "/mc/dgrlauncher_java/java17/bin/java");
    assert_eq!(managed_java_bin("C:/mc", 8, "windows"), "C:/mc/dgrlauncher_java/java8/bin/javaw.exe");
}

#[test]
fn neoforge_installer_java() {
    let v = json(r#"{"javaVersion": {"majorVersion": 21}}"#);
    assert_eq!(neoforge_java_major(Some(&v), "1.21.1"), 21);
    assert_eq!(neoforge_java_major(None, "1.16.5"), 8);
    assert_eq!(neoforge_installer_path("/mc", "21.1.213"), "/mc/downloads/neoforge-21.1.213-installer.jar");
}

#[test]
fn installer_failure_keeps_last_lines() {
    let msg = installer_failure("exit status: 1", "one\ntwo\r\nthree\n");
    assert_eq!(msg, "NeoForge installer failed (exit exit status: 1): three | two | one");
    let long = "x".repeat(400);
    let msg = installer_failure("1", &long);
    assert_eq!(msg.chars().count(), "NeoForge installer failed (exit 1): ".len() + 300);
    assert_eq!(installer_outcome(true, "0", "", "/p.json", true), Progress::NeoForgeFinished);
    assert_eq!(
        installer_outcome(true, "0", "", "/p.json", false),
        Progress::Errored("Installer finished but /p.json is missing.".to_string())
    );
}

#[test]
fn update_archive_selection() {
    assert!(is_zip_archive("https://x/DgrLauncher-Windows.ZIP"));
    assert_eq!(update_archive_name("https://x/a.tar.gz"), "update_tmp.tar.gz");
    assert_eq!(update_archive_name("https://x/a.zip"), "update_tmp.zip");
    let zip = vec![
        (false, "bin/".to_string()),
        (true, "readme.txt".to_string()),
        (true, "other.exe".to_string()),
        (true, "Minelander.exe".to_string()),
        (true, "bin/DgrLauncher.exe".to_string()),
    ];
    assert_eq!(pick_update_entry(&zip, true), Ok(4));
    assert_eq!(pick_update_entry(&zip[..4].to_vec(), true), Ok(3));
    assert_eq!(pick_update_entry(&zip[..3].to_vec(), true), Ok(2));
    assert_eq!(
        pick_update_entry(&zip[..2].to_vec(), true).unwrap_err(),
        "No executable found in update archive."
    );
    let tar = vec![(true, "README".to_string()), (true, "minelander".to_string()), (true, "dgrlauncher".to_string())];
    assert_eq!(pick_update_entry(&tar, false), Ok(2));
    assert_eq!(pick_update_entry(&tar[..2].to_vec(), false), Ok(1));
}

#[test]
fn natives_paths() {
    assert!(is_natives_archive("/mc/versions/1.8.9/natives/natives.jar"));
    assert!(!is_natives_archive("/mc/libraries/x.jar"));
    assert_eq!(natives_folder("/mc/versions/1.8.9/natives/natives.jar"), "/mc/versions/1.8.9/natives");
}

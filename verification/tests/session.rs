use dgrlauncher::downloader::{Download, Java, VersionType};
use dgrlauncher::modrinth::{InstalledMod, ModDependency, ModVersion};
use dgrlauncher::instances::VersionKind;
use dgrlauncher::session::{
    custom_java_for_launch, effective_java_name, environment_variables, filter_neoforge_for_mc,
    finished_version_dir_id, java_type_for_name, launch_blocker, neoforge_install_target, refreshed_update_entry,
    remove_account, healed_current_account, sanitize_java_name, wrapper_commands, Downloader, DownloaderState,
    install_request, loader_switch_request, remember_install_name, take_install_name, InstallJob, LoaderChoice,
    confirm_press, update_toggle, deletable_instance_id, deletable_jar_name, push_history, missing_dep_titles,
    update_checks_started, update_check_done, account_named,
};
use dgrlauncher::settings::Account;
use dgrlauncher::launcher::JavaType;
use dgrlauncher::json::Json;

#[test]
fn finished_dir_id_maps_fabric() {
    assert_eq!(
        finished_version_dir_id(&DownloaderState::Downloading(String::from("1.21.1"), VersionType::Vanilla)),
        Some(String::from("1.21.1"))
    );
    assert_eq!(
        finished_version_dir_id(&DownloaderState::Downloading(
            String::from("1.21.1"),
            VersionType::Fabric { loader: String::from("0.16.14") }
        )),
        Some(String::from("1.21.1-fabric"))
    );
    assert_eq!(finished_version_dir_id(&DownloaderState::Idle), None);
}

#[test]
fn update_entry_never_uses_another_projects_list() {
    let ver = |id: &str, num: &str| ModVersion {
        id: id.to_owned(),
        version_number: num.to_owned(),
        loaders: vec![String::from("fabric")],
        game_versions: vec![String::from("1.21.1")],
        ..Default::default()
    };
    let installed_b = InstalledMod {
        project_id: String::from("B"),
        slug: String::from("mod-b"),
        title: String::from("Mod B"),
        icon_url: String::new(),
        version_id: String::from("b1"),
        version_number: String::from("1.0"),
        filename: String::from("mod-b-1.0.jar"),
    };
    let a_list = vec![ver("a2", "2.0"), ver("a1", "1.0")];
    assert!(refreshed_update_entry(Some("A"), &a_list, "fabric", "1.21.1", &installed_b).is_none());
    let installed_a = InstalledMod {
        project_id: String::from("A"),
        version_id: String::from("a1"),
        ..installed_b.clone()
    };
    let offered = refreshed_update_entry(Some("A"), &a_list, "fabric", "1.21.1", &installed_a);
    assert_eq!(offered.map(|v| v.id), Some(String::from("a2")));
    let installed_a2 = InstalledMod {
        version_id: String::from("a2"),
        ..installed_a.clone()
    };
    assert!(refreshed_update_entry(Some("A"), &a_list, "fabric", "1.21.1", &installed_a2).is_none());
    assert!(refreshed_update_entry(Some("A"), &a_list, "neoforge", "1.21.1", &installed_a).is_none());
}

#[test]
fn update_entry_without_loaded_list() {
    let m = InstalledMod {
        project_id: String::from("A"),
        slug: String::new(),
        title: String::new(),
        icon_url: String::new(),
        version_id: String::from("a1"),
        version_number: String::new(),
        filename: String::from("a.jar"),
    };
    let list = vec![ModVersion { id: "a2".to_string(), loaders: vec!["fabric".to_string()], ..Default::default() }];
    assert!(refreshed_update_entry(None, &list, "fabric", "", &m).is_none());
    assert_eq!(refreshed_update_entry(Some("A"), &list, "fabric", "", &m).map(|v| v.id), Some("a2".to_string()));
}

#[test]
fn downloader_slot_jobs() {
    let mut d = Downloader::new(3);
    assert!(matches!(d.state, DownloaderState::Idle));
    d.start_java(Java(21));
    assert!(matches!(d.state, DownloaderState::JavaDownloading(Java(21))));
    d.start_missing_files(vec![Download { path: "/a".into(), url: "u".into() }]);
    assert!(matches!(&d.state, DownloaderState::DownloadingMissingFiles(v) if v.len() == 1));
    d.start_neoforge("1.21.1".into(), "21.1.213".into());
    assert!(matches!(&d.state, DownloaderState::NeoForgeInstaller { mc_version, nf_version } if mc_version == "1.21.1" && nf_version == "21.1.213"));
    d.start_update("https://x/u.zip".into());
    assert!(matches!(&d.state, DownloaderState::Update(u) if u == "https://x/u.zip"));
    d.start("1.20.1".into(), VersionType::Vanilla);
    assert!(matches!(&d.state, DownloaderState::Downloading(v, VersionType::Vanilla) if v == "1.20.1"));
    assert_eq!(d.id, 3);
}

#[test]
fn neoforge_target_prefers_manual_entry() {
    assert_eq!(neoforge_install_target("1.21.1", "  21.1.200 ", "21.1.213"), Some(("1.21.1".into(), "21.1.200".into())));
    assert_eq!(neoforge_install_target("1.21.1", "  ", "21.1.213"), Some(("1.21.1".into(), "21.1.213".into())));
    assert_eq!(neoforge_install_target("", "x", "y"), None);
    assert_eq!(neoforge_install_target("1.21.1", "", ""), None);
}

#[test]
fn neoforge_list_for_one_version() {
    let all = vec![
        ("1.21.1".to_string(), "21.1.213".to_string()),
        ("1.20.2".to_string(), "20.2.59".to_string()),
        ("1.21.1".to_string(), "21.1.200".to_string()),
    ];
    let (v, sel, st) = filter_neoforge_for_mc(&all, "1.21.1");
    assert_eq!(v, vec!["21.1.213".to_string(), "21.1.200".to_string()]);
    assert_eq!(sel, "21.1.213");
    assert_eq!(st, Some(String::new()));
    let (v, sel, st) = filter_neoforge_for_mc(&all, "1.7.10");
    assert!(v.is_empty());
    assert_eq!(sel, "");
    assert_eq!(st, Some("No NeoForge found for 1.7.10. Enter the version manually.".to_string()));
    let (_, _, st) = filter_neoforge_for_mc(&vec![], "");
    assert_eq!(st, None);
}

#[test]
fn java_selection_names() {
    assert_eq!(sanitize_java_name("Java 8 (DgrLauncher)"), "Automatic");
    assert_eq!(sanitize_java_name("System Java"), "System Java");
    assert_eq!(java_type_for_name("Custom"), JavaType::Custom);
    assert_eq!(java_type_for_name("System Java"), JavaType::System);
    assert_eq!(java_type_for_name("whatever"), JavaType::Automatic);
    assert_eq!(effective_java_name(Some("Custom"), "Automatic"), "Custom");
    assert_eq!(effective_java_name(None, "Automatic"), "Automatic");
}

#[test]
fn custom_java_for_a_start() {
    let cfg = Json::Object(vec![
        ("custom_java_path".to_string(), Json::Str("/opt/jdk/bin/java".to_string())),
        ("custom_java_flags".to_string(), Json::Str("-Xss2M".to_string())),
    ]);
    assert_eq!(custom_java_for_launch("Custom", "Custom", "/a", "-f", &cfg), ("/a".to_string(), "-f".to_string()));
    assert_eq!(
        custom_java_for_launch("Custom", "Automatic", "/a", "-f", &cfg),
        ("/opt/jdk/bin/java".to_string(), "-Xss2M".to_string())
    );
    assert_eq!(custom_java_for_launch("Automatic", "Custom", "/a", "-f", &cfg), (String::new(), String::new()));
    assert_eq!(
        launch_blocker("Custom", "  "),
        Some("Set a custom Java path first (Settings > Custom Java).".to_string())
    );
    assert_eq!(launch_blocker("Custom", "/java"), None);
}

#[test]
fn launch_option_texts() {
    assert_eq!(wrapper_commands(""), Vec::<String>::new());
    assert_eq!(wrapper_commands("gamemoderun mangohud"), vec!["gamemoderun".to_string(), "mangohud".to_string()]);
    let mut env = environment_variables("A=1 B=2 junk A=3 C=x=y");
    env.sort();
    assert_eq!(
        env,
        vec![("A".to_string(), "3".to_string()), ("B".to_string(), "2".to_string()), ("C".to_string(), "x".to_string())]
    );
    assert!(environment_variables("").is_empty());
}

#[test]
fn accounts_fall_back_when_missing() {
    let a = |n: &str| Account { microsoft: false, username: n.to_string(), refresh_token: String::new() };
    let list = vec![a("one"), a("two")];
    let (cur, changed) = healed_current_account(a("gone"), &list);
    assert!(changed);
    assert_eq!(cur.username, "one");
    let (cur, changed) = healed_current_account(a("two"), &list);
    assert!(!changed);
    assert_eq!(cur.username, "two");
    let (rest, cur) = remove_account(&list, &a("one"), "one");
    assert_eq!(rest.iter().map(|x| x.username.clone()).collect::<Vec<_>>(), vec!["two".to_string()]);
    assert_eq!(cur.username, "two");
    let (rest, cur) = remove_account(&rest, &a("two"), "two");
    assert!(rest.is_empty());
    assert_eq!(cur.username, "");
}

fn job_parts(job: &InstallJob) -> (String, Option<String>, bool) {
    match job {
        InstallJob::Version(v, VersionType::Vanilla) => (v.clone(), None, false),
        InstallJob::Version(v, VersionType::Fabric { loader }) => (v.clone(), Some(loader.clone()), false),
        InstallJob::NeoForge(mc, nf) => (mc.clone(), Some(nf.clone()), true),
    }
}

#[test]
fn install_request_checks_in_order() {
    let r = install_request("", "bad/name", true, LoaderChoice::Fabric, "", "", "");
    assert_eq!(r.err(), Some(String::from("Select a Minecraft version first.")));
    let r = install_request("1.21.1", " a/b ", false, LoaderChoice::Fabric, "", "", "");
    assert_eq!(r.err(), Some(String::from("Invalid name.")));
    let r = install_request("1.21.1", " Mine ", true, LoaderChoice::Vanilla, "", "", "");
    assert_eq!(r.err(), Some(String::from("A version with this name already exists.")));
    let r = install_request("1.21.1", "  ", true, LoaderChoice::Fabric, "", "", "");
    assert_eq!(r.err(), Some(String::from("Select a Fabric loader version first.")));
    let r = install_request("1.21.1", "", false, LoaderChoice::NeoForge, "  ", "", "");
    assert_eq!(r.err(), Some(String::from("Select a NeoForge version or enter it manually.")));
}

#[test]
fn install_request_names_the_folder() {
    let (job, id) = install_request("1.21.1", "", false, LoaderChoice::Vanilla, "0.16.14", "", "").unwrap();
    assert_eq!(job_parts(&job), (String::from("1.21.1"), None, false));
    assert_eq!(id, "1.21.1");
    let (job, id) = install_request("1.21.1", "My pack", false, LoaderChoice::Fabric, "0.16.14", "", "").unwrap();
    assert_eq!(job_parts(&job), (String::from("1.21.1"), Some(String::from("0.16.14")), false));
    assert_eq!(id, "1.21.1-fabric");
    let (job, id) = install_request("1.21.1", "", false, LoaderChoice::NeoForge, "", " 21.1.77 ", "21.1.80").unwrap();
    assert_eq!(job_parts(&job), (String::from("1.21.1"), Some(String::from("21.1.77")), true));
    assert_eq!(id, "neoforge-21.1.77");
    let (job, _) = install_request("1.21.1", "", false, LoaderChoice::NeoForge, "", "", "21.1.80").unwrap();
    assert_eq!(job_parts(&job), (String::from("1.21.1"), Some(String::from("21.1.80")), true));
}

#[test]
fn loader_switch_by_instance_kind() {
    assert_eq!(
        loader_switch_request(VersionKind::Vanilla, "1.21.1", "x", "").err(),
        Some(String::from("No loader to switch on vanilla."))
    );
    assert_eq!(
        loader_switch_request(VersionKind::Fabric, "1.21.1", "", "").err(),
        Some(String::from("Select a Fabric loader version first."))
    );
    let (job, sel) = loader_switch_request(VersionKind::Fabric, "1.21.1", "0.16.14", "").unwrap();
    assert_eq!(job_parts(&job), (String::from("1.21.1"), Some(String::from("0.16.14")), false));
    assert_eq!(sel, None);
    let (job, sel) = loader_switch_request(VersionKind::NeoForge, "1.21.1", "21.1.80", " 21.1.90").unwrap();
    assert_eq!(job_parts(&job), (String::from("1.21.1"), Some(String::from("21.1.90")), true));
    assert_eq!(sel, Some(String::from("neoforge-21.1.90")));
    assert_eq!(
        loader_switch_request(VersionKind::NeoForge, "1.21.1", "", " ").err(),
        Some(String::from("Select a NeoForge version or enter it manually."))
    );
}

#[test]
fn remembered_install_name_comes_back_when_finished() {
    let pending = vec![
        (String::from("1.20.1"), String::from("Old")),
        (String::from("1.21.1-fabric"), String::from("Earlier")),
    ];
    let pending = remember_install_name(&pending, "1.21.1-fabric", "  Modded  ");
    assert_eq!(
        pending,
        vec![
            (String::from("1.20.1"), String::from("Old")),
            (String::from("1.21.1-fabric"), String::from("Modded")),
        ]
    );
    let (rest, name) = take_install_name(pending, "1.21.1-fabric");
    assert_eq!(name, Some(String::from("Modded")));
    assert_eq!(rest, vec![(String::from("1.20.1"), String::from("Old"))]);
    let (rest, name) = take_install_name(rest, "1.21.1");
    assert_eq!(name, None);
    assert_eq!(rest.len(), 1);
    let same = remember_install_name(&rest, "1.20.1", "1.20.1");
    assert!(same.is_empty());
    let none = remember_install_name(&rest, "1.19", "   ");
    assert_eq!(none, rest);
}

#[test]
fn delete_needs_two_presses_on_the_same_key() {
    let (armed, confirmed) = confirm_press(None, "1.21.1");
    assert_eq!((armed.clone(), confirmed), (Some(String::from("1.21.1")), false));
    let (armed2, confirmed) = confirm_press(armed.clone(), "1.20.1");
    assert_eq!((armed2, confirmed), (Some(String::from("1.20.1")), false));
    let (armed3, confirmed) = confirm_press(armed, "1.21.1");
    assert_eq!((armed3, confirmed), (None, true));
}

#[test]
fn update_confirmation_toggles() {
    assert_eq!(update_toggle(None, "abc", true), Some(String::from("abc")));
    assert_eq!(update_toggle(None, "abc", false), None);
    assert_eq!(update_toggle(Some(String::from("abc")), "abc", true), None);
    assert_eq!(update_toggle(Some(String::from("xyz")), "abc", false), Some(String::from("xyz")));
    assert_eq!(update_toggle(Some(String::from("xyz")), "abc", true), Some(String::from("abc")));
}

#[test]
fn deletion_names_stay_inside_their_folders() {
    assert!(deletable_instance_id("1.21.1-fabric"));
    assert!(!deletable_instance_id(""));
    assert!(!deletable_instance_id("../saves"));
    assert!(!deletable_instance_id("a/b"));
    assert!(!deletable_instance_id("a\\b"));
    assert!(deletable_jar_name("sodium-0.6.jar"));
    assert!(!deletable_jar_name("sodium-0.6.zip"));
    assert!(!deletable_jar_name("../x.jar"));
    assert!(!deletable_jar_name("a\\x.jar"));
}

#[test]
fn page_history_is_bounded() {
    let mut h: Vec<String> = Vec::new();
    for i in 0..25 {
        h = push_history(h, format!("p{i}"));
        assert!(h.len() <= 20);
        assert_eq!(h.last(), Some(&format!("p{i}")));
    }
    assert_eq!(h.len(), 20);
    assert_eq!(h[0], "p5");
    let again = push_history(h.clone(), String::from("p24"));
    assert_eq!(again, h);
}

#[test]
fn dependency_titles_to_fetch() {
    let dep = |p: Option<&str>| ModDependency { project_id: p.map(String::from), dependency_type: String::from("required") };
    let deps = vec![dep(Some("a")), dep(None), dep(Some("b")), dep(Some("a")), dep(Some("c"))];
    assert_eq!(missing_dep_titles(&deps, &vec![String::from("b")]), vec![String::from("a"), String::from("c")]);
    assert!(missing_dep_titles(&Vec::new(), &Vec::new()).is_empty());
}

#[test]
fn update_check_status_texts() {
    assert_eq!(update_checks_started(0, 0), (false, String::from("No mods installed.")));
    assert_eq!(update_checks_started(0, 3), (false, String::from("All mods up to date ✓")));
    assert_eq!(update_checks_started(2, 3), (true, String::from("Checking updates...")));
    assert_eq!(update_check_done(2, true, 1), (1, true, None));
    assert_eq!(update_check_done(1, true, 0), (0, false, Some(String::from("All mods up to date ✓"))));
    assert_eq!(update_check_done(1, true, 3), (0, false, Some(String::from("3 update(s) available"))));
    assert_eq!(update_check_done(0, false, 3), (0, false, None));
    assert_eq!(update_check_done(0, true, 12), (0, false, Some(String::from("12 update(s) available"))));
}

#[test]
fn account_picked_by_name() {
    let accounts = vec![
        Account { microsoft: true, username: String::from("Alex"), refresh_token: String::from("t1") },
        Account { microsoft: false, username: String::from("Alex"), refresh_token: String::new() },
        Account { microsoft: false, username: String::from("Steve"), refresh_token: String::new() },
    ];
    let a = account_named(&accounts, "Alex").unwrap();
    assert!(a.microsoft);
    assert_eq!(a.refresh_token, "t1");
    assert_eq!(account_named(&accounts, "Steve").unwrap().username, "Steve");
    assert!(account_named(&accounts, "Herobrine").is_none());
}

use dgrlauncher::downloader::VersionType;
use dgrlauncher::instances::VersionKind;
use dgrlauncher::session::{InstallJob, LoaderChoice, ModStoreTab, Screen};
use dgrlauncher::window::{delete_armed, main_screen, update, Action, Message, PlayPress, Window};

fn fresh() -> Window {
    Window {
        screen: Screen::Main,
        current_version: String::from("1.21.1"),
        delete_confirm: None,
        notice_seq: 3,
        download_text: String::from("Version installed successfully."),
        neoforge_status: String::from("done"),
        modstore_status: String::from("Installed"),
        instance_settings_status: String::new(),
        il_status: String::from("Switched"),
        modstore_query: String::new(),
        modstore_search_seq: 0,
        modstore_tab: ModStoreTab::Store,
        modstore_history: Vec::new(),
        modstore_page: None,
        modstore_delete_confirm: None,
        modstore_update_confirm: None,
        modstore_update_ids: vec![String::from("sodium")],
        game_running: false,
        install_mc_version: String::from("1.21.1"),
        install_name: String::new(),
        install_loader: LoaderChoice::Vanilla,
        fabric_loader_selected: String::new(),
        neoforge_manual: String::new(),
        neoforge_selected: String::new(),
        il_selected: String::new(),
        il_manual: String::new(),
        pending_install_names: Vec::new(),
        pending_neoforge_install: None,
        pending_loader_switch: None,
        all_versions: Vec::new(),
        modstore_pending_checks: 0,
        modstore_check_manual: false,
    }
}

#[test]
fn stale_notice_timer_keeps_newer_notices() {
    let mut w = fresh();
    assert!(matches!(update(&mut w, Message::ClearNotices(2)), Action::Nothing));
    assert_eq!(w.download_text, "Version installed successfully.");
    assert!(matches!(update(&mut w, Message::ClearNotices(3)), Action::Nothing));
    assert_eq!(w.download_text, "");
    assert_eq!(w.neoforge_status, "");
    assert_eq!(w.modstore_status, "");
    assert_eq!(w.il_status, "");
}

#[test]
fn stale_debounced_search_is_dropped() {
    let mut w = fresh();
    match update(&mut w, Message::ModStoreQueryChanged(String::from("sod"))) {
        Action::SearchLater(n, q) => assert_eq!((n, q.as_str()), (1, "sod")),
        _ => panic!("expected a delayed search"),
    }
    let _ = update(&mut w, Message::ModStoreQueryChanged(String::from("sodium")));
    assert_eq!(w.modstore_search_seq, 2);
    assert!(matches!(update(&mut w, Message::ModStoreSearchDebounced(1, String::from("sod"))), Action::Nothing));
    assert_eq!(w.modstore_status, "Installed");
    match update(&mut w, Message::ModStoreSearchDebounced(2, String::from("sodium"))) {
        Action::Search(q) => assert_eq!(q, "sodium"),
        _ => panic!("expected a search"),
    }
    assert_eq!(w.modstore_status, "Searching...");
    let _ = update(&mut w, Message::ModStoreTabChanged(ModStoreTab::Installed));
    assert!(matches!(update(&mut w, Message::ModStoreQueryChanged(String::from("x"))), Action::Nothing));
    assert!(matches!(update(&mut w, Message::ModStoreSearchDebounced(3, String::from("x"))), Action::Nothing));
    match update(&mut w, Message::ModStoreSearch) {
        Action::Search(q) => assert_eq!(q, "x"),
        _ => panic!("expected a search"),
    }
    assert!(matches!(w.modstore_tab, ModStoreTab::Store));
}

#[test]
fn instance_deleted_on_second_press_only() {
    let mut w = fresh();
    assert!(matches!(update(&mut w, Message::DeleteInstancePressed(String::from("1.21.1"))), Action::Nothing));
    assert!(delete_armed(&w, "1.21.1"));
    assert!(!delete_armed(&w, "1.20.1"));
    match update(&mut w, Message::DeleteInstancePressed(String::from("1.21.1"))) {
        Action::DeleteInstance(id) => assert_eq!(id, "1.21.1"),
        _ => panic!("expected a deletion"),
    }
    assert_eq!(w.current_version, "");
    assert_eq!(w.delete_confirm, None);
    let _ = update(&mut w, Message::DeleteInstancePressed(String::from("../x")));
    assert!(matches!(update(&mut w, Message::DeleteInstancePressed(String::from("../x"))), Action::ReloadVersions));
    let _ = update(&mut w, Message::DeleteInstancePressed(String::from("a")));
    let _ = update(&mut w, Message::VersionChanged(String::from("b")));
    assert_eq!(w.delete_confirm, None);
}

#[test]
fn mod_pages_remember_the_way_back() {
    let mut w = fresh();
    assert!(matches!(update(&mut w, Message::OpenModPage(String::from("a"))), Action::FetchModPage(_)));
    assert!(w.modstore_history.is_empty());
    let _ = update(&mut w, Message::ModPageLoaded(String::from("a")));
    let _ = update(&mut w, Message::OpenModPage(String::from("b")));
    assert_eq!(w.modstore_history, vec![String::from("a")]);
    match update(&mut w, Message::ModPageBack) {
        Action::FetchModPage(p) => assert_eq!(p, "a"),
        _ => panic!("expected the previous page"),
    }
    assert!(w.modstore_history.is_empty());
    assert!(matches!(update(&mut w, Message::ModPageBack), Action::ShowStore));
    assert!(matches!(w.screen, Screen::ModStore));
}

#[test]
fn mod_deletions_and_update_confirmation() {
    let mut w = fresh();
    let _ = update(&mut w, Message::ModUpdatePressed(String::from("sodium")));
    assert_eq!(w.modstore_update_confirm, Some(String::from("sodium")));
    let _ = update(&mut w, Message::ModUpdatePressed(String::from("lithium")));
    assert_eq!(w.modstore_update_confirm, Some(String::from("sodium")));
    let _ = update(&mut w, Message::ModDeletePressed(String::from("sodium")));
    match update(&mut w, Message::ModDeletePressed(String::from("sodium"))) {
        Action::DeleteMod(p, n) => assert_eq!((p.as_str(), n), ("sodium", 4)),
        _ => panic!("expected a deletion"),
    }
    assert_eq!(w.modstore_update_confirm, None);
    assert!(w.modstore_update_ids.is_empty());
    let _ = update(&mut w, Message::ModLocalFileDelete(String::from("x.jar")));
    assert_eq!(w.modstore_delete_confirm, Some(String::from("file:x.jar")));
    match update(&mut w, Message::ModLocalFileDelete(String::from("x.jar"))) {
        Action::DeleteModFile(f, n) => assert_eq!((f.as_str(), n), ("x.jar", 5)),
        _ => panic!("expected a file deletion"),
    }
    let _ = update(&mut w, Message::ModLocalFileDelete(String::from("a/x.jar")));
    assert!(matches!(update(&mut w, Message::ModLocalFileDelete(String::from("a/x.jar"))), Action::RefreshModFiles(6)));
}

#[test]
fn main_screen_buttons() {
    let mut w = fresh();
    let s = main_screen(&w, true, 1);
    assert!(matches!(s.play, Some(PlayPress::Launch)));
    assert!(s.store_enabled && s.instance_folder_enabled && s.instance_settings_enabled && !s.no_accounts_hint);
    assert!(!main_screen(&w, false, 0).store_enabled);
    assert!(main_screen(&w, false, 0).no_accounts_hint);
    let _ = update(&mut w, Message::GameStarted);
    assert!(matches!(main_screen(&w, true, 1).play, Some(PlayPress::CloseGame)));
    assert!(matches!(update(&mut w, Message::CloseGame), Action::KillGame));
    let _ = update(&mut w, Message::GameFinished);
    w.current_version = String::new();
    let s = main_screen(&w, true, 1);
    assert!(s.play.is_none() && !s.store_enabled && !s.instance_folder_enabled);
}

#[test]
fn install_requests_and_their_names() {
    let mut w = fresh();
    w.install_mc_version = String::new();
    w.pending_loader_switch = Some(String::from("x"));
    assert!(matches!(update(&mut w, Message::InstallPressed(false)), Action::ClearNoticesLater(4)));
    assert_eq!(w.download_text, "Select a Minecraft version first.");
    assert_eq!(w.pending_loader_switch, None);
    w.install_mc_version = String::from("1.21.1");
    w.install_loader = LoaderChoice::NeoForge;
    assert!(matches!(update(&mut w, Message::InstallPressed(false)), Action::ClearNoticesLater(5)));
    assert_eq!(w.neoforge_status, "Select a NeoForge version or enter it manually.");
    w.install_loader = LoaderChoice::Fabric;
    w.fabric_loader_selected = String::from("0.16.14");
    w.install_name = String::from(" My Pack ");
    match update(&mut w, Message::InstallPressed(false)) {
        Action::Install(InstallJob::Version(v, VersionType::Fabric { loader })) => {
            assert_eq!((v.as_str(), loader.as_str()), ("1.21.1", "0.16.14"))
        }
        _ => panic!("expected a Fabric install"),
    }
    assert_eq!(w.pending_install_names, vec![(String::from("1.21.1-fabric"), String::from("My Pack"))]);
    match update(&mut w, Message::InstallFinished(Some(String::from("1.21.1-fabric")))) {
        Action::InstallDone(rename, neoforge, 6) => {
            assert_eq!(rename, Some((String::from("1.21.1-fabric"), String::from("My Pack"))));
            assert_eq!(neoforge, None);
        }
        _ => panic!("expected the end of the install"),
    }
    assert!(w.pending_install_names.is_empty());
    assert_eq!(w.download_text, "Version installed successfully.");
}

#[test]
fn neoforge_install_waits_for_vanilla_files() {
    let mut w = fresh();
    w.install_loader = LoaderChoice::NeoForge;
    w.neoforge_selected = String::from("21.1.213");
    w.install_name = String::from("Forge Pack");
    match update(&mut w, Message::InstallPressed(false)) {
        Action::Install(InstallJob::Version(v, VersionType::Vanilla)) => assert_eq!(v, "1.21.1"),
        _ => panic!("expected the vanilla files first"),
    }
    assert_eq!(w.pending_neoforge_install, Some((String::from("1.21.1"), String::from("21.1.213"))));
    match update(&mut w, Message::InstallFinished(Some(String::from("1.21.1")))) {
        Action::InstallDone(None, Some(nf), _) => assert_eq!(nf.1, "21.1.213"),
        _ => panic!("expected the installer next"),
    }
    match update(&mut w, Message::NeoForgeFinished) {
        Action::NeoForgeDone(rename, _) => {
            assert_eq!(rename, Some((String::from("neoforge-21.1.213"), String::from("Forge Pack"))))
        }
        _ => panic!("expected the end of NeoForge"),
    }
    assert_eq!(w.pending_neoforge_install, None);
    assert_eq!(w.neoforge_status, "NeoForge installed successfully.");
    w.pending_neoforge_install = Some((String::from("1.21.1"), String::from("x")));
    assert!(matches!(update(&mut w, Message::InstallFailed(String::from("offline"))), Action::ClearNoticesLater(_)));
    assert_eq!(w.download_text, "Failed to install: offline");
    assert_eq!(w.pending_neoforge_install, None);
}

#[test]
fn loader_switch_selects_the_new_folder() {
    let mut w = fresh();
    assert!(matches!(update(&mut w, Message::InstanceLoaderApply(VersionKind::Vanilla, String::from("1.21.1"))), Action::Nothing));
    assert_eq!(w.il_status, "No loader to switch on vanilla.");
    assert!(matches!(update(&mut w, Message::InstanceLoaderApply(VersionKind::Fabric, String::from("1.21.1"))), Action::ClearNoticesLater(_)));
    w.il_selected = String::from("0.16.14");
    assert!(matches!(update(&mut w, Message::InstanceLoaderApply(VersionKind::Fabric, String::from("1.21.1"))), Action::Install(_)));
    assert_eq!(w.il_status, "Downloading Fabric 0.16.14... (progress on Installation screen)");
    w.il_manual = String::from("21.1.220");
    assert!(matches!(update(&mut w, Message::InstanceLoaderApply(VersionKind::NeoForge, String::from("1.21.1"))), Action::Install(_)));
    assert_eq!(w.pending_loader_switch, Some(String::from("neoforge-21.1.220")));
    let _ = update(&mut w, Message::NeoForgeFinished);
    assert_eq!(w.current_version, "neoforge-21.1.220");
    assert_eq!(w.il_status, "Switched to neoforge-21.1.220.");
    assert_eq!(w.pending_loader_switch, None);
}

#[test]
fn version_list_and_search_answers() {
    let mut w = fresh();
    let _ = update(&mut w, Message::LoadVersionList(vec![String::from("only")]));
    assert_eq!(w.current_version, "only");
    let _ = update(&mut w, Message::LoadVersionList(vec![String::from("a"), String::from("b")]));
    assert_eq!(w.current_version, "only");
    assert_eq!(w.all_versions.len(), 2);
    let _ = update(&mut w, Message::GotModSearch(Ok(0)));
    assert_eq!(w.modstore_status, "Nothing found. Try another query.");
    let _ = update(&mut w, Message::GotModSearch(Ok(3)));
    assert_eq!(w.modstore_status, "");
    assert!(matches!(update(&mut w, Message::GotModSearch(Err(String::from("offline")))), Action::ClearNoticesLater(4)));
    assert_eq!(w.modstore_status, "offline");
}

#[test]
fn update_checks_report_when_all_answered() {
    let mut w = fresh();
    w.modstore_update_ids = Vec::new();
    assert!(matches!(update(&mut w, Message::ModCheckUpdates(0)), Action::ClearNoticesLater(4)));
    assert_eq!(w.modstore_status, "No mods installed.");
    assert!(matches!(update(&mut w, Message::ModCheckUpdates(2)), Action::CheckUpdates));
    assert_eq!((w.modstore_pending_checks, w.modstore_check_manual), (2, true));
    assert!(matches!(update(&mut w, Message::ModUpdateChecked(String::from("a"), true)), Action::Nothing));
    let _ = update(&mut w, Message::ModUpdateChecked(String::from("a"), true));
    assert_eq!(w.modstore_status, "1 update(s) available");
    assert!(!w.modstore_check_manual);
    assert_eq!(w.modstore_update_ids, vec![String::from("a")]);
    let _ = update(&mut w, Message::ModUpdateChecked(String::from("a"), false));
    assert!(w.modstore_update_ids.is_empty());
    w.current_version = String::new();
    assert!(matches!(update(&mut w, Message::ModCheckUpdates(5)), Action::Nothing));
}

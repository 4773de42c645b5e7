//! The launcher window as a state machine: its state, the messages it
//! receives, the work each message asks the outside to do, and what the
//! main screen offers.
use vstd::prelude::*;
use crate::text;
use crate::text::string_views;
use crate::session::{
    Screen, ModStoreTab, opt_view, confirm_spec, confirm_press, deletable_instance_id, deletable_instance_id_spec,
    deletable_jar_name, deletable_jar_spec, pushed_history, push_history, update_toggle, update_toggle_spec, has_view,
    LoaderChoice, InstallJob, InstallPlan, install_request, install_request_spec, loader_switch_request, loader_switch_spec,
    remember_install_name, remembered_spec, take_install_name, taken_name_spec,
};
use crate::downloader::VersionType;
use crate::instances::VersionKind;

verus! {

/// What the window keeps between messages.
pub struct Window {
    pub screen: Screen,
    /// Selected installed version (empty when none).
    pub current_version: String,
    /// Version whose delete button was pressed once.
    pub delete_confirm: Option<String>,
    /// Number of the latest notice; a clearing timer carries the number
    /// of the notice it was started for.
    pub notice_seq: u32,
    pub download_text: String,
    pub neoforge_status: String,
    pub modstore_status: String,
    pub instance_settings_status: String,
    pub il_status: String,
    pub modstore_query: String,
    /// Number of the latest search request of the mod store.
    pub modstore_search_seq: u32,
    pub modstore_tab: ModStoreTab,
    /// Mod pages the Back button returns through.
    pub modstore_history: Vec<String>,
    /// Project of the mod page shown, once loaded.
    pub modstore_page: Option<String>,
    pub modstore_delete_confirm: Option<String>,
    pub modstore_update_confirm: Option<String>,
    /// Projects with a known update.
    pub modstore_update_ids: Vec<String>,
    pub game_running: bool,
    /// Installer menu: Minecraft version, custom name, loader and its
    /// choices.
    pub install_mc_version: String,
    pub install_name: String,
    pub install_loader: LoaderChoice,
    pub fabric_loader_selected: String,
    pub neoforge_manual: String,
    pub neoforge_selected: String,
    /// Loader switch of the instance settings: selected and typed-in
    /// loader versions.
    pub il_selected: String,
    pub il_manual: String,
    /// Custom names waiting for their installs (folder id, name).
    pub pending_install_names: Vec<(String, String)>,
    /// NeoForge install waiting for its vanilla files (Minecraft version,
    /// NeoForge version).
    pub pending_neoforge_install: Option<(String, String)>,
    /// Folder to select once a loader switch is installed.
    pub pending_loader_switch: Option<String>,
    /// Installed versions listed on the main screen.
    pub all_versions: Vec<String>,
    /// Mod update checks still running, and whether the user asked for
    /// them (then their end is reported).
    pub modstore_pending_checks: u32,
    pub modstore_check_manual: bool,
}

/// Plain-text form of the window state.
#[verifier::ext_equal]
pub struct WindowView {
    pub screen: Screen,
    pub current_version: Seq<char>,
    pub delete_confirm: Option<Seq<char>>,
    pub notice_seq: u32,
    pub download_text: Seq<char>,
    pub neoforge_status: Seq<char>,
    pub modstore_status: Seq<char>,
    pub instance_settings_status: Seq<char>,
    pub il_status: Seq<char>,
    pub modstore_query: Seq<char>,
    pub modstore_search_seq: u32,
    pub modstore_tab: ModStoreTab,
    pub modstore_history: Seq<Seq<char>>,
    pub modstore_page: Option<Seq<char>>,
    pub modstore_delete_confirm: Option<Seq<char>>,
    pub modstore_update_confirm: Option<Seq<char>>,
    pub modstore_update_ids: Seq<Seq<char>>,
    pub game_running: bool,
    pub install_mc_version: Seq<char>,
    pub install_name: Seq<char>,
    pub install_loader: LoaderChoice,
    pub fabric_loader_selected: Seq<char>,
    pub neoforge_manual: Seq<char>,
    pub neoforge_selected: Seq<char>,
    pub il_selected: Seq<char>,
    pub il_manual: Seq<char>,
    pub pending_install_names: Seq<(Seq<char>, Seq<char>)>,
    pub pending_neoforge_install: Option<(Seq<char>, Seq<char>)>,
    pub pending_loader_switch: Option<Seq<char>>,
    pub all_versions: Seq<Seq<char>>,
    pub modstore_pending_checks: u32,
    pub modstore_check_manual: bool,
}

pub open spec fn pair_opt_view(o: Option<(String, String)>) -> Option<(Seq<char>, Seq<char>)> {
    match o {
        Some(p) => Some((p.0@, p.1@)),
        None => None,
    }
}

impl View for Window {
    type V = WindowView;

    open spec fn view(&self) -> WindowView {
        WindowView {
            screen: self.screen,
            current_version: self.current_version@,
            delete_confirm: opt_view(self.delete_confirm),
            notice_seq: self.notice_seq,
            download_text: self.download_text@,
            neoforge_status: self.neoforge_status@,
            modstore_status: self.modstore_status@,
            instance_settings_status: self.instance_settings_status@,
            il_status: self.il_status@,
            modstore_query: self.modstore_query@,
            modstore_search_seq: self.modstore_search_seq,
            modstore_tab: self.modstore_tab,
            modstore_history: string_views(self.modstore_history@),
            modstore_page: opt_view(self.modstore_page),
            modstore_delete_confirm: opt_view(self.modstore_delete_confirm),
            modstore_update_confirm: opt_view(self.modstore_update_confirm),
            modstore_update_ids: string_views(self.modstore_update_ids@),
            game_running: self.game_running,
            install_mc_version: self.install_mc_version@,
            install_name: self.install_name@,
            install_loader: self.install_loader,
            fabric_loader_selected: self.fabric_loader_selected@,
            neoforge_manual: self.neoforge_manual@,
            neoforge_selected: self.neoforge_selected@,
            il_selected: self.il_selected@,
            il_manual: self.il_manual@,
            pending_install_names: text::pair_views(self.pending_install_names@),
            pending_neoforge_install: pair_opt_view(self.pending_neoforge_install),
            pending_loader_switch: opt_view(self.pending_loader_switch),
            all_versions: string_views(self.all_versions@),
            modstore_pending_checks: self.modstore_pending_checks,
            modstore_check_manual: self.modstore_check_manual,
        }
    }
}

/// Messages of the window.
pub enum Message {
    /// A notice timer ran out (the notice number it was started for).
    ClearNotices(u32),
    ModStoreQueryChanged(String),
    /// The pause after typing ran out (search number and query then).
    ModStoreSearchDebounced(u32, String),
    ModStoreSearch,
    ModStoreTabChanged(ModStoreTab),
    VersionChanged(String),
    DeleteInstancePressed(String),
    OpenModPage(String),
    ModPageLoaded(String),
    ModPageBack,
    ModDeletePressed(String),
    ModLocalFileDelete(String),
    ModUpdatePressed(String),
    GameStarted,
    GameFinished,
    CloseGame,
    /// The Install button (`bool`: a version of the custom name exists).
    InstallPressed(bool),
    /// An install finished (the version folder it produced, if known).
    InstallFinished(Option<String>),
    NeoForgeFinished,
    InstallFailed(String),
    /// The Apply button of the loader switch (kind and Minecraft version
    /// of the selected instance).
    InstanceLoaderApply(VersionKind, String),
    /// The installed versions were listed.
    LoadVersionList(Vec<String>),
    /// A catalog search answered: the number of results, or the error.
    GotModSearch(Result<usize, String>),
    /// The update check button (number of installed mods).
    ModCheckUpdates(usize),
    /// One update check answered: whether the mod has an update.
    ModUpdateChecked(String, bool),
}

pub enum MessageView {
    ClearNotices(u32),
    ModStoreQueryChanged(Seq<char>),
    ModStoreSearchDebounced(u32, Seq<char>),
    ModStoreSearch,
    ModStoreTabChanged(ModStoreTab),
    VersionChanged(Seq<char>),
    DeleteInstancePressed(Seq<char>),
    OpenModPage(Seq<char>),
    ModPageLoaded(Seq<char>),
    ModPageBack,
    ModDeletePressed(Seq<char>),
    ModLocalFileDelete(Seq<char>),
    ModUpdatePressed(Seq<char>),
    GameStarted,
    GameFinished,
    CloseGame,
    InstallPressed(bool),
    InstallFinished(Option<Seq<char>>),
    NeoForgeFinished,
    InstallFailed(Seq<char>),
    InstanceLoaderApply(VersionKind, Seq<char>),
    LoadVersionList(Seq<Seq<char>>),
    GotModSearch(Result<usize, Seq<char>>),
    ModCheckUpdates(usize),
    ModUpdateChecked(Seq<char>, bool),
}

impl View for Message {
    type V = MessageView;

    open spec fn view(&self) -> MessageView {
        match self {
            Message::ClearNotices(n) => MessageView::ClearNotices(*n),
            Message::ModStoreQueryChanged(q) => MessageView::ModStoreQueryChanged(q@),
            Message::ModStoreSearchDebounced(n, q) => MessageView::ModStoreSearchDebounced(*n, q@),
            Message::ModStoreSearch => MessageView::ModStoreSearch,
            Message::ModStoreTabChanged(t) => MessageView::ModStoreTabChanged(*t),
            Message::VersionChanged(v) => MessageView::VersionChanged(v@),
            Message::DeleteInstancePressed(v) => MessageView::DeleteInstancePressed(v@),
            Message::OpenModPage(p) => MessageView::OpenModPage(p@),
            Message::ModPageLoaded(p) => MessageView::ModPageLoaded(p@),
            Message::ModPageBack => MessageView::ModPageBack,
            Message::ModDeletePressed(p) => MessageView::ModDeletePressed(p@),
            Message::ModLocalFileDelete(f) => MessageView::ModLocalFileDelete(f@),
            Message::ModUpdatePressed(p) => MessageView::ModUpdatePressed(p@),
            Message::GameStarted => MessageView::GameStarted,
            Message::GameFinished => MessageView::GameFinished,
            Message::CloseGame => MessageView::CloseGame,
            Message::InstallPressed(t) => MessageView::InstallPressed(*t),
            Message::InstallFinished(id) => MessageView::InstallFinished(opt_view(*id)),
            Message::NeoForgeFinished => MessageView::NeoForgeFinished,
            Message::InstallFailed(e) => MessageView::InstallFailed(e@),
            Message::InstanceLoaderApply(k, mc) => MessageView::InstanceLoaderApply(*k, mc@),
            Message::LoadVersionList(v) => MessageView::LoadVersionList(string_views(v@)),
            Message::GotModSearch(r) => MessageView::GotModSearch(match r {
                Ok(n) => Ok(*n),
                Err(e) => Err(e@),
            }),
            Message::ModCheckUpdates(n) => MessageView::ModCheckUpdates(*n),
            Message::ModUpdateChecked(p, b) => MessageView::ModUpdateChecked(p@, *b),
        }
    }
}

/// Work a message asks of the outside.
pub enum Action {
    Nothing,
    /// Send `ClearNotices` with this number after a while.
    ClearNoticesLater(u32),
    /// Send `ModStoreSearchDebounced` with this number and query after a
    /// short pause.
    SearchLater(u32, String),
    /// Search the catalog now.
    Search(String),
    /// List the installed mods of the selected instance.
    ListInstalled,
    /// Delete the version folder and instance folder of this version,
    /// then reload the versions.
    DeleteInstance(String),
    /// Reload the installed versions.
    ReloadVersions,
    /// Fetch a mod page.
    FetchModPage(String),
    /// Show the catalog again at its scroll position.
    ShowStore,
    /// Delete an installed mod, then clear notices later (number).
    DeleteMod(String, u32),
    /// Delete a hand-added jar, then clear notices later (number).
    DeleteModFile(String, u32),
    /// Refresh the hand-added jars, then clear notices later (number).
    RefreshModFiles(u32),
    /// Stop the running game.
    KillGame,
    /// Install a version (vanilla or Fabric).
    Install(InstallJob),
    /// An install is done: rename its folder to the custom name (folder,
    /// name) when one was remembered, start the NeoForge installer when
    /// one waits (Minecraft version, NeoForge version), and clear notices
    /// later (number).
    InstallDone(Option<(String, String)>, Option<(String, String)>, u32),
    /// NeoForge is installed: rename its folder when a custom name was
    /// remembered, reload the versions, and clear notices later (number).
    NeoForgeDone(Option<(String, String)>, u32),
    /// Ask Modrinth for the updates of the installed mods.
    CheckUpdates,
}

pub enum ActionView {
    Nothing,
    ClearNoticesLater(u32),
    SearchLater(u32, Seq<char>),
    Search(Seq<char>),
    ListInstalled,
    DeleteInstance(Seq<char>),
    ReloadVersions,
    FetchModPage(Seq<char>),
    ShowStore,
    DeleteMod(Seq<char>, u32),
    DeleteModFile(Seq<char>, u32),
    RefreshModFiles(u32),
    KillGame,
    Install(InstallPlan),
    InstallDone(Option<(Seq<char>, Seq<char>)>, Option<(Seq<char>, Seq<char>)>, u32),
    NeoForgeDone(Option<(Seq<char>, Seq<char>)>, u32),
    CheckUpdates,
}

impl View for Action {
    type V = ActionView;

    open spec fn view(&self) -> ActionView {
        match self {
            Action::Nothing => ActionView::Nothing,
            Action::ClearNoticesLater(n) => ActionView::ClearNoticesLater(*n),
            Action::SearchLater(n, q) => ActionView::SearchLater(*n, q@),
            Action::Search(q) => ActionView::Search(q@),
            Action::ListInstalled => ActionView::ListInstalled,
            Action::DeleteInstance(v) => ActionView::DeleteInstance(v@),
            Action::ReloadVersions => ActionView::ReloadVersions,
            Action::FetchModPage(p) => ActionView::FetchModPage(p@),
            Action::ShowStore => ActionView::ShowStore,
            Action::DeleteMod(p, n) => ActionView::DeleteMod(p@, *n),
            Action::DeleteModFile(f, n) => ActionView::DeleteModFile(f@, *n),
            Action::RefreshModFiles(n) => ActionView::RefreshModFiles(*n),
            Action::KillGame => ActionView::KillGame,
            Action::Install(j) => ActionView::Install(j@),
            Action::InstallDone(r, n, seq) => ActionView::InstallDone(pair_opt_view(*r), pair_opt_view(*n), *seq),
            Action::NeoForgeDone(r, seq) => ActionView::NeoForgeDone(pair_opt_view(*r), *seq),
            Action::CheckUpdates => ActionView::CheckUpdates,
        }
    }
}

/// Keeps the texts other than `t`.
pub open spec fn other_than(t: Seq<char>) -> spec_fn(Seq<char>) -> bool {
    |p: Seq<char>| p != t
}

/// The number after `n`, wrapping to 0.
pub open spec fn next_seq(n: u32) -> u32 {
    if n == u32::MAX {
        0
    } else {
        (n + 1) as u32
    }
}

fn next_number(n: u32) -> (r: u32)
    ensures
        r == next_seq(n),
{
    if n == u32::MAX {
        0
    } else {
        n + 1
    }
}

/// The window after a message, and the work it asks for.
///  - A notice timer clears the notices only when no newer notice came
///    since it was started.
///  - Typing a query starts a new search number; in the catalog tab the
///    search waits a moment. A waited search runs only when it is still
///    the latest, the catalog tab is open and the query is unchanged;
///    otherwise nothing changes.
///  - An instance or a mod is deleted on the second press on its button
///    only; an instance only when its name stays inside its folders.
///  - Opening a mod page from another one records that page for Back.
pub open spec fn update_spec(w: WindowView, m: MessageView) -> (WindowView, ActionView) {
    match m {
        MessageView::ClearNotices(seq) => if seq == w.notice_seq {
            (WindowView {
                download_text: Seq::empty(),
                neoforge_status: Seq::empty(),
                modstore_status: Seq::empty(),
                instance_settings_status: Seq::empty(),
                il_status: Seq::empty(),
                ..w
            }, ActionView::Nothing)
        } else {
            (w, ActionView::Nothing)
        },
        MessageView::ModStoreQueryChanged(q) => {
            let seq = next_seq(w.modstore_search_seq);
            let w2 = WindowView { modstore_query: q, modstore_search_seq: seq, ..w };
            if w.modstore_tab == ModStoreTab::Store {
                (w2, ActionView::SearchLater(seq, q))
            } else {
                (w2, ActionView::Nothing)
            }
        },
        MessageView::ModStoreSearchDebounced(seq, q) => if seq != w.modstore_search_seq || w.modstore_tab != ModStoreTab::Store
            || q != w.modstore_query {
            (w, ActionView::Nothing)
        } else {
            (WindowView { modstore_status: "Searching..."@, ..w }, ActionView::Search(q))
        },
        MessageView::ModStoreSearch => (
            WindowView {
                modstore_tab: ModStoreTab::Store,
                modstore_search_seq: next_seq(w.modstore_search_seq),
                modstore_status: "Searching..."@,
                ..w
            },
            ActionView::Search(w.modstore_query),
        ),
        MessageView::ModStoreTabChanged(t) => (
            WindowView { modstore_tab: t, modstore_delete_confirm: None, ..w },
            if t == ModStoreTab::Installed { ActionView::ListInstalled } else { ActionView::Nothing },
        ),
        MessageView::VersionChanged(v) => (WindowView { current_version: v, delete_confirm: None, ..w }, ActionView::Nothing),
        MessageView::DeleteInstancePressed(id) => {
            let (armed, confirmed) = confirm_spec(w.delete_confirm, id);
            if confirmed {
                (
                    WindowView {
                        delete_confirm: armed,
                        current_version: if w.current_version == id { Seq::empty() } else { w.current_version },
                        ..w
                    },
                    if deletable_instance_id_spec(id) { ActionView::DeleteInstance(id) } else { ActionView::ReloadVersions },
                )
            } else {
                (WindowView { delete_confirm: armed, ..w }, ActionView::Nothing)
            }
        },
        MessageView::OpenModPage(id) => {
            let history = match w.modstore_page {
                Some(back_to) => if w.screen == Screen::ModPage {
                    pushed_history(w.modstore_history, back_to)
                } else {
                    w.modstore_history
                },
                None => w.modstore_history,
            };
            (
                WindowView {
                    screen: Screen::ModPage,
                    modstore_history: history,
                    modstore_page: None,
                    modstore_delete_confirm: None,
                    modstore_status: "Loading mod page..."@,
                    ..w
                },
                ActionView::FetchModPage(id),
            )
        },
        MessageView::ModPageLoaded(id) => (WindowView { modstore_page: Some(id), modstore_status: Seq::empty(), ..w }, ActionView::Nothing),
        MessageView::ModPageBack => if w.modstore_history.len() > 0 {
            (
                WindowView {
                    screen: Screen::ModPage,
                    modstore_history: w.modstore_history.drop_last(),
                    modstore_page: None,
                    modstore_delete_confirm: None,
                    modstore_status: "Loading mod page..."@,
                    ..w
                },
                ActionView::FetchModPage(w.modstore_history.last()),
            )
        } else {
            (WindowView { screen: Screen::ModStore, ..w }, ActionView::ShowStore)
        },
        MessageView::ModDeletePressed(pid) => {
            let (armed, confirmed) = confirm_spec(w.modstore_delete_confirm, pid);
            if confirmed {
                let seq = next_seq(w.notice_seq);
                (
                    WindowView {
                        modstore_delete_confirm: armed,
                        modstore_update_confirm: if w.modstore_update_confirm == Some(pid) { None } else { w.modstore_update_confirm },
                        modstore_update_ids: w.modstore_update_ids.filter(other_than(pid)),
                        notice_seq: seq,
                        ..w
                    },
                    ActionView::DeleteMod(pid, seq),
                )
            } else {
                (WindowView { modstore_delete_confirm: armed, ..w }, ActionView::Nothing)
            }
        },
        MessageView::ModLocalFileDelete(name) => {
            let (armed, confirmed) = confirm_spec(w.modstore_delete_confirm, "file:"@ + name);
            if confirmed {
                let seq = next_seq(w.notice_seq);
                (
                    WindowView { modstore_delete_confirm: armed, notice_seq: seq, ..w },
                    if deletable_jar_spec(name) { ActionView::DeleteModFile(name, seq) } else { ActionView::RefreshModFiles(seq) },
                )
            } else {
                (WindowView { modstore_delete_confirm: armed, ..w }, ActionView::Nothing)
            }
        },
        MessageView::ModUpdatePressed(pid) => (
            WindowView {
                modstore_update_confirm: update_toggle_spec(w.modstore_update_confirm, pid, w.modstore_update_ids.contains(pid)),
                ..w
            },
            ActionView::Nothing,
        ),
        MessageView::GameStarted => (WindowView { game_running: true, ..w }, ActionView::Nothing),
        MessageView::GameFinished => (WindowView { game_running: false, ..w }, ActionView::Nothing),
        MessageView::CloseGame => (w, ActionView::KillGame),
        MessageView::InstallPressed(taken) => install_pressed_spec(w, taken),
        MessageView::InstallFinished(id) => {
            let seq = next_seq(w.notice_seq);
            let (names, rename) = taken_for(w.pending_install_names, id);
            (
                WindowView {
                    download_text: "Version installed successfully."@,
                    notice_seq: seq,
                    pending_install_names: names,
                    ..w
                },
                ActionView::InstallDone(rename, w.pending_neoforge_install, seq),
            )
        },
        MessageView::NeoForgeFinished => neoforge_finished_spec(w),
        MessageView::InstallFailed(e) => {
            let seq = next_seq(w.notice_seq);
            (
                WindowView {
                    download_text: "Failed to install: "@ + e,
                    neoforge_status: "Failed to install: "@ + e,
                    pending_neoforge_install: None,
                    notice_seq: seq,
                    ..w
                },
                ActionView::ClearNoticesLater(seq),
            )
        },
        MessageView::InstanceLoaderApply(kind, base_mc) => loader_apply_spec(w, kind, base_mc),
        MessageView::LoadVersionList(list) => (
            WindowView {
                all_versions: list,
                current_version: if list.len() == 1 { list[0] } else { w.current_version },
                ..w
            },
            ActionView::Nothing,
        ),
        MessageView::GotModSearch(r) => match r {
            Ok(n) => (
                WindowView { modstore_status: if n == 0 { "Nothing found. Try another query."@ } else { Seq::empty() }, ..w },
                ActionView::Nothing,
            ),
            Err(e) => {
                let seq = next_seq(w.notice_seq);
                (WindowView { modstore_status: e, notice_seq: seq, ..w }, ActionView::ClearNoticesLater(seq))
            },
        },
        MessageView::ModCheckUpdates(installed) => if w.current_version.len() == 0 {
            (w, ActionView::Nothing)
        } else if installed == 0 {
            let seq = next_seq(w.notice_seq);
            (
                WindowView {
                    modstore_pending_checks: 0,
                    modstore_check_manual: false,
                    modstore_status: "No mods installed."@,
                    notice_seq: seq,
                    ..w
                },
                ActionView::ClearNoticesLater(seq),
            )
        } else {
            (
                WindowView {
                    modstore_pending_checks: if installed > u32::MAX { u32::MAX } else { installed as u32 },
                    modstore_check_manual: true,
                    modstore_status: "Checking updates..."@,
                    ..w
                },
                ActionView::CheckUpdates,
            )
        },
        MessageView::ModUpdateChecked(pid, has_update) => update_checked_spec(w, pid, has_update),
    }
}

/// Mods with a known update after one check answered.
pub open spec fn with_update(ids: Seq<Seq<char>>, pid: Seq<char>, has_update: bool) -> Seq<Seq<char>> {
    if has_update {
        if ids.contains(pid) {
            ids
        } else {
            ids.push(pid)
        }
    } else {
        ids.filter(other_than(pid))
    }
}

/// One update check answered: its mod's update is recorded or dropped,
/// one check fewer runs, and when the last check the user asked for is
/// in, the result is reported.
pub open spec fn update_checked_spec(w: WindowView, pid: Seq<char>, has_update: bool) -> (WindowView, ActionView) {
    let ids = with_update(w.modstore_update_ids, pid, has_update);
    let left: u32 = if w.modstore_pending_checks > 0 { (w.modstore_pending_checks - 1) as u32 } else { 0 };
    let w1 = WindowView { modstore_update_ids: ids, modstore_pending_checks: left, ..w };
    if left == 0 && w.modstore_check_manual {
        let seq = next_seq(w.notice_seq);
        (
            WindowView {
                modstore_check_manual: false,
                modstore_status: if ids.len() == 0 {
                    "All mods up to date ✓"@
                } else {
                    text::decimal(ids.len()) + " update(s) available"@
                },
                notice_seq: seq,
                ..w1
            },
            ActionView::ClearNoticesLater(seq),
        )
    } else {
        (w1, ActionView::Nothing)
    }
}

pub open spec fn nf_missing_text() -> Seq<char> {
    "Select a NeoForge version or enter it manually."@
}

/// The Install button: a manual install cancels a pending loader switch;
/// a refused request shows its message (NeoForge's under the NeoForge
/// choices, the others under the installer); an accepted one remembers
/// its custom name, and a NeoForge install first fetches the vanilla
/// files and waits for them.
pub open spec fn install_pressed_spec(w: WindowView, taken: bool) -> (WindowView, ActionView) {
    let w1 = WindowView { pending_loader_switch: None, ..w };
    match install_request_spec(w.install_mc_version, w.install_name, taken, w.install_loader, w.fabric_loader_selected,
        w.neoforge_manual, w.neoforge_selected) {
        Err(e) => {
            let seq = next_seq(w.notice_seq);
            if e == nf_missing_text() {
                (WindowView { neoforge_status: e, notice_seq: seq, ..w1 }, ActionView::ClearNoticesLater(seq))
            } else {
                (WindowView { download_text: e, notice_seq: seq, ..w1 }, ActionView::ClearNoticesLater(seq))
            }
        },
        Ok((plan, id)) => {
            let names = remembered_spec(w.pending_install_names, id, w.install_name);
            match plan {
                InstallPlan::NeoForge(mc, nf) => (
                    WindowView {
                        pending_install_names: names,
                        pending_neoforge_install: Some((mc, nf)),
                        neoforge_status: "Downloading Minecraft files first..."@,
                        ..w1
                    },
                    ActionView::Install(InstallPlan::Version(mc, None)),
                ),
                _ => (WindowView { pending_install_names: names, ..w1 }, ActionView::Install(plan)),
            }
        },
    }
}

/// The remembered names after an install of folder `id` finished, and
/// the rename it asks for.
pub open spec fn taken_for(pending: Seq<(Seq<char>, Seq<char>)>, id: Option<Seq<char>>)
    -> (Seq<(Seq<char>, Seq<char>)>, Option<(Seq<char>, Seq<char>)>) {
    match id {
        Some(i) => {
            let (rest, name) = taken_name_spec(pending, i);
            (rest, match name { Some(c) => Some((i, c)), None => None })
        },
        None => (pending, None),
    }
}

/// NeoForge installed: the waiting install is over, a loader switch
/// selects the new folder, and the folder gets its remembered name.
pub open spec fn neoforge_finished_spec(w: WindowView) -> (WindowView, ActionView) {
    let seq = next_seq(w.notice_seq);
    let folder = match w.pending_neoforge_install {
        Some((_, nf)) => Some("neoforge-"@ + nf),
        None => None,
    };
    let (names, rename) = taken_for(w.pending_install_names, folder);
    let base = WindowView {
        pending_neoforge_install: None,
        neoforge_status: "NeoForge installed successfully."@,
        download_text: "NeoForge installed successfully."@,
        notice_seq: seq,
        pending_install_names: names,
        ..w
    };
    let w2 = match w.pending_loader_switch {
        Some(id) => WindowView {
            pending_loader_switch: None,
            current_version: id,
            delete_confirm: None,
            il_status: "Switched to "@ + id + "."@,
            ..base
        },
        None => base,
    };
    (w2, ActionView::NeoForgeDone(rename, seq))
}

pub open spec fn vanilla_switch_text() -> Seq<char> {
    "No loader to switch on vanilla."@
}

/// The Apply button of the loader switch: a new Fabric loader installs at
/// once; a NeoForge switch fetches the vanilla files first, then runs the
/// installer and selects its folder.
pub open spec fn loader_apply_spec(w: WindowView, kind: VersionKind, base_mc: Seq<char>) -> (WindowView, ActionView) {
    match loader_switch_spec(kind, base_mc, w.il_selected, w.il_manual) {
        Err(e) => if e == vanilla_switch_text() {
            (WindowView { il_status: e, ..w }, ActionView::Nothing)
        } else {
            let seq = next_seq(w.notice_seq);
            (WindowView { il_status: e, notice_seq: seq, ..w }, ActionView::ClearNoticesLater(seq))
        },
        Ok((plan, sel)) => match plan {
            InstallPlan::NeoForge(mc, nf) => (
                WindowView {
                    pending_neoforge_install: Some((mc, nf)),
                    pending_loader_switch: sel,
                    il_status: "Downloading Minecraft files first..."@,
                    ..w
                },
                ActionView::Install(InstallPlan::Version(mc, None)),
            ),
            InstallPlan::Version(_, loader) => (
                WindowView {
                    il_status: "Downloading Fabric "@ + loader.unwrap() + "... (progress on Installation screen)"@,
                    ..w
                },
                ActionView::Install(plan),
            ),
        },
    }
}

fn without_text(v: &Vec<String>, t: &str) -> (r: Vec<String>)
    ensures
        string_views(r@) == string_views(v@).filter(other_than(t@)),
{
    let ghost sv = string_views(v@);
    let ghost pred = other_than(t@);
    let mut out: Vec<String> = Vec::new();
    let mut i: usize = 0;
    assert(sv.take(0) =~= Seq::<Seq<char>>::empty());
    assert(string_views(out@) =~= Seq::<Seq<char>>::empty());
    proof {
        reveal(Seq::filter);
    }
    while i < v.len()
        invariant
            i <= v.len(),
            sv == string_views(v@),
            pred == other_than(t@),
            string_views(out@) == sv.take(i as int).filter(pred),
        decreases v.len() - i,
    {
        assert(sv.take(i + 1).drop_last() =~= sv.take(i as int));
        assert(sv.take(i + 1).last() == v@[i as int]@);
        if !text::str_eq(v[i].as_str(), t) {
            let ghost o = string_views(out@);
            out.push(v[i].clone());
            assert(string_views(out@) =~= o.push(v@[i as int]@));
            assert(sv.take(i + 1).filter(pred) == sv.take(i as int).filter(pred).push(sv[i as int])) by {
                reveal(Seq::filter);
            }
        } else {
            assert(sv.take(i + 1).filter(pred) == sv.take(i as int).filter(pred)) by {
                reveal(Seq::filter);
            }
        }
        i += 1;
    }
    assert(sv.take(v.len() as int) =~= sv);
    out
}

fn file_key(name: &str) -> (r: String)
    ensures
        r@ == "file:"@ + name@,
{
    let mut k = text::chars_of("file:");
    text::push_str(&mut k, name);
    text::string_of(&k)
}

fn same_text(a: &Option<String>, b: &str) -> (r: bool)
    ensures
        r == (opt_view(*a) == Some(b@)),
{
    match a {
        Some(s) => text::str_eq(s.as_str(), b),
        None => false,
    }
}

/// Handle one message (see `update_spec`).
pub fn update(window: &mut Window, message: Message) -> (action: Action)
    ensures
        (final(window)@, action@) == update_spec(old(window)@, message@),
{
    match message {
        Message::ClearNotices(seq) => {
            if seq == window.notice_seq {
                window.download_text = String::new();
                window.neoforge_status = String::new();
                window.modstore_status = String::new();
                window.instance_settings_status = String::new();
                window.il_status = String::new();
            }
            Action::Nothing
        },
        Message::ModStoreQueryChanged(q) => {
            let seq = next_number(window.modstore_search_seq);
            window.modstore_search_seq = seq;
            window.modstore_query = q.clone();
            if matches!(window.modstore_tab, ModStoreTab::Store) {
                Action::SearchLater(seq, q)
            } else {
                Action::Nothing
            }
        },
        Message::ModStoreSearchDebounced(seq, q) => {
            if seq != window.modstore_search_seq || !matches!(window.modstore_tab, ModStoreTab::Store)
                || !text::str_eq(q.as_str(), window.modstore_query.as_str()) {
                Action::Nothing
            } else {
                window.modstore_status = "Searching...".to_string();
                Action::Search(q)
            }
        },
        Message::ModStoreSearch => {
            window.modstore_tab = ModStoreTab::Store;
            window.modstore_search_seq = next_number(window.modstore_search_seq);
            window.modstore_status = "Searching...".to_string();
            Action::Search(window.modstore_query.clone())
        },
        Message::ModStoreTabChanged(t) => {
            window.modstore_tab = t;
            window.modstore_delete_confirm = None;
            if matches!(t, ModStoreTab::Installed) {
                Action::ListInstalled
            } else {
                Action::Nothing
            }
        },
        Message::VersionChanged(v) => {
            window.current_version = v;
            window.delete_confirm = None;
            Action::Nothing
        },
        Message::DeleteInstancePressed(id) => {
            let armed = window.delete_confirm.take();
            let (armed, confirmed) = confirm_press(armed, id.as_str());
            window.delete_confirm = armed;
            if confirmed {
                if text::str_eq(window.current_version.as_str(), id.as_str()) {
                    window.current_version = String::new();
                }
                if deletable_instance_id(id.as_str()) {
                    Action::DeleteInstance(id)
                } else {
                    Action::ReloadVersions
                }
            } else {
                Action::Nothing
            }
        },
        Message::OpenModPage(id) => {
            if matches!(window.screen, Screen::ModPage) {
                match window.modstore_page.take() {
                    Some(back_to) => {
                        let mut h: Vec<String> = Vec::new();
                        std::mem::swap(&mut h, &mut window.modstore_history);
                        window.modstore_history = push_history(h, back_to);
                    },
                    None => {},
                }
            }
            window.screen = Screen::ModPage;
            window.modstore_page = None;
            window.modstore_delete_confirm = None;
            window.modstore_status = "Loading mod page...".to_string();
            Action::FetchModPage(id)
        },
        Message::ModPageLoaded(id) => {
            window.modstore_page = Some(id);
            window.modstore_status = String::new();
            Action::Nothing
        },
        Message::ModPageBack => {
            match window.modstore_history.pop() {
                Some(prev) => {
                    window.screen = Screen::ModPage;
                    window.modstore_page = None;
                    window.modstore_delete_confirm = None;
                    window.modstore_status = "Loading mod page...".to_string();
                    Action::FetchModPage(prev)
                },
                None => {
                    window.screen = Screen::ModStore;
                    Action::ShowStore
                },
            }
        },
        Message::ModDeletePressed(pid) => {
            let armed = window.modstore_delete_confirm.take();
            let (armed, confirmed) = confirm_press(armed, pid.as_str());
            window.modstore_delete_confirm = armed;
            if confirmed {
                if same_text(&window.modstore_update_confirm, pid.as_str()) {
                    window.modstore_update_confirm = None;
                }
                window.modstore_update_ids = without_text(&window.modstore_update_ids, pid.as_str());
                let seq = next_number(window.notice_seq);
                window.notice_seq = seq;
                Action::DeleteMod(pid, seq)
            } else {
                Action::Nothing
            }
        },
        Message::ModLocalFileDelete(name) => {
            let key = file_key(name.as_str());
            let armed = window.modstore_delete_confirm.take();
            let (armed, confirmed) = confirm_press(armed, key.as_str());
            window.modstore_delete_confirm = armed;
            if confirmed {
                let seq = next_number(window.notice_seq);
                window.notice_seq = seq;
                if deletable_jar_name(name.as_str()) {
                    Action::DeleteModFile(name, seq)
                } else {
                    Action::RefreshModFiles(seq)
                }
            } else {
                Action::Nothing
            }
        },
        Message::ModUpdatePressed(pid) => {
            let has = has_view(&window.modstore_update_ids, pid.as_str());
            let c = window.modstore_update_confirm.take();
            window.modstore_update_confirm = update_toggle(c, pid.as_str(), has);
            Action::Nothing
        },
        Message::GameStarted => {
            window.game_running = true;
            Action::Nothing
        },
        Message::GameFinished => {
            window.game_running = false;
            Action::Nothing
        },
        Message::CloseGame => Action::KillGame,
        Message::InstallPressed(taken) => install_pressed(window, taken),
        Message::InstallFinished(id) => {
            let seq = next_number(window.notice_seq);
            window.notice_seq = seq;
            window.download_text = "Version installed successfully.".to_string();
            let mut p: Vec<(String, String)> = Vec::new();
            std::mem::swap(&mut p, &mut window.pending_install_names);
            let (names, rename) = take_for(p, id);
            window.pending_install_names = names;
            Action::InstallDone(rename, clone_pair_opt(&window.pending_neoforge_install), seq)
        },
        Message::NeoForgeFinished => neoforge_finished(window),
        Message::InstallFailed(e) => {
            let seq = next_number(window.notice_seq);
            let mut t = text::chars_of("Failed to install: ");
            text::push_str(&mut t, e.as_str());
            window.download_text = text::string_of(&t);
            window.neoforge_status = text::string_of(&t);
            window.pending_neoforge_install = None;
            window.notice_seq = seq;
            Action::ClearNoticesLater(seq)
        },
        Message::InstanceLoaderApply(kind, base_mc) => loader_apply(window, kind, base_mc),
        Message::LoadVersionList(list) => {
            if list.len() == 1 {
                window.current_version = list[0].clone();
            }
            window.all_versions = list;
            Action::Nothing
        },
        Message::GotModSearch(r) => match r {
            Ok(n) => {
                window.modstore_status = if n == 0 {
                    "Nothing found. Try another query.".to_string()
                } else {
                    String::new()
                };
                Action::Nothing
            },
            Err(e) => {
                let seq = next_number(window.notice_seq);
                window.notice_seq = seq;
                window.modstore_status = e;
                Action::ClearNoticesLater(seq)
            },
        },
        Message::ModCheckUpdates(installed) => {
            if window.current_version.unicode_len() == 0 {
                Action::Nothing
            } else if installed == 0 {
                let seq = next_number(window.notice_seq);
                window.modstore_pending_checks = 0;
                window.modstore_check_manual = false;
                window.modstore_status = "No mods installed.".to_string();
                window.notice_seq = seq;
                Action::ClearNoticesLater(seq)
            } else {
                window.modstore_pending_checks = if installed > 4294967295usize { 4294967295u32 } else { installed as u32 };
                window.modstore_check_manual = true;
                window.modstore_status = "Checking updates...".to_string();
                Action::CheckUpdates
            }
        },
        Message::ModUpdateChecked(pid, has_update) => update_checked(window, pid, has_update),
    }
}

fn update_checked(window: &mut Window, pid: String, has_update: bool) -> (action: Action)
    ensures
        (final(window)@, action@) == update_checked_spec(old(window)@, pid@, has_update),
{
    if has_update {
        if !has_view(&window.modstore_update_ids, pid.as_str()) {
            let ghost o = string_views(window.modstore_update_ids@);
            window.modstore_update_ids.push(pid);
            assert(string_views(window.modstore_update_ids@) =~= o.push(pid@));
        }
    } else {
        window.modstore_update_ids = without_text(&window.modstore_update_ids, pid.as_str());
    }
    let left = if window.modstore_pending_checks > 0 { window.modstore_pending_checks - 1 } else { 0 };
    window.modstore_pending_checks = left;
    if left == 0 && window.modstore_check_manual {
        let seq = next_number(window.notice_seq);
        window.modstore_check_manual = false;
        let n = window.modstore_update_ids.len();
        window.modstore_status = if n == 0 {
            "All mods up to date ✓".to_string()
        } else {
            let mut t = text::decimal_chars(n as u64);
            text::push_str(&mut t, " update(s) available");
            text::string_of(&t)
        };
        window.notice_seq = seq;
        Action::ClearNoticesLater(seq)
    } else {
        Action::Nothing
    }
}

fn clone_pair_opt(o: &Option<(String, String)>) -> (r: Option<(String, String)>)
    ensures
        pair_opt_view(r) == pair_opt_view(*o),
{
    match o {
        Some(p) => Some((p.0.clone(), p.1.clone())),
        None => None,
    }
}

fn take_for(pending: Vec<(String, String)>, id: Option<String>) -> (r: (Vec<(String, String)>, Option<(String, String)>))
    ensures
        (text::pair_views(r.0@), pair_opt_view(r.1)) == taken_for(text::pair_views(pending@), opt_view(id)),
{
    match id {
        Some(i) => {
            let (rest, name) = take_install_name(pending, i.as_str());
            match name {
                Some(c) => (rest, Some((i, c))),
                None => (rest, None),
            }
        },
        None => (pending, None),
    }
}

fn install_pressed(window: &mut Window, taken: bool) -> (action: Action)
    ensures
        (final(window)@, action@) == install_pressed_spec(old(window)@, taken),
{
    window.pending_loader_switch = None;
    let r = install_request(
        window.install_mc_version.as_str(),
        window.install_name.as_str(),
        taken,
        window.install_loader,
        window.fabric_loader_selected.as_str(),
        window.neoforge_manual.as_str(),
        window.neoforge_selected.as_str(),
    );
    match r {
        Err(e) => {
            let seq = next_number(window.notice_seq);
            window.notice_seq = seq;
            if text::str_eq(e.as_str(), "Select a NeoForge version or enter it manually.") {
                window.neoforge_status = e;
            } else {
                window.download_text = e;
            }
            Action::ClearNoticesLater(seq)
        },
        Ok((job, id)) => {
            let names = remember_install_name(&window.pending_install_names, id.as_str(), window.install_name.as_str());
            window.pending_install_names = names;
            match job {
                InstallJob::NeoForge(mc, nf) => {
                    window.pending_neoforge_install = Some((mc.clone(), nf));
                    window.neoforge_status = "Downloading Minecraft files first...".to_string();
                    Action::Install(InstallJob::Version(mc, VersionType::Vanilla))
                },
                InstallJob::Version(v, t) => Action::Install(InstallJob::Version(v, t)),
            }
        },
    }
}

fn neoforge_finished(window: &mut Window) -> (action: Action)
    ensures
        (final(window)@, action@) == neoforge_finished_spec(old(window)@),
{
    let seq = next_number(window.notice_seq);
    let folder = match &window.pending_neoforge_install {
        Some(p) => {
            let mut f = text::chars_of("neoforge-");
            text::push_str(&mut f, p.1.as_str());
            Some(text::string_of(&f))
        },
        None => None,
    };
    let mut p: Vec<(String, String)> = Vec::new();
    std::mem::swap(&mut p, &mut window.pending_install_names);
    let (names, rename) = take_for(p, folder);
    window.pending_install_names = names;
    window.pending_neoforge_install = None;
    window.neoforge_status = "NeoForge installed successfully.".to_string();
    window.download_text = "NeoForge installed successfully.".to_string();
    window.notice_seq = seq;
    match window.pending_loader_switch.take() {
        Some(id) => {
            let mut t = text::chars_of("Switched to ");
            text::push_str(&mut t, id.as_str());
            text::push_str(&mut t, ".");
            window.il_status = text::string_of(&t);
            window.current_version = id;
            window.delete_confirm = None;
        },
        None => {},
    }
    Action::NeoForgeDone(rename, seq)
}

fn loader_apply(window: &mut Window, kind: VersionKind, base_mc: String) -> (action: Action)
    ensures
        (final(window)@, action@) == loader_apply_spec(old(window)@, kind, base_mc@),
{
    let r = loader_switch_request(kind, base_mc.as_str(), window.il_selected.as_str(), window.il_manual.as_str());
    match r {
        Err(e) => {
            if text::str_eq(e.as_str(), "No loader to switch on vanilla.") {
                window.il_status = e;
                Action::Nothing
            } else {
                let seq = next_number(window.notice_seq);
                window.notice_seq = seq;
                window.il_status = e;
                Action::ClearNoticesLater(seq)
            }
        },
        Ok((job, sel)) => match job {
            InstallJob::NeoForge(mc, nf) => {
                window.pending_neoforge_install = Some((mc.clone(), nf));
                window.pending_loader_switch = sel;
                window.il_status = "Downloading Minecraft files first...".to_string();
                Action::Install(InstallJob::Version(mc, VersionType::Vanilla))
            },
            InstallJob::Version(v, t) => {
                let loader = match &t {
                    VersionType::Fabric { loader } => loader.clone(),
                    VersionType::Vanilla => String::new(),
                };
                let mut st = text::chars_of("Downloading Fabric ");
                text::push_str(&mut st, loader.as_str());
                text::push_str(&mut st, "... (progress on Installation screen)");
                window.il_status = text::string_of(&st);
                Action::Install(InstallJob::Version(v, t))
            },
        },
    }
}

/// What the Play button sends.
pub enum PlayPress {
    Launch,
    CloseGame,
}

/// The buttons of the main screen: what Play sends when it can be pressed,
/// and which instance buttons are enabled.
pub struct MainScreen {
    pub play: Option<PlayPress>,
    pub instance_folder_enabled: bool,
    pub instance_settings_enabled: bool,
    pub store_enabled: bool,
    /// The hint that no account exists yet is shown.
    pub no_accounts_hint: bool,
}

/// The main screen of a window: while the game runs Play closes it,
/// otherwise it launches the selected version (and cannot be pressed
/// with none selected); the folder and settings buttons need a selected
/// version, and the mod store also needs a mod loader (`has_loader`: the
/// selected version's loader context was found).
pub fn main_screen(window: &Window, has_loader: bool, account_count: usize) -> (s: MainScreen)
    ensures
        s.play == if window.game_running {
            Some(PlayPress::CloseGame)
        } else if window.current_version@.len() > 0 {
            Some(PlayPress::Launch)
        } else {
            None::<PlayPress>
        },
        s.instance_folder_enabled == (window.current_version@.len() > 0),
        s.instance_settings_enabled == (window.current_version@.len() > 0),
        s.store_enabled == (window.current_version@.len() > 0 && has_loader),
        s.no_accounts_hint == (account_count == 0),
{
    let selected = window.current_version.unicode_len() != 0;
    let play = if window.game_running {
        Some(PlayPress::CloseGame)
    } else if selected {
        Some(PlayPress::Launch)
    } else {
        None
    };
    MainScreen {
        play,
        instance_folder_enabled: selected,
        instance_settings_enabled: selected,
        store_enabled: selected && has_loader,
        no_accounts_hint: account_count == 0,
    }
}

/// Whether the delete button of a version shows its "press again" state.
pub fn delete_armed(window: &Window, id: &str) -> (r: bool)
    ensures
        r == (opt_view(window.delete_confirm) == Some(id@)),
{
    same_text(&window.delete_confirm, id)
}


/// A notice timer that was started for an older notice changes nothing:
/// newer notices stay on screen.
pub proof fn law_stale_notice_timer_keeps_notices(w: WindowView, seq: u32)
    requires
        seq != w.notice_seq,
    ensures
        update_spec(w, MessageView::ClearNotices(seq)) == (w, ActionView::Nothing),
{
}

/// A waited search that is no longer the latest, or whose query or tab
/// changed since, changes nothing and searches nothing.
pub proof fn law_stale_search_dropped(w: WindowView, seq: u32, q: Seq<char>)
    requires
        seq != w.modstore_search_seq || w.modstore_tab != ModStoreTab::Store || q != w.modstore_query,
    ensures
        update_spec(w, MessageView::ModStoreSearchDebounced(seq, q)) == (w, ActionView::Nothing),
{
}

/// An instance is deleted only on a second press on its own button, and
/// only when its name stays inside its folders; a first press only arms
/// the button.
pub proof fn law_instance_delete_needs_second_press(w: WindowView, id: Seq<char>)
    ensures
        update_spec(w, MessageView::DeleteInstancePressed(id)).1 == ActionView::DeleteInstance(id)
            <==> (w.delete_confirm == Some(id) && deletable_instance_id_spec(id)),
        w.delete_confirm != Some(id) ==> update_spec(w, MessageView::DeleteInstancePressed(id)) == (
            WindowView { delete_confirm: Some(id), ..w },
            ActionView::Nothing,
        ),
{
}

/// A remembered custom name reaches the rename of the finished install
/// it was given for.
pub proof fn law_finished_install_gets_its_name(w: WindowView, id: Seq<char>)
    requires
        w.pending_install_names == seq![(id, w.install_name)],
        w.install_name.len() > 0,
    ensures
        update_spec(w, MessageView::InstallFinished(Some(id))).1
            == ActionView::InstallDone(Some((id, w.install_name)), w.pending_neoforge_install, next_seq(w.notice_seq)),
{
    let s = w.pending_install_names;
    assert(crate::session::first_with_id(s, id, 0));
    let i = choose|i: int| crate::session::first_with_id(s, id, i);
    assert(i == 0);
}

} // verus!

//! State of the launcher window that is not drawing: which screen is
//! open, the download and game jobs it runs, the choices of the
//! installer menu, and the launch options it hands to a game start.
use vstd::prelude::*;
use crate::json::{Json, get, as_str};
use crate::text;
use crate::text::{string_views, split, trim};
use crate::downloader::{Download, Java, VersionType, download_views};
use crate::launcher::{GameSettings, JavaType};
use crate::modrinth::{InstalledMod, ModVersion, first_compatible, version_view, assoc_map, keys_distinct};
use crate::settings::{Account, account_view, accounts_view};

verus! {

/// Screens of the launcher window.
#[derive(PartialEq, Debug, Clone, Default)]
pub enum Screen {
    #[default]
    Main,
    Settings,
    Installation,
    CustomJava,
    Logs,
    ModifyCommand,
    Accounts,
    MicrosoftAccount,
    LocalAccount,
    InstanceSettings,
    ModStore,
    ModPage,
}

/// Mod store tab: catalog from Modrinth vs locally installed mods.
#[derive(Debug, Clone, Copy, PartialEq, Eq, Default)]
pub enum ModStoreTab {
    #[default]
    Store,
    Installed,
}

/// Mod loader choice in the version installer. Exactly one is active.
#[derive(Debug, Clone, Copy, PartialEq, Eq, Default)]
pub enum LoaderChoice {
    #[default]
    Vanilla,
    Fabric,
    NeoForge,
}

/// What a download slot is doing.
pub enum DownloaderState {
    Idle,
    Downloading(String, VersionType),
    JavaDownloading(Java),
    DownloadingMissingFiles(Vec<Download>),
    Update(String),
    NeoForgeInstaller { mc_version: String, nf_version: String },
}

/// A download slot of the window.
pub struct Downloader {
    pub state: DownloaderState,
    pub id: usize,
}

impl Default for Downloader {
    fn default() -> (r: Downloader)
        ensures
            r.state is Idle,
            r.id == 0,
    {
        Downloader { state: DownloaderState::Idle, id: 0 }
    }
}

impl Downloader {
    /// An idle slot with the given id.
    pub fn new(id: usize) -> (r: Downloader)
        ensures
            r.state is Idle,
            r.id == id,
    {
        Downloader { state: DownloaderState::Idle, id }
    }

    /// Start installing a version.
    pub fn start(&mut self, version: String, version_type: VersionType)
        ensures
            final(self).state == DownloaderState::Downloading(version, version_type),
            final(self).id == old(self).id,
    {
        self.state = DownloaderState::Downloading(version, version_type);
    }

    /// Start fetching a managed JRE.
    pub fn start_java(&mut self, java: Java)
        ensures
            final(self).state == DownloaderState::JavaDownloading(java),
            final(self).id == old(self).id,
    {
        self.state = DownloaderState::JavaDownloading(java);
    }

    /// Start a launcher update from an archive URL.
    pub fn start_update(&mut self, url: String)
        ensures
            final(self).state == DownloaderState::Update(url),
            final(self).id == old(self).id,
    {
        self.state = DownloaderState::Update(url);
    }

    /// Start fetching the files a version check found missing.
    pub fn start_missing_files(&mut self, files: Vec<Download>)
        ensures
            final(self).state == DownloaderState::DownloadingMissingFiles(files),
            final(self).id == old(self).id,
    {
        self.state = DownloaderState::DownloadingMissingFiles(files);
    }

    /// Start a NeoForge install.
    pub fn start_neoforge(&mut self, mc_version: String, nf_version: String)
        ensures
            final(self).state == (DownloaderState::NeoForgeInstaller { mc_version, nf_version }),
            final(self).id == old(self).id,
    {
        self.state = DownloaderState::NeoForgeInstaller { mc_version, nf_version };
    }
}

/// Folder id of the version a finished install job produced (Fabric
/// installs live in `{mc}-fabric`); none for other jobs.
pub fn finished_version_dir_id(state: &DownloaderState) -> (r: Option<String>)
    ensures
        match *state {
            DownloaderState::Downloading(v, t) => r matches Some(id) && id@ == crate::downloader::version_dir_name_spec(v@, crate::downloader::is_fabric(t)),
            _ => r is None,
        },
{
    match state {
        DownloaderState::Downloading(version, version_type) => Some(crate::downloader::version_dir_name(version.as_str(), version_type)),
        _ => None,
    }
}

/// What the game slot is doing.
pub enum LauncherState {
    Idle,
    Waiting,
    Launching(Box<GameSettings>),
    GettingLogs(Box<GameSettings>),
}

/// The game slot of the window.
pub struct Launcher {
    pub state: LauncherState,
}

impl Default for Launcher {
    fn default() -> (r: Launcher)
        ensures
            r.state is Idle,
    {
        Launcher { state: LauncherState::Idle }
    }
}

impl Launcher {
    /// Start a game with these settings.
    pub fn start(&mut self, game_settings: GameSettings)
        ensures
            final(self).state == LauncherState::Launching(Box::new(game_settings)),
    {
        self.state = LauncherState::Launching(Box::new(game_settings));
    }
}

pub open spec fn install_target_spec(mc: Seq<char>, manual: Seq<char>, selected: Seq<char>) -> Option<(Seq<char>, Seq<char>)> {
    let nf = if trim(manual).len() > 0 {
        trim(manual)
    } else {
        selected
    };
    if mc.len() == 0 || nf.len() == 0 {
        None
    } else {
        Some((mc, nf))
    }
}

/// NeoForge install target of the installer menu: the Minecraft version
/// and the NeoForge version typed in (trimmed) or else the one selected;
/// none while either is missing.
pub fn neoforge_install_target(install_mc_version: &str, neoforge_manual: &str, neoforge_selected: &str) -> (r: Option<(String, String)>)
    ensures
        match r {
            Some((mc, nf)) => install_target_spec(install_mc_version@, neoforge_manual@, neoforge_selected@) == Some((mc@, nf@)),
            None => install_target_spec(install_mc_version@, neoforge_manual@, neoforge_selected@) is None,
        },
{
    if install_mc_version.unicode_len() == 0 {
        return None;
    }
    let m = text::chars_of(neoforge_manual);
    let t = text::chars_trim(&m);
    let nf = if t.len() > 0 {
        text::string_of(&t)
    } else {
        neoforge_selected.to_string()
    };
    if nf.unicode_len() == 0 {
        return None;
    }
    Some((install_mc_version.to_string(), nf))
}

/// A job of the installer menu or of a loader switch.
pub enum InstallJob {
    /// Install a vanilla or Fabric version.
    Version(String, VersionType),
    /// Fetch the vanilla files of a Minecraft version, then run the
    /// NeoForge installer (Minecraft version, NeoForge version).
    NeoForge(String, String),
}

/// Plain-text form of an install job.
pub enum InstallPlan {
    /// Minecraft version and, for Fabric, the loader version.
    Version(Seq<char>, Option<Seq<char>>),
    NeoForge(Seq<char>, Seq<char>),
}

pub open spec fn loader_of(t: VersionType) -> Option<Seq<char>> {
    match t {
        VersionType::Vanilla => None,
        VersionType::Fabric { loader } => Some(loader@),
    }
}

impl View for InstallJob {
    type V = InstallPlan;

    open spec fn view(&self) -> InstallPlan {
        match self {
            InstallJob::Version(v, t) => InstallPlan::Version(v@, loader_of(*t)),
            InstallJob::NeoForge(mc, nf) => InstallPlan::NeoForge(mc@, nf@),
        }
    }
}

/// The NeoForge version of a request: the one typed in (trimmed), else
/// the selected one.
pub open spec fn chosen_neoforge(manual: Seq<char>, selected: Seq<char>) -> Seq<char> {
    if trim(manual).len() > 0 {
        trim(manual)
    } else {
        selected
    }
}

pub open spec fn custom_name_check(install_name: Seq<char>, taken: bool) -> Result<(), Seq<char>> {
    if trim(install_name).len() > 0 {
        crate::instances::valid_new_name_spec(trim(install_name), taken)
    } else {
        Ok(())
    }
}

/// What the Install button asks for: the job and the id of the version
/// folder it produces, or the message shown instead. The checks come in
/// this order: a Minecraft version, the custom name (when one is typed),
/// then the loader's own choice.
pub open spec fn install_request_spec(
    mc: Seq<char>,
    install_name: Seq<char>,
    taken: bool,
    loader: LoaderChoice,
    fabric: Seq<char>,
    manual: Seq<char>,
    selected: Seq<char>,
) -> Result<(InstallPlan, Seq<char>), Seq<char>> {
    if mc.len() == 0 {
        Err("Select a Minecraft version first."@)
    } else {
        match custom_name_check(install_name, taken) {
            Err(e) => Err(e),
            Ok(_) => match loader {
                LoaderChoice::Vanilla => Ok((InstallPlan::Version(mc, None), mc)),
                LoaderChoice::Fabric => if fabric.len() == 0 {
                    Err("Select a Fabric loader version first."@)
                } else {
                    Ok((InstallPlan::Version(mc, Some(fabric)), mc + "-fabric"@))
                },
                LoaderChoice::NeoForge => {
                    let nf = chosen_neoforge(manual, selected);
                    if nf.len() == 0 {
                        Err("Select a NeoForge version or enter it manually."@)
                    } else {
                        Ok((InstallPlan::NeoForge(mc, nf), "neoforge-"@ + nf))
                    }
                },
            },
        }
    }
}

fn chosen_neoforge_of(neoforge_manual: &str, neoforge_selected: &str) -> (r: String)
    ensures
        r@ == chosen_neoforge(neoforge_manual@, neoforge_selected@),
{
    let m = text::chars_of(neoforge_manual);
    let t = text::chars_trim(&m);
    if t.len() > 0 {
        text::string_of(&t)
    } else {
        neoforge_selected.to_string()
    }
}

fn neoforge_folder_id(nf: &str) -> (r: String)
    ensures
        r@ == "neoforge-"@ + nf@,
{
    let mut id = text::chars_of("neoforge-");
    text::push_str(&mut id, nf);
    text::string_of(&id)
}

/// The Install button of the installer menu (see
/// `install_request_spec`); `install_name` is the custom name field and
/// `taken` whether a version of that (trimmed) name is installed.
pub fn install_request(
    mc_version: &str,
    install_name: &str,
    taken: bool,
    loader: LoaderChoice,
    fabric_selected: &str,
    neoforge_manual: &str,
    neoforge_selected: &str,
) -> (r: Result<(InstallJob, String), String>)
    ensures
        match r {
            Ok((job, id)) => install_request_spec(mc_version@, install_name@, taken, loader, fabric_selected@, neoforge_manual@, neoforge_selected@)
                == Ok::<(InstallPlan, Seq<char>), Seq<char>>((job@, id@)),
            Err(e) => install_request_spec(mc_version@, install_name@, taken, loader, fabric_selected@, neoforge_manual@, neoforge_selected@)
                == Err::<(InstallPlan, Seq<char>), Seq<char>>(e@),
        },
{
    if mc_version.unicode_len() == 0 {
        return Err("Select a Minecraft version first.".to_string());
    }
    let n = text::chars_of(install_name);
    let custom = text::chars_trim(&n);
    if custom.len() > 0 {
        let c = text::string_of(&custom);
        match crate::instances::valid_new_instance_name(c.as_str(), taken) {
            Err(e) => {
                return Err(e);
            },
            Ok(_) => {},
        }
    }
    match loader {
        LoaderChoice::Vanilla => Ok((InstallJob::Version(mc_version.to_string(), VersionType::Vanilla), mc_version.to_string())),
        LoaderChoice::Fabric => {
            if fabric_selected.unicode_len() == 0 {
                return Err("Select a Fabric loader version first.".to_string());
            }
            let t = VersionType::Fabric { loader: fabric_selected.to_string() };
            let id = crate::downloader::version_dir_name(mc_version, &t);
            Ok((InstallJob::Version(mc_version.to_string(), t), id))
        },
        LoaderChoice::NeoForge => {
            let nf = chosen_neoforge_of(neoforge_manual, neoforge_selected);
            if nf.unicode_len() == 0 {
                return Err("Select a NeoForge version or enter it manually.".to_string());
            }
            let id = neoforge_folder_id(nf.as_str());
            Ok((InstallJob::NeoForge(mc_version.to_string(), nf), id))
        },
    }
}

/// What the loader switch of the instance settings asks for: a new Fabric
/// loader for the instance's Minecraft version, or a NeoForge install whose
/// folder becomes the selection once it finishes; vanilla has nothing to
/// switch.
pub open spec fn loader_switch_spec(kind: crate::instances::VersionKind, base_mc: Seq<char>, selected: Seq<char>, manual: Seq<char>)
    -> Result<(InstallPlan, Option<Seq<char>>), Seq<char>> {
    match kind {
        crate::instances::VersionKind::Fabric => if selected.len() == 0 {
            Err("Select a Fabric loader version first."@)
        } else {
            Ok((InstallPlan::Version(base_mc, Some(selected)), None))
        },
        crate::instances::VersionKind::NeoForge => {
            let nf = chosen_neoforge(manual, selected);
            if nf.len() == 0 {
                Err("Select a NeoForge version or enter it manually."@)
            } else {
                Ok((InstallPlan::NeoForge(base_mc, nf), Some("neoforge-"@ + nf)))
            }
        },
        _ => Err("No loader to switch on vanilla."@),
    }
}

/// The Apply button of the loader switch (see `loader_switch_spec`):
/// `base_mc` is the instance's Minecraft version, `selected` and `manual`
/// the loader choices of the form.
pub fn loader_switch_request(kind: crate::instances::VersionKind, base_mc: &str, selected: &str, manual: &str)
    -> (r: Result<(InstallJob, Option<String>), String>)
    ensures
        match r {
            Ok((job, sel)) => loader_switch_spec(kind, base_mc@, selected@, manual@)
                == Ok::<(InstallPlan, Option<Seq<char>>), Seq<char>>((job@, match sel { Some(s) => Some(s@), None => None })),
            Err(e) => loader_switch_spec(kind, base_mc@, selected@, manual@) == Err::<(InstallPlan, Option<Seq<char>>), Seq<char>>(e@),
        },
{
    match kind {
        crate::instances::VersionKind::Fabric => {
            if selected.unicode_len() == 0 {
                return Err("Select a Fabric loader version first.".to_string());
            }
            Ok((InstallJob::Version(base_mc.to_string(), VersionType::Fabric { loader: selected.to_string() }), None))
        },
        crate::instances::VersionKind::NeoForge => {
            let nf = chosen_neoforge_of(manual, selected);
            if nf.unicode_len() == 0 {
                return Err("Select a NeoForge version or enter it manually.".to_string());
            }
            let id = neoforge_folder_id(nf.as_str());
            Ok((InstallJob::NeoForge(base_mc.to_string(), nf), Some(id)))
        },
        _ => Err("No loader to switch on vanilla.".to_string()),
    }
}

pub open spec fn not_for(id: Seq<char>) -> spec_fn((Seq<char>, Seq<char>)) -> bool {
    |p: (Seq<char>, Seq<char>)| p.0 != id
}

/// Remembered custom names after an install request for the folder `id`:
/// any earlier name for that folder is dropped, and the trimmed name is
/// added when it is not empty and differs from the folder id.
pub open spec fn remembered_spec(pending: Seq<(Seq<char>, Seq<char>)>, id: Seq<char>, install_name: Seq<char>) -> Seq<(Seq<char>, Seq<char>)> {
    let kept = pending.filter(not_for(id));
    if trim(install_name).len() > 0 && trim(install_name) != id {
        kept.push((id, trim(install_name)))
    } else {
        kept
    }
}

/// Remember the custom name of an install (see `remembered_spec`); the
/// list pairs a folder id with the name it gets once installed.
pub fn remember_install_name(pending: &Vec<(String, String)>, default_id: &str, install_name: &str) -> (r: Vec<(String, String)>)
    ensures
        text::pair_views(r@) == remembered_spec(text::pair_views(pending@), default_id@, install_name@),
{
    let ghost pv = text::pair_views(pending@);
    let ghost pred = not_for(default_id@);
    let mut out: Vec<(String, String)> = Vec::new();
    let mut i: usize = 0;
    assert(pv.take(0) =~= Seq::<(Seq<char>, Seq<char>)>::empty());
    assert(text::pair_views(out@) =~= Seq::<(Seq<char>, Seq<char>)>::empty());
    proof {
        reveal(Seq::filter);
    }
    while i < pending.len()
        invariant
            i <= pending.len(),
            pv == text::pair_views(pending@),
            pred == not_for(default_id@),
            text::pair_views(out@) == pv.take(i as int).filter(pred),
        decreases pending.len() - i,
    {
        assert(pv.take(i + 1).drop_last() =~= pv.take(i as int));
        assert(pv.take(i + 1).last() == (pending@[i as int].0@, pending@[i as int].1@));
        if !text::str_eq(pending[i].0.as_str(), default_id) {
            let ghost o = text::pair_views(out@);
            let e = (pending[i].0.clone(), pending[i].1.clone());
            out.push(e);
            assert(text::pair_views(out@) =~= o.push((e.0@, e.1@)));
            assert(pv.take(i + 1).filter(pred) == pv.take(i as int).filter(pred).push(pv[i as int])) by {
                reveal(Seq::filter);
            }
        } else {
            assert(pv.take(i + 1).filter(pred) == pv.take(i as int).filter(pred)) by {
                reveal(Seq::filter);
            }
        }
        i += 1;
    }
    assert(pv.take(pending.len() as int) =~= pv);
    let n = text::chars_of(install_name);
    let t = text::chars_trim(&n);
    let d = text::chars_of(default_id);
    if t.len() > 0 && !text::chars_eq(&t, &d) {
        let ghost o = text::pair_views(out@);
        let e = (default_id.to_string(), text::string_of(&t));
        out.push(e);
        assert(text::pair_views(out@) =~= o.push((e.0@, e.1@)));
    }
    out
}

/// `i` is the first position of the list whose folder id is `id`.
pub open spec fn first_with_id(s: Seq<(Seq<char>, Seq<char>)>, id: Seq<char>, i: int) -> bool {
    &&& 0 <= i < s.len()
    &&& s[i].0 == id
    &&& forall|j: int| 0 <= j < i ==> s[j].0 != id
}

/// The list after a finished install of folder `id` takes its remembered
/// name (the first entry for `id`), and that name; the list unchanged and
/// nothing when none is remembered.
pub open spec fn taken_name_spec(s: Seq<(Seq<char>, Seq<char>)>, id: Seq<char>) -> (Seq<(Seq<char>, Seq<char>)>, Option<Seq<char>>) {
    if exists|i: int| first_with_id(s, id, i) {
        let i = choose|i: int| first_with_id(s, id, i);
        (s.remove(i), Some(s[i].1))
    } else {
        (s, None)
    }
}

proof fn lemma_first_with_id_unique(s: Seq<(Seq<char>, Seq<char>)>, id: Seq<char>, i: int, k: int)
    requires
        first_with_id(s, id, i),
        first_with_id(s, id, k),
    ensures
        i == k,
{
}

/// Take the remembered name of a finished install (see `taken_name_spec`).
pub fn take_install_name(pending: Vec<(String, String)>, finished_id: &str) -> (r: (Vec<(String, String)>, Option<String>))
    ensures
        (text::pair_views(r.0@), match r.1 { Some(c) => Some(c@), None => None }) == taken_name_spec(text::pair_views(pending@), finished_id@),
{
    let ghost pv = text::pair_views(pending@);
    let mut k: usize = 0;
    while k < pending.len() && !text::str_eq(pending[k].0.as_str(), finished_id)
        invariant
            k <= pending.len(),
            pv == text::pair_views(pending@),
            forall|j: int| 0 <= j < k ==> #[trigger] pv[j].0 != finished_id@,
        decreases pending.len() - k,
    {
        k += 1;
    }
    if k < pending.len() {
        assert(first_with_id(pv, finished_id@, k as int));
        proof {
            let i = choose|i: int| first_with_id(pv, finished_id@, i);
            lemma_first_with_id_unique(pv, finished_id@, i, k as int);
        }
        let mut rest = pending;
        let (_, name) = rest.remove(k);
        assert(text::pair_views(rest@) =~= pv.remove(k as int));
        (rest, Some(name))
    } else {
        assert(!exists|i: int| first_with_id(pv, finished_id@, i));
        (pending, None)
    }
}

/// A custom name remembered for an install is the one handed over when
/// that install finishes, and the other remembered names stay as they
/// were; with no usable name, nothing is handed over.
pub proof fn law_install_name_round_trip(pending: Seq<(Seq<char>, Seq<char>)>, id: Seq<char>, install_name: Seq<char>)
    ensures
        taken_name_spec(remembered_spec(pending, id, install_name), id) == (
            pending.filter(not_for(id)),
            if trim(install_name).len() > 0 && trim(install_name) != id {
                Some(trim(install_name))
            } else {
                None
            },
        ),
{
    let kept = pending.filter(not_for(id));
    assert forall|j: int| 0 <= j < kept.len() implies #[trigger] kept[j].0 != id by {
        pending.lemma_filter_pred(not_for(id), j);
    }
    let r = remembered_spec(pending, id, install_name);
    if trim(install_name).len() > 0 && trim(install_name) != id {
        let last = kept.len() as int;
        assert(first_with_id(r, id, last));
        let i = choose|i: int| first_with_id(r, id, i);
        lemma_first_with_id_unique(r, id, i, last);
        assert(r.remove(last) =~= kept);
    } else {
        assert(!exists|i: int| first_with_id(r, id, i));
    }
}

pub open spec fn nf_for_mc(all: Seq<(Seq<char>, Seq<char>)>, mc: Seq<char>) -> Seq<Seq<char>>
    decreases all.len(),
{
    if all.len() == 0 {
        Seq::empty()
    } else {
        let r = nf_for_mc(all.drop_last(), mc);
        if all.last().0 == mc {
            r.push(all.last().1)
        } else {
            r
        }
    }
}

/// The NeoForge versions of the cached list that belong to `mc` (latest
/// first, as the list is), the preselected one (the first, or none), and
/// the status text: a hint when nothing matches a chosen version, cleared
/// when the list is loaded, otherwise left alone (`None`).
pub fn filter_neoforge_for_mc(all: &Vec<(String, String)>, mc: &str) -> (r: (Vec<String>, String, Option<String>))
    ensures
        string_views(r.0@) == nf_for_mc(text::pair_views(all@), mc@),
        r.1@ == if r.0@.len() > 0 { r.0@[0]@ } else { Seq::<char>::empty() },
        match r.2 {
            Some(st) => if r.0@.len() == 0 && mc@.len() > 0 {
                st@ == "No NeoForge found for "@ + mc@ + ". Enter the version manually."@
            } else {
                all@.len() > 0 && st@.len() == 0
            },
            None => !(r.0@.len() == 0 && mc@.len() > 0) && all@.len() == 0,
        },
{
    let ghost av = text::pair_views(all@);
    let mut out: Vec<String> = Vec::new();
    let mut i: usize = 0;
    assert(av.take(0) =~= Seq::<(Seq<char>, Seq<char>)>::empty());
    assert(string_views(out@) =~= Seq::<Seq<char>>::empty());
    while i < all.len()
        invariant
            i <= all.len(),
            av == text::pair_views(all@),
            string_views(out@) == nf_for_mc(av.take(i as int), mc@),
        decreases all.len() - i,
    {
        assert(av.take(i + 1).drop_last() =~= av.take(i as int));
        assert(av.take(i + 1).last() == (all@[i as int].0@, all@[i as int].1@));
        if text::str_eq(all[i].0.as_str(), mc) {
            let ghost o = string_views(out@);
            out.push(all[i].1.clone());
            assert(string_views(out@) =~= o.push(all@[i as int].1@));
        }
        i += 1;
    }
    assert(av.take(all.len() as int) =~= av);
    let selected = if out.len() > 0 { out[0].clone() } else { String::new() };
    let status = if out.len() == 0 && mc.unicode_len() != 0 {
        let mut m = text::chars_of("No NeoForge found for ");
        text::push_str(&mut m, mc);
        text::push_str(&mut m, ". Enter the version manually.");
        Some(text::string_of(&m))
    } else if all.len() > 0 {
        Some(String::new())
    } else {
        None
    };
    (out, selected, status)
}

/// A copy of a version.
pub fn copy_version(v: &ModVersion) -> (r: ModVersion)
    ensures
        version_view(r) == version_view(*v),
{
    let mut deps: Vec<crate::modrinth::ModDependency> = Vec::new();
    let mut i: usize = 0;
    while i < v.dependencies.len()
        invariant
            i <= v.dependencies.len(),
            deps@.len() == i,
            forall|j: int| 0 <= j < i ==> crate::modrinth::dep_view(#[trigger] deps@[j]) == crate::modrinth::dep_view(v.dependencies@[j]),
        decreases v.dependencies.len() - i,
    {
        let d = &v.dependencies[i];
        let pid = match &d.project_id {
            Some(p) => Some(p.clone()),
            None => None,
        };
        deps.push(crate::modrinth::ModDependency { project_id: pid, dependency_type: d.dependency_type.clone() });
        i += 1;
    }
    let r = ModVersion {
        id: v.id.clone(),
        version_number: v.version_number.clone(),
        loaders: copy_strings(&v.loaders),
        game_versions: copy_strings(&v.game_versions),
        file_url: v.file_url.clone(),
        filename: v.filename.clone(),
        dependencies: deps,
    };
    assert(r.dependencies@.map_values(|d: crate::modrinth::ModDependency| crate::modrinth::dep_view(d))
        =~= v.dependencies@.map_values(|d: crate::modrinth::ModDependency| crate::modrinth::dep_view(d)));
    r
}

fn copy_strings(v: &Vec<String>) -> (r: Vec<String>)
    ensures
        string_views(r@) == string_views(v@),
{
    let mut out: Vec<String> = Vec::new();
    let mut i: usize = 0;
    while i < v.len()
        invariant
            i <= v.len(),
            out@.len() == i,
            forall|j: int| 0 <= j < i ==> #[trigger] out@[j]@ == v@[j]@,
        decreases v.len() - i,
    {
        out.push(v[i].clone());
        i += 1;
    }
    assert(string_views(out@) =~= string_views(v@));
    out
}

pub open spec fn newer_compatible_spec(versions: Seq<ModVersion>, loader: Seq<char>, mc: Seq<char>, installed_id: Seq<char>) -> Option<int> {
    match first_compatible(versions, loader, mc) {
        Some(i) => if versions[i].id@ != installed_id {
            Some(i)
        } else {
            None
        },
        None => None,
    }
}

/// The newest compatible version when it is not the installed one.
pub fn newer_compatible(versions: &[ModVersion], loader: &str, mc: &str, installed_id: &str) -> (r: Option<ModVersion>)
    ensures
        match newer_compatible_spec(versions@, loader@, mc@, installed_id@) {
            Some(i) => r matches Some(v) && version_view(v) == version_view(versions@[i]),
            None => r is None,
        },
{
    match crate::modrinth::latest_compatible(versions, loader, mc) {
        Some(v) => if !text::str_eq(v.id.as_str(), installed_id) {
            Some(copy_version(v))
        } else {
            None
        },
        None => None,
    }
}

pub open spec fn refreshed_spec(versions_project: Option<Seq<char>>, versions: Seq<ModVersion>, loader: Seq<char>, mc: Seq<char>, entry: InstalledMod) -> Option<int> {
    if versions_project != Some(entry.project_id@) {
        None
    } else {
        newer_compatible_spec(versions, loader, mc, entry.version_id@)
    }
}

/// The update offered for a mod after an install: only the loaded version
/// list of that same project is used, and only a newest compatible
/// version other than the installed one is offered.
pub fn refreshed_update_entry(
    versions_project: Option<&str>,
    versions: &[ModVersion],
    loader: &str,
    mc: &str,
    entry: &InstalledMod,
) -> (r: Option<ModVersion>)
    ensures
        (match versions_project { Some(p) => p@ != entry.project_id@, None => true }) ==> r is None,
        match refreshed_spec(match versions_project { Some(p) => Some(p@), None => None }, versions@, loader@, mc@, *entry) {
            Some(i) => r matches Some(v) && version_view(v) == version_view(versions@[i]),
            None => r is None,
        },
{
    let same = match versions_project {
        Some(p) => text::str_eq(p, entry.project_id.as_str()),
        None => false,
    };
    if !same {
        return None;
    }
    newer_compatible(versions, loader, mc, entry.version_id.as_str())
}

/// A version list of one project never yields an update for another
/// project's mod.
pub proof fn law_update_entry_same_project(
    versions_project: Option<Seq<char>>,
    versions: Seq<ModVersion>,
    loader: Seq<char>,
    mc: Seq<char>,
    entry: InstalledMod,
)
    ensures
        versions_project != Some(entry.project_id@) ==> refreshed_spec(versions_project, versions, loader, mc, entry) is None,
        refreshed_spec(versions_project, versions, loader, mc, entry) matches Some(i) ==> versions[i].id@ != entry.version_id@
            && crate::modrinth::is_compatible_spec(versions[i], loader, mc),
{
    crate::modrinth::law_latest_is_first_compatible(versions, loader, mc);
}

// ---------------------------------------------------------------------
// Launch options
// ---------------------------------------------------------------------

pub open spec fn sanitize_java_name_spec(name: Seq<char>) -> Seq<char> {
    if name == "Automatic"@ || name == "System Java"@ || name == "Custom"@ {
        name
    } else {
        "Automatic"@
    }
}

/// Java selections that exist: `Automatic`, `System Java`, `Custom`; any
/// other stored name falls back to `Automatic`.
pub fn sanitize_java_name(name: &str) -> (r: String)
    ensures
        r@ == sanitize_java_name_spec(name@),
{
    if text::str_eq(name, "Automatic") || text::str_eq(name, "System Java") || text::str_eq(name, "Custom") {
        name.to_string()
    } else {
        "Automatic".to_string()
    }
}

/// The Java kind a selection name stands for.
pub fn java_type_for_name(name: &str) -> (r: JavaType)
    ensures
        r == if name@ == "System Java"@ {
            JavaType::System
        } else if name@ == "Custom"@ {
            JavaType::Custom
        } else {
            JavaType::Automatic
        },
{
    if text::str_eq(name, "System Java") {
        JavaType::System
    } else if text::str_eq(name, "Custom") {
        JavaType::Custom
    } else {
        JavaType::Automatic
    }
}

/// The Java selection of an instance: its own override, else the global
/// one.
pub fn effective_java_name(instance_java: Option<&str>, current: &str) -> (r: String)
    ensures
        r@ == match instance_java {
            Some(j) => j@,
            None => current@,
        },
{
    match instance_java {
        Some(j) => j.to_string(),
        None => current.to_string(),
    }
}

pub open spec fn custom_java_spec(eff: Seq<char>, current_name: Seq<char>, path: Seq<char>, flags: Seq<char>, config: Json) -> (Seq<char>, Seq<char>) {
    if eff == "Custom"@ {
        if current_name == "Custom"@ {
            (path, flags)
        } else {
            (crate::downloader::str_or(get(config, "custom_java_path"@), ""@), crate::downloader::str_or(get(config, "custom_java_flags"@), ""@))
        }
    } else {
        (Seq::empty(), Seq::empty())
    }
}

/// Custom Java binary and flags of a start: for a `Custom` selection, the
/// ones of the Settings screen when Custom is also the global choice,
/// else the stored ones; nothing for the other selections.
pub fn custom_java_for_launch(eff: &str, current_name: &str, path: &str, flags: &str, config: &Json) -> (r: (String, String))
    ensures
        (r.0@, r.1@) == custom_java_spec(eff@, current_name@, path@, flags@, *config),
{
    if text::str_eq(eff, "Custom") {
        if text::str_eq(current_name, "Custom") {
            (path.to_string(), flags.to_string())
        } else {
            (config.get("custom_java_path").str_or(""), config.get("custom_java_flags").str_or(""))
        }
    } else {
        (String::new(), String::new())
    }
}

/// Why a start is refused: a `Custom` selection without a binary path.
pub fn launch_blocker(eff: &str, custom_path: &str) -> (r: Option<String>)
    ensures
        match r {
            Some(m) => eff@ == "Custom"@ && trim(custom_path@).len() == 0
                && m@ == "Set a custom Java path first (Settings > Custom Java)."@,
            None => !(eff@ == "Custom"@ && trim(custom_path@).len() == 0),
        },
{
    let c = text::chars_of(custom_path);
    let t = text::chars_trim(&c);
    if text::str_eq(eff, "Custom") && t.len() == 0 {
        Some("Set a custom Java path first (Settings > Custom Java).".to_string())
    } else {
        None
    }
}

pub open spec fn wrapper_commands_spec(s: Seq<char>) -> Seq<Seq<char>> {
    if s.len() == 0 {
        Seq::empty()
    } else {
        split(s, seq![' '])
    }
}

/// Wrapper commands typed in the settings, split on spaces (none for an
/// empty text).
pub fn wrapper_commands(s: &str) -> (r: Vec<String>)
    ensures
        string_views(r@) == wrapper_commands_spec(s@),
{
    if s.unicode_len() == 0 {
        let e: Vec<String> = Vec::new();
        assert(string_views(e@) =~= Seq::<Seq<char>>::empty());
        e
    } else {
        crate::launcher::get_vec_from(s)
    }
}

/// `NAME=value` pieces of the text, split on spaces: the name before the
/// first `=` and the text up to the next one.
pub open spec fn env_pairs(pieces: Seq<Seq<char>>) -> Seq<(Seq<char>, Seq<char>)>
    decreases pieces.len(),
{
    if pieces.len() == 0 {
        Seq::empty()
    } else {
        let r = env_pairs(pieces.drop_last());
        let p = pieces.last();
        if p.contains('=') {
            let parts = split(p, seq!['=']);
            r.push((parts[0], parts[1]))
        } else {
            r
        }
    }
}

pub open spec fn env_spec(s: Seq<char>) -> Map<Seq<char>, Seq<char>> {
    if s.len() == 0 {
        Map::empty()
    } else {
        assoc_map(env_pairs(split(s, seq![' '])))
    }
}

/// Environment variables typed in the settings (`NAME=value`, separated
/// by spaces), one entry per name, a later one winning.
pub fn environment_variables(s: &str) -> (r: Vec<(String, String)>)
    ensures
        keys_distinct(text::pair_views(r@)),
        assoc_map(text::pair_views(r@)) == env_spec(s@),
{
    let mut out: Vec<(String, String)> = Vec::new();
    assert(text::pair_views(out@) =~= Seq::<(Seq<char>, Seq<char>)>::empty());
    if s.unicode_len() == 0 {
        return out;
    }
    let c = text::chars_of(s);
    let sp = vec![' '];
    assert(sp@ =~= seq![' ']);
    let pieces = text::chars_split(&c, &sp);
    let ghost pv = split(s@, seq![' ']);
    assert(text::views(pieces@) =~= pv);
    let eq = vec!['='];
    assert(eq@ =~= seq!['=']);
    let mut i: usize = 0;
    assert(pv.take(0) =~= Seq::<Seq<char>>::empty());
    while i < pieces.len()
        invariant
            i <= pieces.len(),
            pv == text::views(pieces@),
            eq@ == seq!['='],
            keys_distinct(text::pair_views(out@)),
            assoc_map(text::pair_views(out@)) == assoc_map(env_pairs(pv.take(i as int))),
        decreases pieces.len() - i,
    {
        assert(pv.take(i + 1).drop_last() =~= pv.take(i as int));
        assert(pv.take(i + 1).last() == pieces@[i as int]@);
        let p = &pieces[i];
        if text::chars_contains_char(p, '=') {
            let parts = text::chars_split(p, &eq);
            proof {
                text::lemma_split_nonempty(p@, seq!['=']);
                lemma_split_two(p@, '=');
            }
            let name = text::string_of(&parts[0]);
            let value = text::string_of(&parts[1]);
            let ghost o = text::pair_views(out@);
            proof {
                let ep = env_pairs(pv.take(i + 1));
                assert(ep == env_pairs(pv.take(i as int)).push((name@, value@)));
                assert(ep.drop_last() =~= env_pairs(pv.take(i as int)));
                assert(assoc_map(ep) == assoc_map(env_pairs(pv.take(i as int))).insert(name@, value@));
            }
            let mut k: usize = 0;
            while k < out.len() && !text::str_eq(out[k].0.as_str(), name.as_str())
                invariant
                    k <= out.len(),
                    o == text::pair_views(out@),
                    forall|m: int| 0 <= m < k ==> #[trigger] o[m].0 != name@,
                decreases out.len() - k,
            {
                k += 1;
            }
            if k < out.len() {
                proof {
                    crate::modrinth::lemma_assoc_update(o, k as int, value@);
                }
                out.set(k, (name, value));
                assert(text::pair_views(out@) =~= o.update(k as int, (o[k as int].0, value@)));
            } else {
                proof {
                    crate::modrinth::lemma_assoc_push(o, name@, value@);
                }
                out.push((name, value));
                assert(text::pair_views(out@) =~= o.push((name@, value@)));
            }
        } else {
            assert(env_pairs(pv.take(i + 1)) == env_pairs(pv.take(i as int)));
        }
        i += 1;
    }
    assert(pv.take(pieces.len() as int) =~= pv);
    out
}

/// A text holding the separator splits into at least two pieces.
pub proof fn lemma_split_two(s: Seq<char>, c: char)
    requires
        s.contains(c),
    ensures
        split(s, seq![c]).len() >= 2,
    decreases s.len(),
{
    text::lemma_split_nonempty(s, seq![c]);
    if s.len() > 0 {
        text::lemma_split_nonempty(s.drop_last(), seq![c]);
        if s.last() == c {
            assert(seq![c][0] == c);
            assert(seq![c].contains(s.last()));
        } else {
            let i = choose|i: int| 0 <= i < s.len() && s[i] == c;
            assert(s.drop_last()[i] == c);
            assert(s.drop_last().contains(c));
            lemma_split_two(s.drop_last(), c);
        }
    }
}

/// Settings of a game start, assembled from the window's launch options:
/// wrapper commands and environment variables from their texts, the
/// custom Java flags split on spaces.
pub fn launch_settings(
    account: crate::auth::MinecraftAccount,
    game_version: &str,
    jvm: String,
    jvm_flags: &str,
    xmx: String,
    wrapper_text: &str,
    env_text: &str,
    game_directory: String,
    java_type: JavaType,
) -> (r: GameSettings)
    ensures
        r.account == account,
        r.game_version@ == game_version@,
        r.jvm@ == jvm@,
        string_views(r.jvmargs@) == split(jvm_flags@, seq![' ']),
        r.xmx@ == xmx@,
        string_views(r.game_wrapper_commands@) == wrapper_commands_spec(wrapper_text@),
        r.game_directory@ == game_directory@,
        r.java_type == java_type,
        keys_distinct(text::pair_views(r.enviroment_variables@)),
        assoc_map(text::pair_views(r.enviroment_variables@)) == env_spec(env_text@),
{
    GameSettings {
        account,
        game_version: game_version.to_string(),
        jvm,
        jvmargs: crate::launcher::get_vec_from(jvm_flags),
        xmx,
        game_wrapper_commands: wrapper_commands(wrapper_text),
        game_directory,
        java_type,
        enviroment_variables: environment_variables(env_text),
    }
}

// ---------------------------------------------------------------------
// Confirmations, deletions and the mod pages
// ---------------------------------------------------------------------

pub open spec fn opt_view(o: Option<String>) -> Option<Seq<char>> {
    match o {
        Some(s) => Some(s@),
        None => None,
    }
}

/// A press of a two-click button: it confirms when its key is the armed
/// one (which disarms), otherwise it arms its own key.
pub open spec fn confirm_spec(armed: Option<Seq<char>>, key: Seq<char>) -> (Option<Seq<char>>, bool) {
    if armed == Some(key) {
        (None, true)
    } else {
        (Some(key), false)
    }
}

/// One press of a two-click (delete) button (see `confirm_spec`): the
/// new armed key and whether the press confirmed.
pub fn confirm_press(armed: Option<String>, key: &str) -> (r: (Option<String>, bool))
    ensures
        (opt_view(r.0), r.1) == confirm_spec(opt_view(armed), key@),
{
    let confirmed = match &armed {
        Some(a) => text::str_eq(a.as_str(), key),
        None => false,
    };
    if confirmed {
        (None, true)
    } else {
        (Some(key.to_string()), false)
    }
}

/// Nothing is confirmed by a single press from another state, and the
/// second press on the same key always confirms and disarms.
pub proof fn law_confirm_needs_two_presses(armed: Option<Seq<char>>, key: Seq<char>)
    ensures
        confirm_spec(armed, key).1 <==> armed == Some(key),
        armed != Some(key) ==> confirm_spec(confirm_spec(armed, key).0, key) == (None::<Seq<char>>, true),
{
}

/// The update confirmation of a mod: a press on the open one closes it;
/// otherwise it opens for that mod when an update is known, and stays as
/// it was when none is.
pub open spec fn update_toggle_spec(confirm: Option<Seq<char>>, pid: Seq<char>, has_update: bool) -> Option<Seq<char>> {
    if confirm == Some(pid) {
        None
    } else if has_update {
        Some(pid)
    } else {
        confirm
    }
}

/// Press on the update button of a mod (see `update_toggle_spec`).
pub fn update_toggle(confirm: Option<String>, pid: &str, has_update: bool) -> (r: Option<String>)
    ensures
        opt_view(r) == update_toggle_spec(opt_view(confirm), pid@, has_update),
{
    let open = match &confirm {
        Some(c) => text::str_eq(c.as_str(), pid),
        None => false,
    };
    if open {
        None
    } else if has_update {
        Some(pid.to_string())
    } else {
        confirm
    }
}

pub open spec fn deletable_instance_id_spec(id: Seq<char>) -> bool {
    &&& id.len() > 0
    &&& !text::contains_sub(id, ".."@)
    &&& !id.contains('/')
    &&& !id.contains('\\')
}

/// Whether a confirmed instance deletion may remove its folders: a
/// non-empty id without `..` or a path separator, so that the folders it
/// names stay inside the versions and instances folders.
pub fn deletable_instance_id(id: &str) -> (r: bool)
    ensures
        r == deletable_instance_id_spec(id@),
{
    let c = text::chars_of(id);
    let dots = text::chars_of("..");
    c.len() > 0 && !text::chars_contains(&c, &dots) && !text::chars_contains_char(&c, '/')
        && !text::chars_contains_char(&c, '\\')
}

pub open spec fn deletable_jar_spec(name: Seq<char>) -> bool {
    &&& !name.contains('/')
    &&& !name.contains('\\')
    &&& text::ends_with(name, ".jar"@)
}

/// Whether a hand-added file of the mods folder may be deleted: a jar
/// name without a path separator.
pub fn deletable_jar_name(name: &str) -> (r: bool)
    ensures
        r == deletable_jar_spec(name@),
{
    let c = text::chars_of(name);
    let jar = text::chars_of(".jar");
    !text::chars_contains_char(&c, '/') && !text::chars_contains_char(&c, '\\') && text::chars_ends_with(&c, &jar)
}

/// Most mod pages the Back button can return through.
pub open spec fn history_cap() -> nat {
    20
}

/// The page history after opening another page from the page `back_to`:
/// it is pushed unless it is already the last one, and the oldest entry
/// goes once there are more than `history_cap()`.
pub open spec fn pushed_history(h: Seq<Seq<char>>, back_to: Seq<char>) -> Seq<Seq<char>> {
    if h.len() > 0 && h.last() == back_to {
        h
    } else if h.len() + 1 > history_cap() {
        h.push(back_to).drop_first()
    } else {
        h.push(back_to)
    }
}

/// Record the page left for another one (see `pushed_history`).
pub fn push_history(history: Vec<String>, back_to: String) -> (r: Vec<String>)
    ensures
        string_views(r@) == pushed_history(string_views(history@), back_to@),
{
    let n = history.len();
    if n > 0 && text::str_eq(history[n - 1].as_str(), back_to.as_str()) {
        return history;
    }
    let ghost hv = string_views(history@);
    let mut h = history;
    h.push(back_to);
    assert(string_views(h@) =~= hv.push(back_to@));
    if h.len() > 20 {
        h.remove(0);
        assert(string_views(h@) =~= hv.push(back_to@).drop_first());
    }
    h
}

/// The history never holds more than `history_cap()` pages, and after a
/// push the Back button returns to the page that was left.
pub proof fn law_history_bounded(h: Seq<Seq<char>>, back_to: Seq<char>)
    requires
        h.len() <= history_cap(),
    ensures
        pushed_history(h, back_to).len() <= history_cap(),
        pushed_history(h, back_to).last() == back_to,
{
}

/// Dependency projects whose titles still have to be fetched: the mapped
/// ids of the dependencies, in order, without those already known
/// (`cached`) and without repeats.
pub open spec fn missing_dep_titles_spec(deps: Seq<crate::modrinth::ModDependency>, cached: Seq<Seq<char>>) -> Seq<Seq<char>>
    decreases deps.len(),
{
    if deps.len() == 0 {
        Seq::empty()
    } else {
        let r = missing_dep_titles_spec(deps.drop_last(), cached);
        match deps.last().project_id {
            Some(p) => if cached.contains(p@) || r.contains(p@) {
                r
            } else {
                r.push(p@)
            },
            None => r,
        }
    }
}

pub(crate) fn has_view(v: &Vec<String>, t: &str) -> (r: bool)
    ensures
        r == string_views(v@).contains(t@),
{
    let mut i: usize = 0;
    while i < v.len()
        invariant
            i <= v.len(),
            forall|j: int| 0 <= j < i ==> #[trigger] v@[j]@ != t@,
        decreases v.len() - i,
    {
        if text::str_eq(v[i].as_str(), t) {
            assert(string_views(v@)[i as int] == t@);
            return true;
        }
        i += 1;
    }
    assert forall|j: int| 0 <= j < string_views(v@).len() implies #[trigger] string_views(v@)[j] != t@ by {
        assert(string_views(v@)[j] == v@[j]@);
    }
    false
}

proof fn lemma_missing_dep_titles(deps: Seq<crate::modrinth::ModDependency>, cached: Seq<Seq<char>>)
    ensures
        forall|i: int, j: int| 0 <= i < j < missing_dep_titles_spec(deps, cached).len()
            ==> missing_dep_titles_spec(deps, cached)[i] != missing_dep_titles_spec(deps, cached)[j],
        forall|i: int| 0 <= i < missing_dep_titles_spec(deps, cached).len()
            ==> !cached.contains(#[trigger] missing_dep_titles_spec(deps, cached)[i]),
    decreases deps.len(),
{
    if deps.len() > 0 {
        lemma_missing_dep_titles(deps.drop_last(), cached);
        let r = missing_dep_titles_spec(deps.drop_last(), cached);
        match deps.last().project_id {
            Some(p) => {
                if !(cached.contains(p@) || r.contains(p@)) {
                    let s = r.push(p@);
                    assert forall|i: int, j: int| 0 <= i < j < s.len() implies s[i] != s[j] by {
                        if j == r.len() {
                            assert(r[i] == s[i]);
                            if s[i] == s[j] {
                                assert(r.contains(p@));
                            }
                        }
                    }
                }
            },
            None => {},
        }
    }
}

/// The dependency titles a mod page still has to fetch (see
/// `missing_dep_titles_spec`); no id comes twice and none is known.
pub fn missing_dep_titles(deps: &Vec<crate::modrinth::ModDependency>, cached: &Vec<String>) -> (r: Vec<String>)
    ensures
        string_views(r@) == missing_dep_titles_spec(deps@, string_views(cached@)),
        forall|i: int, j: int| 0 <= i < j < r@.len() ==> r@[i]@ != r@[j]@,
        forall|i: int| 0 <= i < r@.len() ==> !string_views(cached@).contains(#[trigger] r@[i]@),
{
    let ghost cv = string_views(cached@);
    let mut out: Vec<String> = Vec::new();
    let mut i: usize = 0;
    assert(deps@.take(0) =~= Seq::<crate::modrinth::ModDependency>::empty());
    assert(string_views(out@) =~= Seq::<Seq<char>>::empty());
    while i < deps.len()
        invariant
            i <= deps.len(),
            cv == string_views(cached@),
            string_views(out@) == missing_dep_titles_spec(deps@.take(i as int), cv),
        decreases deps.len() - i,
    {
        assert(deps@.take(i + 1).drop_last() =~= deps@.take(i as int));
        assert(deps@.take(i + 1).last() == deps@[i as int]);
        match &deps[i].project_id {
            Some(p) => {
                let known = has_view(cached, p.as_str());
                let seen = has_view(&out, p.as_str());
                if !known && !seen {
                    let ghost o = string_views(out@);
                    out.push(p.clone());
                    assert(string_views(out@) =~= o.push(p@));
                }
            },
            None => {},
        }
        i += 1;
    }
    assert(deps@.take(deps.len() as int) =~= deps@);
    proof {
        lemma_missing_dep_titles(deps@, cv);
        assert forall|i: int, j: int| 0 <= i < j < out@.len() implies out@[i]@ != out@[j]@ by {
            assert(string_views(out@)[i] == out@[i]@);
            assert(string_views(out@)[j] == out@[j]@);
        }
        assert forall|i: int| 0 <= i < out@.len() implies !cv.contains(#[trigger] out@[i]@) by {
            assert(string_views(out@)[i] == out@[i]@);
        }
    }
    out
}

/// Status of a mod update check when it starts: with nothing to check,
/// it is over at once (no mods, or all up to date); otherwise it runs as
/// a manual check.
pub fn update_checks_started(checks: usize, installed: usize) -> (r: (bool, String))
    ensures
        checks == 0 ==> !r.0 && r.1@ == if installed == 0 { "No mods installed."@ } else { "All mods up to date ✓"@ },
        checks > 0 ==> r.0 && r.1@ == "Checking updates..."@,
{
    if checks == 0 {
        if installed == 0 {
            (false, "No mods installed.".to_string())
        } else {
            (false, "All mods up to date ✓".to_string())
        }
    } else {
        (true, "Checking updates...".to_string())
    }
}

/// After one update check answered: the checks still running, whether a
/// manual check is still on, and the status shown once the last answer of
/// a manual check is in.
pub open spec fn update_check_done_spec(pending: u32, manual: bool, updates: nat) -> (u32, bool, Option<Seq<char>>) {
    let left: u32 = if pending > 0 { (pending - 1) as u32 } else { 0 };
    if left == 0 && manual {
        (left, false, Some(if updates == 0 {
            "All mods up to date ✓"@
        } else {
            text::decimal(updates) + " update(s) available"@
        }))
    } else {
        (left, manual, None)
    }
}

/// One update check answered (see `update_check_done_spec`); `updates`
/// is the number of mods with a known update.
pub fn update_check_done(pending: u32, manual: bool, updates: usize) -> (r: (u32, bool, Option<String>))
    ensures
        (r.0, r.1, opt_view(r.2)) == update_check_done_spec(pending, manual, updates as nat),
{
    let left = pending.saturating_sub(1);
    if left == 0 && manual {
        let status = if updates == 0 {
            "All mods up to date ✓".to_string()
        } else {
            let mut s = text::decimal_chars(updates as u64);
            text::push_str(&mut s, " update(s) available");
            text::string_of(&s)
        };
        (left, false, Some(status))
    } else {
        (left, manual, None)
    }
}

// ---------------------------------------------------------------------
// Accounts
// ---------------------------------------------------------------------

/// A copy of an account.
pub fn copy_account(a: &Account) -> (r: Account)
    ensures
        account_view(r) == account_view(*a),
{
    Account { microsoft: a.microsoft, username: a.username.clone(), refresh_token: a.refresh_token.clone() }
}

pub open spec fn has_username(accounts: Seq<Account>, name: Seq<char>) -> bool {
    exists|i: int| 0 <= i < accounts.len() && (#[trigger] accounts[i]).username@ == name
}

/// The current account after start: one that is no longer in the list
/// falls back to the first stored account (or an empty one), and the
/// flag says whether it changed.
pub fn healed_current_account(current: Account, accounts: &Vec<Account>) -> (r: (Account, bool))
    ensures
        (current.username@.len() > 0 && !has_username(accounts@, current.username@)) ==> r.1 && account_view(r.0) == if accounts@.len() > 0 {
            account_view(accounts@[0])
        } else {
            (false, Seq::<char>::empty(), Seq::<char>::empty())
        },
        !(current.username@.len() > 0 && !has_username(accounts@, current.username@)) ==> !r.1 && account_view(r.0) == account_view(current),
{
    let mut found = false;
    let mut i: usize = 0;
    while i < accounts.len()
        invariant
            i <= accounts.len(),
            found == exists|j: int| 0 <= j < i && (#[trigger] accounts@[j]).username@ == current.username@,
        decreases accounts.len() - i,
    {
        if text::str_eq(accounts[i].username.as_str(), current.username.as_str()) {
            found = true;
        }
        i += 1;
    }
    if current.username.unicode_len() != 0 && !found {
        if accounts.len() > 0 {
            (copy_account(&accounts[0]), true)
        } else {
            (Account { microsoft: false, username: String::new(), refresh_token: String::new() }, true)
        }
    } else {
        (current, false)
    }
}

pub open spec fn without_user(accounts: Seq<(bool, Seq<char>, Seq<char>)>, name: Seq<char>) -> Seq<(bool, Seq<char>, Seq<char>)> {
    accounts.filter(|a: (bool, Seq<char>, Seq<char>)| a.1 != name)
}

/// Removing an account by name: the list without it, and the current
/// account, which falls back to the first remaining one (or an empty one)
/// when it was the removed one.
pub fn remove_account(accounts: &Vec<Account>, current: &Account, name: &str) -> (r: (Vec<Account>, Account))
    ensures
        accounts_view(r.0@) == without_user(accounts_view(accounts@), name@),
        account_view(r.1) == if current.username@ == name@ {
            if r.0@.len() > 0 {
                account_view(r.0@[0])
            } else {
                (false, Seq::<char>::empty(), Seq::<char>::empty())
            }
        } else {
            account_view(*current)
        },
{
    let ghost av = accounts_view(accounts@);
    let ghost pred = |a: (bool, Seq<char>, Seq<char>)| a.1 != name@;
    let mut out: Vec<Account> = Vec::new();
    let mut i: usize = 0;
    assert(av.take(0) =~= Seq::<(bool, Seq<char>, Seq<char>)>::empty());
    assert(accounts_view(out@) =~= Seq::<(bool, Seq<char>, Seq<char>)>::empty());
    proof {
        reveal(Seq::filter);
    }
    while i < accounts.len()
        invariant
            i <= accounts.len(),
            av == accounts_view(accounts@),
            pred == (|a: (bool, Seq<char>, Seq<char>)| a.1 != name@),
            accounts_view(out@) == av.take(i as int).filter(pred),
        decreases accounts.len() - i,
    {
        assert(av.take(i + 1).drop_last() =~= av.take(i as int));
        assert(av.take(i + 1).last() == account_view(accounts@[i as int]));
        if !text::str_eq(accounts[i].username.as_str(), name) {
            let ghost o = accounts_view(out@);
            let a = copy_account(&accounts[i]);
            out.push(a);
            assert(accounts_view(out@) =~= o.push(account_view(a)));
            assert(av.take(i + 1).filter(pred) == av.take(i as int).filter(pred).push(account_view(accounts@[i as int]))) by {
                reveal(Seq::filter);
            }
        } else {
            assert(av.take(i + 1).filter(pred) == av.take(i as int).filter(pred)) by {
                reveal(Seq::filter);
            }
        }
        i += 1;
    }
    assert(av.take(accounts.len() as int) =~= av);
    let cur = if text::str_eq(current.username.as_str(), name) {
        if out.len() > 0 {
            copy_account(&out[0])
        } else {
            Account { microsoft: false, username: String::new(), refresh_token: String::new() }
        }
    } else {
        copy_account(current)
    };
    (out, cur)
}

/// The account picked by name in the accounts list: the first one of
/// that name, if any.
pub fn account_named(accounts: &Vec<Account>, name: &str) -> (r: Option<Account>)
    ensures
        match r {
            Some(a) => exists|i: int| 0 <= i < accounts@.len() && (#[trigger] accounts@[i]).username@ == name@
                && (forall|j: int| 0 <= j < i ==> accounts@[j].username@ != name@)
                && account_view(a) == account_view(accounts@[i]),
            None => !has_username(accounts@, name@),
        },
{
    let mut i: usize = 0;
    while i < accounts.len()
        invariant
            i <= accounts.len(),
            forall|j: int| 0 <= j < i ==> (#[trigger] accounts@[j]).username@ != name@,
        decreases accounts.len() - i,
    {
        if text::str_eq(accounts[i].username.as_str(), name) {
            return Some(copy_account(&accounts[i]));
        }
        i += 1;
    }
    None
}

/// A local account name can be added when it has 3 to 16 characters.
pub fn local_account_name_ok(name: &str) -> (r: bool)
    ensures
        r == (3 <= name@.len() <= 16),
{
    let n = name.unicode_len();
    3 <= n && n <= 16
}

} // verus!

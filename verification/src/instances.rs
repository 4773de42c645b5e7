//! Installed versions and their instance folders: folder names, the name
//! rules for renames and custom install names, the loader a version runs
//! with, and where per-instance files live.
use vstd::prelude::*;
use crate::json::{Json, get, as_str, as_array};
use crate::text;
use crate::text::{contains_sub, lowercase, trim};

verus! {

/// `char::is_control`: the Unicode control codes (category `Cc`).
pub open spec fn is_control(c: char) -> bool {
    c <= '\u{1f}' || ('\u{7f}' <= c && c <= '\u{9f}')
}

pub open spec fn unsafe_name_char(c: char) -> bool {
    c == '/' || c == '\\' || is_control(c)
}

pub open spec fn sanitize_instance_name_spec(version: Seq<char>) -> Seq<char> {
    let mapped = version.map_values(|c: char| if unsafe_name_char(c) { '_' } else { c });
    let t = trim(mapped);
    if t.len() == 0 || t == "."@ || t == ".."@ {
        "unknown"@
    } else {
        t
    }
}

/// Folder name for the isolated game data of a version: path separators
/// and control characters become `_`, surrounding whitespace is dropped,
/// and an empty name, `.` or `..` becomes `unknown`.
pub fn sanitize_instance_name(version: &str) -> (r: String)
    ensures
        r@ == sanitize_instance_name_spec(version@),
{
    let c = text::chars_of(version);
    let mut m: Vec<char> = Vec::new();
    let mut i: usize = 0;
    while i < c.len()
        invariant
            i <= c.len(),
            m@ == c@.take(i as int).map_values(|c: char| if unsafe_name_char(c) { '_' } else { c }),
        decreases c.len() - i,
    {
        let ch = c[i];
        let bad = ch == '/' || ch == '\\' || ch <= '\u{1f}' || ('\u{7f}' <= ch && ch <= '\u{9f}');
        if bad {
            m.push('_');
        } else {
            m.push(ch);
        }
        assert(c@.take(i + 1) =~= c@.take(i as int).push(ch));
        i += 1;
        assert(m@ =~= c@.take(i as int).map_values(|c: char| if unsafe_name_char(c) { '_' } else { c }));
    }
    assert(c@.take(c.len() as int) =~= c@);
    let t = text::chars_trim(&m);
    let ts = text::string_of(&t);
    if t.len() == 0 || text::str_eq(ts.as_str(), ".") || text::str_eq(ts.as_str(), "..") {
        "unknown".to_string()
    } else {
        ts
    }
}

/// A sanitized folder name is never empty, `.` or `..`, and holds no
/// path separator or control character, so the instance folder always
/// stays directly inside `dgrlauncher_instances`.
pub proof fn law_instance_name_safe(version: Seq<char>)
    ensures
        ({
            let n = sanitize_instance_name_spec(version);
            &&& n.len() > 0
            &&& n != "."@
            &&& n != ".."@
            &&& forall|i: int| 0 <= i < n.len() ==> !unsafe_name_char(#[trigger] n[i])
        }),
{
    let mapped = version.map_values(|c: char| if unsafe_name_char(c) { '_' } else { c });
    let e = text::trim_end(mapped);
    let t = trim(mapped);
    text::lemma_trim_end_prefix(mapped);
    text::lemma_trim_start_suffix(e);
    assert forall|i: int| 0 <= i < t.len() implies !unsafe_name_char(#[trigger] t[i]) by {
        let j = e.len() - t.len() + i;
        assert(t[i] == e[j]);
        assert(e[j] == mapped[j]);
    }
    if t.len() == 0 || t == "."@ || t == ".."@ {
        reveal_strlit("unknown");
        let u = "unknown"@;
        assert forall|i: int| 0 <= i < u.len() implies !unsafe_name_char(#[trigger] u[i]) by {}
        reveal_strlit(".");
        reveal_strlit("..");
        assert(u.len() != "."@.len() && u.len() != ".."@.len());
    }
}

pub open spec fn instance_dir_spec(mc_dir: Seq<char>, version: Seq<char>) -> Seq<char> {
    mc_dir + "/dgrlauncher_instances/"@ + sanitize_instance_name_spec(version)
}

/// Isolated game directory of a version:
/// `{minecraft_dir}/dgrlauncher_instances/<sanitized version>`.
pub fn instance_dir_for(mc_dir: &str, version: &str) -> (r: String)
    ensures
        r@ == instance_dir_spec(mc_dir@, version@),
{
    let mut d = text::chars_of(mc_dir);
    text::push_str(&mut d, "/dgrlauncher_instances/");
    let n = sanitize_instance_name(version);
    text::push_str(&mut d, n.as_str());
    text::string_of(&d)
}

/// Game directory of a version under the Minecraft folder `mc_dir`.
pub fn game_instance_dir_for_version(mc_dir: &str, version: &str) -> (r: String)
    ensures
        r@ == instance_dir_spec(mc_dir@, version@),
{
    instance_dir_for(mc_dir, version)
}

pub open spec fn instance_config_path_spec(mc_dir: Seq<char>, version: Seq<char>) -> Seq<char> {
    instance_dir_spec(mc_dir, version) + "/dgrlauncher_instance.json"@
}

/// Per-instance overrides file.
pub fn instance_config_path(mc_dir: &str, version: &str) -> (r: String)
    ensures
        r@ == instance_config_path_spec(mc_dir@, version@),
{
    let mut d = text::chars_of(instance_dir_for(mc_dir, version).as_str());
    text::push_str(&mut d, "/dgrlauncher_instance.json");
    text::string_of(&d)
}

/// Icon preset ids of the instance settings (`""` is the default cube).
pub fn instance_icon_presets() -> (r: Vec<String>)
    ensures
        text::string_views(r@) == seq![Seq::<char>::empty(), "star"@, "heart"@, "letter"@],
{
    let mut v: Vec<String> = Vec::new();
    v.push(String::new());
    v.push("star".to_string());
    v.push("heart".to_string());
    v.push("letter".to_string());
    assert(text::string_views(v@) =~= seq![Seq::<char>::empty(), "star"@, "heart"@, "letter"@]);
    v
}

pub open spec fn version_dir_spec(mc_dir: Seq<char>, name: Seq<char>) -> Seq<char> {
    mc_dir + "/versions/"@ + name
}

pub open spec fn version_json_path_spec(mc_dir: Seq<char>, id: Seq<char>) -> Seq<char> {
    version_dir_spec(mc_dir, id) + "/"@ + id + ".json"@
}

/// Folder of an installed version.
pub fn version_dir(mc_dir: &str, name: &str) -> (r: String)
    ensures
        r@ == version_dir_spec(mc_dir@, name@),
{
    let mut d = text::chars_of(mc_dir);
    text::push_str(&mut d, "/versions/");
    text::push_str(&mut d, name);
    text::string_of(&d)
}

/// Version json of an installed version: `versions/{id}/{id}.json`.
pub fn version_json_path(mc_dir: &str, id: &str) -> (r: String)
    ensures
        r@ == version_json_path_spec(mc_dir@, id@),
{
    let mut d = text::chars_of(version_dir(mc_dir, id).as_str());
    text::push_str(&mut d, "/");
    text::push_str(&mut d, id);
    text::push_str(&mut d, ".json");
    text::string_of(&d)
}

pub open spec fn bad_instance_name(new: Seq<char>) -> bool {
    new.len() == 0 || new == "."@ || new == ".."@ || new.contains('/') || new.contains('\\')
}

pub open spec fn valid_new_name_spec(new: Seq<char>, taken: bool) -> Result<(), Seq<char>> {
    if bad_instance_name(new) {
        Err("Invalid name."@)
    } else if taken {
        Err("A version with this name already exists."@)
    } else {
        Ok(())
    }
}

/// Name rules shared by renames and custom install names: not empty, not
/// `.` or `..`, no path separator, and (`taken`) no installed version of
/// that name yet.
pub fn valid_new_instance_name(new: &str, taken: bool) -> (r: Result<(), String>)
    ensures
        match r {
            Ok(_) => valid_new_name_spec(new@, taken) is Ok,
            Err(e) => valid_new_name_spec(new@, taken) == Err::<(), Seq<char>>(e@),
        },
{
    let c = text::chars_of(new);
    if c.len() == 0 || text::str_eq(new, ".") || text::str_eq(new, "..") || text::chars_contains_char(&c, '/')
        || text::chars_contains_char(&c, '\\') {
        return Err("Invalid name.".to_string());
    }
    if taken {
        return Err("A version with this name already exists.".to_string());
    }
    Ok(())
}

pub open spec fn rename_check_spec(old: Seq<char>, new: Seq<char>, taken: bool) -> Result<(), Seq<char>> {
    match valid_new_name_spec(new, taken) {
        Err(e) => Err(e),
        Ok(_) => if new == old {
            Err("Same name, nothing to do."@)
        } else {
            Ok(())
        },
    }
}

/// Whether a rename may start (the name rules, then a real change).
pub fn rename_check(old: &str, new: &str, taken: bool) -> (r: Result<(), String>)
    ensures
        match r {
            Ok(_) => rename_check_spec(old@, new@, taken) is Ok,
            Err(e) => rename_check_spec(old@, new@, taken) == Err::<(), Seq<char>>(e@),
        },
{
    match valid_new_instance_name(new, taken) {
        Err(e) => Err(e),
        Ok(_) => if text::str_eq(new, old) {
            Err("Same name, nothing to do.".to_string())
        } else {
            Ok(())
        },
    }
}

/// The moves of a rename, in order: the version folder, then the json and
/// jar inside it (each only when present), then the instance folder.
pub fn rename_moves(mc_dir: &str, old: &str, new: &str) -> (r: Vec<(String, String)>)
    ensures
        text::pair_views(r@) == seq![
            (version_dir_spec(mc_dir@, old@), version_dir_spec(mc_dir@, new@)),
            (version_dir_spec(mc_dir@, new@) + "/"@ + old@ + ".json"@, version_dir_spec(mc_dir@, new@) + "/"@ + new@ + ".json"@),
            (version_dir_spec(mc_dir@, new@) + "/"@ + old@ + ".jar"@, version_dir_spec(mc_dir@, new@) + "/"@ + new@ + ".jar"@),
            (instance_dir_spec(mc_dir@, old@), instance_dir_spec(mc_dir@, new@)),
        ],
{
    let od = version_dir(mc_dir, old);
    let nd = version_dir(mc_dir, new);
    let mut v: Vec<(String, String)> = Vec::new();
    v.push((od, nd.clone()));
    let mut a = text::chars_of(nd.as_str());
    text::push_str(&mut a, "/");
    text::push_str(&mut a, old);
    let mut b = text::chars_of(nd.as_str());
    text::push_str(&mut b, "/");
    text::push_str(&mut b, new);
    let mut aj = text::chars_copy(&a);
    text::push_str(&mut aj, ".json");
    let mut bj = text::chars_copy(&b);
    text::push_str(&mut bj, ".json");
    v.push((text::string_of(&aj), text::string_of(&bj)));
    text::push_str(&mut a, ".jar");
    text::push_str(&mut b, ".jar");
    v.push((text::string_of(&a), text::string_of(&b)));
    v.push((instance_dir_for(mc_dir, old), instance_dir_for(mc_dir, new)));
    assert(text::pair_views(v@) =~= seq![
        (version_dir_spec(mc_dir@, old@), version_dir_spec(mc_dir@, new@)),
        (version_dir_spec(mc_dir@, new@) + "/"@ + old@ + ".json"@, version_dir_spec(mc_dir@, new@) + "/"@ + new@ + ".json"@),
        (version_dir_spec(mc_dir@, new@) + "/"@ + old@ + ".jar"@, version_dir_spec(mc_dir@, new@) + "/"@ + new@ + ".jar"@),
        (instance_dir_spec(mc_dir@, old@), instance_dir_spec(mc_dir@, new@)),
    ]);
    v
}

/// The renames that undo a list of renames already made: each one
/// reversed, the latest first.
pub open spec fn undo_spec(done: Seq<(Seq<char>, Seq<char>)>) -> Seq<(Seq<char>, Seq<char>)> {
    Seq::new(done.len(), |i: int| (done[done.len() - 1 - i].1, done[done.len() - 1 - i].0))
}

/// How to roll a rename back after a failed step, so that no half-rename
/// stays on disk (see `undo_spec`).
pub fn undo_moves(done: &Vec<(String, String)>) -> (r: Vec<(String, String)>)
    ensures
        text::pair_views(r@) == undo_spec(text::pair_views(done@)),
{
    let ghost d = text::pair_views(done@);
    let mut out: Vec<(String, String)> = Vec::new();
    let mut i: usize = done.len();
    while i > 0
        invariant
            i <= done.len(),
            d == text::pair_views(done@),
            text::pair_views(out@) == undo_spec(d).take(done.len() - i),
        decreases i,
    {
        i -= 1;
        let ghost o = text::pair_views(out@);
        out.push((done[i].1.clone(), done[i].0.clone()));
        assert(text::pair_views(out@) =~= o.push((d[i as int].1, d[i as int].0)));
        assert(undo_spec(d)[done.len() - 1 - i] == (d[i as int].1, d[i as int].0));
        assert(undo_spec(d).take(done.len() - i) =~= undo_spec(d).take(done.len() - i - 1).push(undo_spec(d)[done.len() - 1 - i]));
    }
    assert(undo_spec(d).take(done.len() as int) =~= undo_spec(d));
    out
}

/// The undo of a rename list is that list reversed with each rename
/// turned around, so undoing the undo gives the renames back.
pub proof fn law_undo_of_undo(done: Seq<(Seq<char>, Seq<char>)>)
    ensures
        undo_spec(undo_spec(done)) == done,
{
    assert(undo_spec(undo_spec(done)) =~= done);
}

// ---------------------------------------------------------------------
// Renaming, step by step
// ---------------------------------------------------------------------

/// What the outside reports after doing the last action of a rename.
pub enum RenameEvent {
    /// The rename is about to start.
    Begin,
    /// The rename was made.
    Moved,
    /// The source was not there, so nothing was renamed.
    Absent,
    /// The rename failed with this message.
    Failed(String),
    /// The version json reads as json.
    Readable,
    Unreadable,
}

pub enum RenameEventView {
    Begin,
    Moved,
    Absent,
    Failed(Seq<char>),
    Readable,
    Unreadable,
}

impl View for RenameEvent {
    type V = RenameEventView;

    open spec fn view(&self) -> RenameEventView {
        match self {
            RenameEvent::Begin => RenameEventView::Begin,
            RenameEvent::Moved => RenameEventView::Moved,
            RenameEvent::Absent => RenameEventView::Absent,
            RenameEvent::Failed(e) => RenameEventView::Failed(e@),
            RenameEvent::Readable => RenameEventView::Readable,
            RenameEvent::Unreadable => RenameEventView::Unreadable,
        }
    }
}

/// What the outside has to do next for a rename.
pub enum RenameAction {
    /// Rename; it must succeed.
    Move(String, String),
    /// Rename when the source exists.
    MoveIfPresent(String, String),
    /// Check that the version json at this path reads as json.
    CheckReadable(String),
    /// Make these renames, in order, to undo what was done; then the
    /// rename fails with this message.
    RollBack(Vec<(String, String)>, String),
    /// The rename is complete.
    Finished,
}

pub enum RenameActionView {
    Move(Seq<char>, Seq<char>),
    MoveIfPresent(Seq<char>, Seq<char>),
    CheckReadable(Seq<char>),
    RollBack(Seq<(Seq<char>, Seq<char>)>, Seq<char>),
    Finished,
}

impl View for RenameAction {
    type V = RenameActionView;

    open spec fn view(&self) -> RenameActionView {
        match self {
            RenameAction::Move(a, b) => RenameActionView::Move(a@, b@),
            RenameAction::MoveIfPresent(a, b) => RenameActionView::MoveIfPresent(a@, b@),
            RenameAction::CheckReadable(p) => RenameActionView::CheckReadable(p@),
            RenameAction::RollBack(u, m) => RenameActionView::RollBack(text::pair_views(u@), m@),
            RenameAction::Finished => RenameActionView::Finished,
        }
    }
}

/// A rename in progress: its moves (see `rename_moves`), the step it
/// waits on, the renames already made, and the version json to check.
pub struct RenameRun {
    moves: Vec<(String, String)>,
    step: usize,
    done: Vec<(String, String)>,
    new_json: String,
}

#[verifier::ext_equal]
pub struct RenameRunView {
    pub moves: Seq<(Seq<char>, Seq<char>)>,
    pub step: nat,
    pub done: Seq<(Seq<char>, Seq<char>)>,
    pub new_json: Seq<char>,
}

impl View for RenameRun {
    type V = RenameRunView;

    closed spec fn view(&self) -> RenameRunView {
        RenameRunView {
            moves: text::pair_views(self.moves@),
            step: self.step as nat,
            done: text::pair_views(self.done@),
            new_json: self.new_json@,
        }
    }
}

/// The move whose outcome a step waits on: the first three moves at
/// steps 1 to 3, the instance folder at step 5.
pub open spec fn move_of_step(step: nat) -> int {
    if step == 5 {
        3
    } else {
        step - 1
    }
}

/// Whether an event is one the step waits on: the start, then the result
/// of the version folder rename (it must exist), of the optional json and
/// jar renames, of the readability check, and of the optional instance
/// folder rename.
pub open spec fn event_fits(step: nat, e: RenameEventView) -> bool {
    match e {
        RenameEventView::Begin => step == 0,
        RenameEventView::Moved => step == 1 || step == 2 || step == 3 || step == 5,
        RenameEventView::Absent => step == 2 || step == 3 || step == 5,
        RenameEventView::Failed(_) => step == 1 || step == 2 || step == 3 || step == 5,
        RenameEventView::Readable => step == 4,
        RenameEventView::Unreadable => step == 4,
    }
}

pub open spec fn failure_text(step: nat, e: Seq<char>) -> Seq<char> {
    if step == 5 {
        "Instance folder failed, rolled back: "@ + e
    } else {
        "Rename failed: "@ + e
    }
}

/// One step of a rename. The version folder is renamed first, then its
/// json and jar (when there), then the json must still read; the
/// instance folder comes last. Any failure rolls back every rename made
/// so far (`undo_spec`), so no half-rename stays.
pub open spec fn rename_step_spec(r: RenameRunView, e: RenameEventView) -> (RenameRunView, RenameActionView) {
    let over = RenameRunView { step: 6, ..r };
    match e {
        RenameEventView::Begin => (RenameRunView { step: 1, ..r }, RenameActionView::Move(r.moves[0].0, r.moves[0].1)),
        RenameEventView::Failed(msg) => (over, RenameActionView::RollBack(undo_spec(r.done), failure_text(r.step, msg))),
        RenameEventView::Unreadable => (over, RenameActionView::RollBack(undo_spec(r.done), "Version files unreadable after rename, rolled back."@)),
        RenameEventView::Readable => (RenameRunView { step: 5, ..r }, RenameActionView::MoveIfPresent(r.moves[3].0, r.moves[3].1)),
        _ => {
            let done = if e == RenameEventView::Moved { r.done.push(r.moves[move_of_step(r.step)]) } else { r.done };
            if r.step == 1 || r.step == 2 {
                (RenameRunView { step: r.step + 1, done, ..r }, RenameActionView::MoveIfPresent(r.moves[r.step as int].0, r.moves[r.step as int].1))
            } else if r.step == 3 {
                (RenameRunView { step: 4, done, ..r }, RenameActionView::CheckReadable(r.new_json))
            } else {
                (RenameRunView { step: 6, done, ..r }, RenameActionView::Finished)
            }
        },
    }
}

impl RenameRun {
    /// Begin renaming `old` to `new` (`taken`: a version named `new`
    /// exists), or the reason it may not start (see `rename_check_spec`).
    pub fn start(mc_dir: &str, old: &str, new: &str, taken: bool) -> (r: Result<RenameRun, String>)
        ensures
            match r {
                Ok(run) => rename_check_spec(old@, new@, taken) is Ok && run@.step == 0 && run@.done == Seq::<(Seq<char>, Seq<char>)>::empty()
                    && run@.new_json == version_json_path_spec(mc_dir@, new@),
                Err(e) => rename_check_spec(old@, new@, taken) == Err::<(), Seq<char>>(e@),
            },
            match r {
                Ok(run) => run@.moves == seq![
                    (version_dir_spec(mc_dir@, old@), version_dir_spec(mc_dir@, new@)),
                    (version_dir_spec(mc_dir@, new@) + "/"@ + old@ + ".json"@, version_dir_spec(mc_dir@, new@) + "/"@ + new@ + ".json"@),
                    (version_dir_spec(mc_dir@, new@) + "/"@ + old@ + ".jar"@, version_dir_spec(mc_dir@, new@) + "/"@ + new@ + ".jar"@),
                    (instance_dir_spec(mc_dir@, old@), instance_dir_spec(mc_dir@, new@)),
                ],
                Err(_) => true,
            },
    {
        match rename_check(old, new, taken) {
            Err(e) => Err(e),
            Ok(_) => {
                let moves = rename_moves(mc_dir, old, new);
                let done: Vec<(String, String)> = Vec::new();
                assert(text::pair_views(done@) =~= Seq::<(Seq<char>, Seq<char>)>::empty());
                Ok(RenameRun { moves, step: 0, done, new_json: version_json_path(mc_dir, new) })
            },
        }
    }

    fn next_after_move(&mut self) -> (a: RenameAction)
        requires
            old(self).moves@.len() == 4,
            old(self).step == 1 || old(self).step == 2 || old(self).step == 3 || old(self).step == 5,
        ensures
            final(self).moves == old(self).moves,
            final(self).done == old(self).done,
            final(self).new_json == old(self).new_json,
            final(self).step == if old(self).step == 1 || old(self).step == 2 { old(self).step + 1 } else if old(self).step == 3 { 4 } else { 6 },
            a@ == if old(self).step == 1 || old(self).step == 2 {
                RenameActionView::MoveIfPresent(text::pair_views(old(self).moves@)[old(self).step as int].0, text::pair_views(old(self).moves@)[old(self).step as int].1)
            } else if old(self).step == 3 {
                RenameActionView::CheckReadable(old(self).new_json@)
            } else {
                RenameActionView::Finished
            },
    {
        if self.step == 1 || self.step == 2 {
            let k = self.step;
            self.step = k + 1;
            RenameAction::MoveIfPresent(self.moves[k].0.clone(), self.moves[k].1.clone())
        } else if self.step == 3 {
            self.step = 4;
            RenameAction::CheckReadable(self.new_json.clone())
        } else {
            self.step = 6;
            RenameAction::Finished
        }
    }

    /// Take the outcome of the last action and give the next one (see
    /// `rename_step_spec`).
    pub fn advance(&mut self, event: RenameEvent) -> (a: RenameAction)
        requires
            old(self)@.moves.len() == 4,
            event_fits(old(self)@.step, event@),
        ensures
            (final(self)@, a@) == rename_step_spec(old(self)@, event@),
            final(self)@.moves.len() == 4,
    {
        assert(self.moves@.len() == text::pair_views(self.moves@).len());
        assert(self@.step == self.step as nat);
        assert(self.moves@.len() == 4);
        let ghost ev = event@;
        match event {
            RenameEvent::Begin => {
                self.step = 1;
                RenameAction::Move(self.moves[0].0.clone(), self.moves[0].1.clone())
            },
            RenameEvent::Failed(msg) => {
                let text_of = if self.step == 5 {
                    let mut t = text::chars_of("Instance folder failed, rolled back: ");
                    text::push_str(&mut t, msg.as_str());
                    t
                } else {
                    let mut t = text::chars_of("Rename failed: ");
                    text::push_str(&mut t, msg.as_str());
                    t
                };
                self.step = 6;
                RenameAction::RollBack(undo_moves(&self.done), text::string_of(&text_of))
            },
            RenameEvent::Unreadable => {
                self.step = 6;
                RenameAction::RollBack(undo_moves(&self.done), "Version files unreadable after rename, rolled back.".to_string())
            },
            RenameEvent::Readable => {
                self.step = 5;
                RenameAction::MoveIfPresent(self.moves[3].0.clone(), self.moves[3].1.clone())
            },
            RenameEvent::Moved => {
                assert(1 <= self.step <= 5);
                let idx: usize = if self.step == 5 { 3 } else { self.step - 1 };
                let ghost o = text::pair_views(self.done@);
                let m = (self.moves[idx].0.clone(), self.moves[idx].1.clone());
                self.done.push(m);
                assert(text::pair_views(self.done@) =~= o.push(text::pair_views(self.moves@)[idx as int]));
                self.next_after_move()
            },
            RenameEvent::Absent => self.next_after_move(),
        }
    }
}

/// Paths as names: a rename takes its source name away and adds its
/// target name.
pub open spec fn renamed(paths: Set<Seq<char>>, m: (Seq<char>, Seq<char>)) -> Set<Seq<char>> {
    paths.remove(m.0).insert(m.1)
}

/// The names after making the renames in order.
pub open spec fn after_renames(paths: Set<Seq<char>>, moves: Seq<(Seq<char>, Seq<char>)>) -> Set<Seq<char>>
    decreases moves.len(),
{
    if moves.len() == 0 {
        paths
    } else {
        renamed(after_renames(paths, moves.drop_last()), moves.last())
    }
}

/// Each rename found its source and no name at its target when it was
/// made.
pub open spec fn renames_valid(paths: Set<Seq<char>>, moves: Seq<(Seq<char>, Seq<char>)>) -> bool
    decreases moves.len(),
{
    if moves.len() == 0 {
        true
    } else {
        let before = after_renames(paths, moves.drop_last());
        renames_valid(paths, moves.drop_last()) && before.contains(moves.last().0) && !before.contains(moves.last().1)
    }
}

proof fn lemma_after_concat(paths: Set<Seq<char>>, a: Seq<(Seq<char>, Seq<char>)>, b: Seq<(Seq<char>, Seq<char>)>)
    ensures
        after_renames(paths, a + b) == after_renames(after_renames(paths, a), b),
    decreases b.len(),
{
    if b.len() == 0 {
        assert(a + b =~= a);
    } else {
        assert((a + b).drop_last() =~= a + b.drop_last());
        assert((a + b).last() == b.last());
        lemma_after_concat(paths, a, b.drop_last());
    }
}

/// Rolling back restores the names: after valid renames, making the
/// renames of `undo_spec` gives back exactly the names there were before.
pub proof fn law_roll_back_restores(paths: Set<Seq<char>>, done: Seq<(Seq<char>, Seq<char>)>)
    requires
        renames_valid(paths, done),
    ensures
        after_renames(after_renames(paths, done), undo_spec(done)) == paths,
    decreases done.len(),
{
    if done.len() > 0 {
        let d = done.drop_last();
        let m = done.last();
        let q = after_renames(paths, d);
        law_roll_back_restores(paths, d);
        assert(undo_spec(done) =~= seq![(m.1, m.0)] + undo_spec(d));
        lemma_after_concat(after_renames(paths, done), seq![(m.1, m.0)], undo_spec(d));
        assert(seq![(m.1, m.0)].drop_last() =~= Seq::<(Seq<char>, Seq<char>)>::empty());
        assert(after_renames(after_renames(paths, done), seq![(m.1, m.0)].drop_last()) == after_renames(paths, done));
        assert(after_renames(after_renames(paths, done), seq![(m.1, m.0)]) == renamed(renamed(q, m), (m.1, m.0)));
        assert(renamed(renamed(q, m), (m.1, m.0)) =~= q);
    }
}

/// Settings file of the launcher; `debug` selects the file of debug
/// builds.
pub fn get_config_file_path(mc_dir: &str, debug: bool) -> (r: String)
    ensures
        r@ == mc_dir@ + if debug {
            "/dgrlauncher_settings_debug.json"@
        } else {
            "/dgrlauncher_settings.json"@
        },
{
    let mut d = text::chars_of(mc_dir);
    if debug {
        text::push_str(&mut d, "/dgrlauncher_settings_debug.json");
    } else {
        text::push_str(&mut d, "/dgrlauncher_settings.json");
    }
    text::string_of(&d)
}

pub open spec fn migrations_spec(mc_dir: Seq<char>) -> Seq<(Seq<char>, Seq<char>, bool)> {
    seq![
        (mc_dir + "/minelander_instances"@, mc_dir + "/dgrlauncher_instances"@, false),
        (mc_dir + "/minelander_java"@, mc_dir + "/dgrlauncher_java"@, false),
        (mc_dir + "/minelander_settings.json"@, mc_dir + "/dgrlauncher_settings.json"@, false),
        (mc_dir + "/minelander_settings_debug.json"@, mc_dir + "/dgrlauncher_settings_debug.json"@, false),
        (mc_dir + "/minelander_profiles"@, mc_dir + "/dgrlauncher_instances"@, true),
    ]
}

fn joined(mc_dir: &str, tail: &str) -> (r: String)
    ensures
        r@ == mc_dir@ + tail@,
{
    let mut d = text::chars_of(mc_dir);
    text::push_str(&mut d, tail);
    text::string_of(&d)
}

/// Files and folders renamed from the launcher's former name, in order:
/// `(old, new, only when old is a folder)`. Each move happens only when
/// the new path does not exist and the old one does.
pub fn backward_compatibility_measures(mc_dir: &str) -> (r: Vec<(String, String, bool)>)
    ensures
        r@.map_values(|m: (String, String, bool)| (m.0@, m.1@, m.2)) == migrations_spec(mc_dir@),
{
    let mut v: Vec<(String, String, bool)> = Vec::new();
    v.push((joined(mc_dir, "/minelander_instances"), joined(mc_dir, "/dgrlauncher_instances"), false));
    v.push((joined(mc_dir, "/minelander_java"), joined(mc_dir, "/dgrlauncher_java"), false));
    v.push((joined(mc_dir, "/minelander_settings.json"), joined(mc_dir, "/dgrlauncher_settings.json"), false));
    v.push((joined(mc_dir, "/minelander_settings_debug.json"), joined(mc_dir, "/dgrlauncher_settings_debug.json"), false));
    v.push((joined(mc_dir, "/minelander_profiles"), joined(mc_dir, "/dgrlauncher_instances"), true));
    assert(v@.map_values(|m: (String, String, bool)| (m.0@, m.1@, m.2)) =~= migrations_spec(mc_dir@));
    v
}

/// Whether a migration moves its path.
pub fn should_migrate(old_exists: bool, new_exists: bool) -> (r: bool)
    ensures
        r == (!new_exists && old_exists),
{
    !new_exists && old_exists
}

/// Loader kind of an installed version, read from its json content.
#[derive(Debug, Clone, Copy, PartialEq, Eq)]
pub enum VersionKind {
    Vanilla,
    Fabric,
    NeoForge,
    Forge,
    UnknownModded,
}

pub open spec fn lib_names_lower(libs: Seq<Json>) -> Seq<Seq<char>>
    decreases libs.len(),
{
    if libs.len() == 0 {
        Seq::empty()
    } else {
        let rest = lib_names_lower(libs.drop_last());
        match as_str(get(libs.last(), "name"@)) {
            Some(n) => rest.push(lowercase(n)),
            None => rest,
        }
    }
}

pub open spec fn any_contains(v: Seq<Seq<char>>, p: Seq<char>) -> bool {
    exists|i: int| 0 <= i < v.len() && contains_sub(#[trigger] v[i], p)
}

/// Loader kind from the content of a version json alone (the folder name
/// never decides: it is chosen by the user).
pub open spec fn version_kind_spec(json: Option<Json>) -> VersionKind {
    match json {
        None => VersionKind::Vanilla,
        Some(v) => if as_str(get(v, "inheritsFrom"@)) is None {
            VersionKind::Vanilla
        } else {
            let main = lowercase(crate::downloader::str_or(get(v, "mainClass"@), ""@));
            if contains_sub(main, "knot"@) {
                VersionKind::Fabric
            } else if contains_sub(main, "bootstraplauncher"@) {
                let libs = match as_array(get(v, "libraries"@)) {
                    Some(l) => lib_names_lower(l),
                    None => Seq::empty(),
                };
                if any_contains(libs, "neoforged"@) {
                    VersionKind::NeoForge
                } else {
                    VersionKind::Forge
                }
            } else {
                VersionKind::UnknownModded
            }
        },
    }
}

fn any_lib_contains(libs: &Vec<Json>, p: &str) -> (r: bool)
    ensures
        r == any_contains(lib_names_lower(libs@), p@),
{
    let pc = text::chars_of(p);
    let mut found = false;
    let mut i: usize = 0;
    assert(libs@.take(0) =~= Seq::<Json>::empty());
    while i < libs.len()
        invariant
            i <= libs.len(),
            pc@ == p@,
            found == any_contains(lib_names_lower(libs@.take(i as int)), p@),
        decreases libs.len() - i,
    {
        let ghost before = lib_names_lower(libs@.take(i as int));
        assert(libs@.take(i + 1).drop_last() =~= libs@.take(i as int));
        match libs[i].get("name").as_str() {
            Some(n) => {
                let l = text::to_lowercase(n.as_str());
                let lc = text::chars_of(l.as_str());
                let hit = text::chars_contains(&lc, &pc);
                let ghost after = before.push(l@);
                assert(lib_names_lower(libs@.take(i + 1)) == after);
                assert(any_contains(after, p@) == (any_contains(before, p@) || contains_sub(l@, p@))) by {
                    if contains_sub(l@, p@) {
                        assert(after[before.len() as int] == l@);
                    }
                    if any_contains(after, p@) && !contains_sub(l@, p@) {
                        let j = choose|j: int| 0 <= j < after.len() && contains_sub(#[trigger] after[j], p@);
                        assert(after[j] == before[j]);
                    }
                    if any_contains(before, p@) {
                        let j = choose|j: int| 0 <= j < before.len() && contains_sub(#[trigger] before[j], p@);
                        assert(after[j] == before[j]);
                    }
                }
                found = found || hit;
            },
            None => {
                assert(lib_names_lower(libs@.take(i + 1)) == before);
            },
        }
        i += 1;
    }
    assert(libs@.take(libs.len() as int) =~= libs@);
    found
}

/// Loader of an installed version from its json content (`None` when
/// the json could not be read): versions that inherit nothing are
/// vanilla; Fabric runs Knot; a BootstrapLauncher version is NeoForge when
/// a library names NeoForge, else Forge; any other modded profile is of
/// unknown kind. The id is not consulted: two folders holding the same
/// json are of the same kind, whatever they are named.
pub fn version_kind(id: &str, json: Option<&Json>) -> (r: VersionKind)
    ensures
        r == version_kind_spec(match json { Some(j) => Some(*j), None => None }),
{
    let _ = id;
    let v = match json {
        None => {
            return VersionKind::Vanilla;
        },
        Some(v) => v,
    };
    if v.get("inheritsFrom").as_str().is_none() {
        return VersionKind::Vanilla;
    }
    let m = v.get("mainClass").str_or("");
    let main = text::to_lowercase(m.as_str());
    let mc = text::chars_of(main.as_str());
    if text::chars_contains(&mc, &text::chars_of("knot")) {
        return VersionKind::Fabric;
    }
    if text::chars_contains(&mc, &text::chars_of("bootstraplauncher")) {
        let has = match v.get("libraries").as_array() {
            Some(l) => any_lib_contains(l, "neoforged"),
            None => {
                assert(!any_contains(Seq::<Seq<char>>::empty(), "neoforged"@));
                false
            },
        };
        if has {
            return VersionKind::NeoForge;
        }
        return VersionKind::Forge;
    }
    VersionKind::UnknownModded
}

/// Renaming a modded version folder never changes its description (its
/// Minecraft version and loader come from the json content alone): any
/// two non-empty ids with the same json are described alike.
pub proof fn law_modded_description_ignores_folder_name(json: Option<Json>)
    ensures
        forall|a: Seq<char>, b: Seq<char>|
            #![trigger describe_version_spec(a, json), describe_version_spec(b, json)]
            a.len() > 0 && b.len() > 0 && json is Some && as_str(get(json.unwrap(), "inheritsFrom"@)) is Some
                ==> describe_version_spec(a, json) == describe_version_spec(b, json),
{
}

pub open spec fn loader_label(k: VersionKind) -> Seq<char> {
    match k {
        VersionKind::Fabric => "Fabric"@,
        VersionKind::NeoForge => "NeoForge"@,
        VersionKind::Forge => "Forge"@,
        _ => "Modded"@,
    }
}

pub open spec fn describe_version_spec(id: Seq<char>, json: Option<Json>) -> Seq<char> {
    if id.len() == 0 {
        Seq::empty()
    } else {
        match json {
            None => Seq::empty(),
            Some(v) => match as_str(get(v, "inheritsFrom"@)) {
                Some(mc) => "Minecraft "@ + mc + " \u{2022} "@ + loader_label(version_kind_spec(Some(v))),
                None => "Minecraft "@ + id,
            },
        }
    }
}

/// Description of an installed version for the main screen, e.g.
/// `Minecraft 1.21.1 • NeoForge`; empty when the id is empty or its json
/// could not be read.
pub fn describe_version(id: &str, json: Option<&Json>) -> (r: String)
    ensures
        r@ == describe_version_spec(id@, match json { Some(j) => Some(*j), None => None }),
{
    if id.unicode_len() == 0 {
        return String::new();
    }
    let v = match json {
        None => {
            return String::new();
        },
        Some(v) => v,
    };
    match v.get("inheritsFrom").as_str() {
        Some(mc) => {
            let k = version_kind(id, Some(v));
            let label = match k {
                VersionKind::Fabric => "Fabric",
                VersionKind::NeoForge => "NeoForge",
                VersionKind::Forge => "Forge",
                _ => "Modded",
            };
            let mut d = text::chars_of("Minecraft ");
            text::push_str(&mut d, mc.as_str());
            text::push_str(&mut d, " \u{2022} ");
            text::push_str(&mut d, label);
            text::string_of(&d)
        },
        None => {
            let mut d = text::chars_of("Minecraft ");
            text::push_str(&mut d, id);
            text::string_of(&d)
        },
    }
}

/// Base Minecraft version of an instance: `inheritsFrom` of its json, or
/// the id itself.
pub fn instance_base_mc(version_id: &str, json: Option<&Json>) -> (r: String)
    ensures
        r@ == match json {
            Some(j) => crate::downloader::str_or(get(*j, "inheritsFrom"@), version_id@),
            None => version_id@,
        },
{
    match json {
        Some(j) => j.get("inheritsFrom").str_or(version_id),
        None => version_id.to_string(),
    }
}

} // verus!

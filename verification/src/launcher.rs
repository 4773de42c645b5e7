//! How a Minecraft version is started: which Java it needs, its class
//! path, its JVM and game arguments, and the command line that results.
use vstd::prelude::*;
use crate::json::{Json, get, as_str, as_u64};
use crate::text;
use crate::text::{split, views, join, parse_u64_spec, parse_i32_spec};
use crate::downloader::{library_applies, library_kind, library_relative, artifact_path_spec, LibraryKind, str_or};

verus! {

/// Which Java runs the game.
#[derive(Clone, Debug, PartialEq, Eq, Hash)]
pub enum JavaType {
    System,
    Custom,
    Automatic,
}

/// What has to be fetched before a version can start.
#[derive(Clone, Debug, PartialEq, Eq, Hash)]
pub enum Missing {
    /// Temurin JRE of this major version must be downloaded.
    Java(u64),
    VersionFiles(Vec<crate::downloader::Download>),
    VanillaJson(String, String),
}

/// Everything a game start needs besides the version files.
#[derive(Debug, Clone)]
pub struct GameSettings {
    pub account: crate::auth::MinecraftAccount,
    pub game_version: String,
    /// Custom Java binary (used with `JavaType::Custom`).
    pub jvm: String,
    /// Custom Java flags (used with `JavaType::Custom`).
    pub jvmargs: Vec<String>,
    /// Heap flag (`-Xmx…M`) derived from the RAM setting.
    pub xmx: String,
    pub game_wrapper_commands: Vec<String>,
    pub game_directory: String,
    pub java_type: JavaType,
    /// Environment variables of the game process, one entry per name.
    pub enviroment_variables: Vec<(String, String)>,
}

pub open spec fn managed_java_folder_spec(major: u64) -> Seq<char> {
    "java"@ + text::decimal(major as nat)
}

/// Folder name for a launcher-managed Temurin JRE, e.g. `java25`.
pub fn managed_java_folder(major: u64) -> (r: String)
    ensures
        r@ == managed_java_folder_spec(major),
{
    let mut out = text::chars_of("java");
    let d = text::decimal_chars(major);
    text::push_chars(&mut out, &d);
    text::string_of(&out)
}

pub open spec fn minecraft_dir_spec(os: Seq<char>, home: Seq<char>, userprofile: Seq<char>) -> Seq<char> {
    if os == "linux"@ {
        home + "/.minecraft"@
    } else {
        text::replace_char(userprofile, '\\', '/') + "/AppData/Roaming/.minecraft"@
    }
}

/// The `.minecraft` folder: `$HOME/.minecraft` on Linux,
/// `%USERPROFILE%/AppData/Roaming/.minecraft` (with `/` separators) on
/// Windows; other systems are not supported.
pub fn minecraft_dir_for(os: &str, home: &str, userprofile: &str) -> (r: String)
    requires
        os@ == "linux"@ || os@ == "windows"@,
    ensures
        r@ == minecraft_dir_spec(os@, home@, userprofile@),
{
    if text::str_eq(os, "linux") {
        let mut out = text::chars_of(home);
        text::push_str(&mut out, "/.minecraft");
        text::string_of(&out)
    } else {
        let u = text::chars_of(userprofile);
        let mut out = text::chars_replace(&u, '\\', '/');
        text::push_str(&mut out, "/AppData/Roaming/.minecraft");
        text::string_of(&out)
    }
}

// ---------------------------------------------------------------------
// Java requirement
// ---------------------------------------------------------------------

pub open spec fn piece_u64_or(p: Seq<Seq<char>>, k: int, d: u64) -> u64 {
    if k < p.len() {
        match parse_u64_spec(p[k]) {
            Some(v) => v,
            None => d,
        }
    } else {
        d
    }
}

/// Java major for versions whose json does not say: Minecraft 1.0–1.16
/// need 8, 1.17–1.20.4 need 17, later 1.x need 21, and the new `26.x`
/// scheme gets the latest LTS, 25. Loader suffixes after `-` are ignored.
pub open spec fn fallback_java_major_spec(game_version: Seq<char>) -> u64 {
    let base = split(game_version, seq!['-'])[0];
    let p = split(base, seq!['.']);
    let major = piece_u64_or(p, 0, 1);
    let minor = piece_u64_or(p, 1, 0);
    let patch = piece_u64_or(p, 2, 0);
    if major != 1 {
        25
    } else if minor <= 16 {
        8
    } else if minor <= 19 {
        17
    } else if minor == 20 && patch < 5 {
        17
    } else {
        21
    }
}

fn piece_u64(p: &Vec<Vec<char>>, k: usize, d: u64) -> (r: u64)
    ensures
        r == piece_u64_or(views(p@), k as int, d),
{
    if k < p.len() {
        match text::parse_u64(&p[k]) {
            Some(v) => v,
            None => d,
        }
    } else {
        d
    }
}

/// Java major from the version name alone (see `fallback_java_major_spec`).
pub fn fallback_java_major(game_version: &str) -> (r: u64)
    ensures
        r == fallback_java_major_spec(game_version@),
{
    let v = text::chars_of(game_version);
    let dash = vec!['-'];
    let dot = vec!['.'];
    assert(dash@ =~= seq!['-']);
    assert(dot@ =~= seq!['.']);
    let pieces = text::chars_split(&v, &dash);
    proof {
        text::lemma_split_nonempty(v@, dash@);
    }
    let parts = text::chars_split(&pieces[0], &dot);
    assert(views(parts@) =~= split(split(game_version@, seq!['-'])[0], seq!['.']));
    let major = piece_u64(&parts, 0, 1);
    let minor = piece_u64(&parts, 1, 0);
    let patch = piece_u64(&parts, 2, 0);
    if major != 1 {
        25
    } else if minor <= 16 {
        8
    } else if minor <= 19 {
        17
    } else if minor == 20 && patch < 5 {
        17
    } else {
        21
    }
}

/// Required Java major for a version: `javaVersion.majorVersion` of its
/// json, else `javaVersion.Version`, else the table by name.
pub open spec fn required_java_major_spec(version_json: Json, game_version: Seq<char>) -> u64 {
    match as_u64(get(get(version_json, "javaVersion"@), "majorVersion"@)) {
        Some(m) => m,
        None => match as_u64(get(get(version_json, "javaVersion"@), "Version"@)) {
            Some(m) => m,
            None => fallback_java_major_spec(game_version),
        },
    }
}

/// Required Java major for a version. Mirrors the official launcher:
/// `javaVersion.majorVersion` from the version json. Old versions without
/// the field fall back to a table.
pub fn required_java_major(version_json: &Json, game_version: &str) -> (r: u64)
    ensures
        r == required_java_major_spec(*version_json, game_version@),
{
    match version_json.get("javaVersion").get("majorVersion").as_u64() {
        Some(m) => m,
        None => match version_json.get("javaVersion").get("Version").as_u64() {
            Some(m) => m,
            None => fallback_java_major(game_version),
        },
    }
}

// ---------------------------------------------------------------------
// Class path
// ---------------------------------------------------------------------

/// Non-empty pieces, each kept at its first occurrence only.
pub open spec fn dedupe(s: Seq<Seq<char>>) -> Seq<Seq<char>>
    decreases s.len(),
{
    if s.len() == 0 {
        Seq::empty()
    } else {
        let r = dedupe(s.drop_last());
        let x = s.last();
        if x.len() > 0 && !s.drop_last().contains(x) {
            r.push(x)
        } else {
            r
        }
    }
}

pub open spec fn dedupe_classpath_spec(classpath: Seq<char>, separator: char) -> Seq<char> {
    join(dedupe(split(classpath, seq![separator])), seq![separator])
}

/// A non-empty piece is kept iff it occurs at all.
pub proof fn lemma_dedupe_contains(s: Seq<Seq<char>>, x: Seq<char>)
    requires
        x.len() > 0,
    ensures
        dedupe(s).contains(x) <==> s.contains(x),
    decreases s.len(),
{
    if s.len() > 0 {
        lemma_dedupe_contains(s.drop_last(), x);
        let r = dedupe(s.drop_last());
        assert(s =~= s.drop_last().push(s.last()));
        if s.last().len() > 0 && !s.drop_last().contains(s.last()) {
            assert(r.push(s.last()).last() == s.last());
            if r.push(s.last()).contains(x) {
                let i = choose|i: int| 0 <= i < r.push(s.last()).len() && r.push(s.last())[i] == x;
                if i < r.len() {
                    assert(r[i] == x);
                }
            }
            if r.contains(x) {
                let i = choose|i: int| 0 <= i < r.len() && r[i] == x;
                assert(r.push(s.last())[i] == x);
            }
        }
        if s.contains(x) {
            let i = choose|i: int| 0 <= i < s.len() && s[i] == x;
            if i < s.len() - 1 {
                assert(s.drop_last()[i] == x);
            }
        }
        if s.drop_last().contains(x) {
            let i = choose|i: int| 0 <= i < s.drop_last().len() && s.drop_last()[i] == x;
            assert(s[i] == x);
        }
    }
}

/// What `dedupe` keeps is non-empty, taken from the input, and never
/// repeated.
pub proof fn lemma_dedupe_shape(s: Seq<Seq<char>>)
    ensures
        forall|i: int| 0 <= i < dedupe(s).len() ==> (#[trigger] dedupe(s)[i]).len() > 0 && s.contains(dedupe(s)[i]),
        forall|i: int, j: int| 0 <= i < j < dedupe(s).len() ==> #[trigger] dedupe(s)[i] != #[trigger] dedupe(s)[j],
    decreases s.len(),
{
    if s.len() > 0 {
        let d = s.drop_last();
        lemma_dedupe_shape(d);
        let r = dedupe(d);
        let x = s.last();
        assert forall|i: int| 0 <= i < r.len() implies s.contains(#[trigger] r[i]) by {
            let k = choose|k: int| 0 <= k < d.len() && d[k] == r[i];
            assert(s[k] == r[i]);
        }
        if x.len() > 0 && !d.contains(x) {
            let t = r.push(x);
            assert(s[s.len() - 1] == x);
            lemma_dedupe_contains(d, x);
            assert forall|i: int, j: int| 0 <= i < j < t.len() implies #[trigger] t[i] != #[trigger] t[j] by {
                if j == t.len() - 1 {
                    assert(t[i] == r[i]);
                    assert(r.contains(r[i]));
                } else {
                    assert(t[i] == r[i] && t[j] == r[j]);
                }
            }
            assert forall|i: int| 0 <= i < t.len() implies (#[trigger] t[i]).len() > 0 && s.contains(t[i]) by {
                if i < r.len() {
                    assert(t[i] == r[i]);
                }
            }
        }
    }
}

/// No entry appears twice on a de-duplicated class path, and none is
/// empty: splitting the result on the separator gives distinct,
/// non-empty entries (or the single empty text when nothing is left).
pub proof fn law_dedupe_classpath_no_repeats(classpath: Seq<char>, separator: char)
    ensures
        ({
            let entries = split(dedupe_classpath_spec(classpath, separator), seq![separator]);
            &&& forall|i: int, j: int| 0 <= i < j < entries.len() ==> #[trigger] entries[i] != #[trigger] entries[j]
            &&& entries.len() == 1 || forall|i: int| 0 <= i < entries.len() ==> (#[trigger] entries[i]).len() > 0
        }),
{
    let ps = split(classpath, seq![separator]);
    let d = dedupe(ps);
    lemma_dedupe_shape(ps);
    text::lemma_split_pieces_free(classpath, seq![separator]);
    if d.len() >= 1 {
        assert forall|k: int| 0 <= k < d.len() implies text::free_of(#[trigger] d[k], seq![separator]) by {
            assert(ps.contains(d[k]));
            let m = choose|m: int| 0 <= m < ps.len() && ps[m] == d[k];
            assert(text::free_of(ps[m], seq![separator]));
        }
        text::lemma_split_join(d, separator);
    } else {
        assert(join(d, seq![separator]) =~= Seq::<char>::empty());
    }
}

fn contains_piece(v: &Vec<Vec<char>>, x: &Vec<char>) -> (r: bool)
    ensures
        r == views(v@).contains(x@),
{
    let mut i: usize = 0;
    while i < v.len()
        invariant
            i <= v.len(),
            forall|j: int| 0 <= j < i ==> views(v@)[j] != x@,
        decreases v.len() - i,
    {
        if text::chars_eq(&v[i], x) {
            assert(views(v@)[i as int] == x@);
            return true;
        }
        i += 1;
    }
    false
}

/// Join classpath entries, dropping empty and repeated ones (loader and
/// vanilla jsons overlap; duplicate jars crash NeoForge's union
/// filesystem).
pub fn dedupe_classpath(classpath: &str, separator: char) -> (r: String)
    ensures
        r@ == dedupe_classpath_spec(classpath@, separator),
{
    let c = text::chars_of(classpath);
    let sep = vec![separator];
    assert(sep@ =~= seq![separator]);
    let pieces = text::chars_split(&c, &sep);
    let ghost ps = split(classpath@, seq![separator]);
    assert(views(pieces@) =~= ps);
    let mut kept: Vec<Vec<char>> = Vec::new();
    let mut i: usize = 0;
    assert(ps.take(0) =~= Seq::<Seq<char>>::empty());
    assert(views(kept@) =~= Seq::<Seq<char>>::empty());
    while i < pieces.len()
        invariant
            i <= pieces.len(),
            views(pieces@) == ps,
            views(kept@) == dedupe(ps.take(i as int)),
        decreases pieces.len() - i,
    {
        let ghost t = ps.take(i + 1);
        assert(t.drop_last() =~= ps.take(i as int));
        assert(t.last() == pieces@[i as int]@);
        let x = &pieces[i];
        if x.len() > 0 {
            proof {
                lemma_dedupe_contains(ps.take(i as int), x@);
            }
            if !contains_piece(&kept, x) {
                let y = text::chars_copy(x);
                let ghost old = kept@;
                kept.push(y);
                assert(views(kept@) =~= views(old).push(y@));
            }
        }
        i += 1;
    }
    assert(ps.take(pieces.len() as int) =~= ps);
    let sep_s = text::string_of(&sep);
    let j = text::join_chars(&kept, sep_s.as_str());
    text::string_of(&j)
}

// ---------------------------------------------------------------------
// Arguments
// ---------------------------------------------------------------------

pub open spec fn get_vec_from_spec(s: Seq<char>) -> Seq<Seq<char>> {
    split(s, seq![' '])
}

/// Words of a space-separated flag string (empty words included).
pub fn get_vec_from(s: &str) -> (r: Vec<String>)
    ensures
        text::string_views(r@) == get_vec_from_spec(s@),
{
    let c = text::chars_of(s);
    let sp = vec![' '];
    assert(sp@ =~= seq![' ']);
    let pieces = text::chars_split(&c, &sp);
    strings_of(&pieces)
}

/// Strings of character vectors.
pub fn strings_of(v: &Vec<Vec<char>>) -> (r: Vec<String>)
    ensures
        text::string_views(r@) == views(v@),
{
    let mut out: Vec<String> = Vec::new();
    let mut i: usize = 0;
    while i < v.len()
        invariant
            i <= v.len(),
            text::string_views(out@) == views(v@).take(i as int),
        decreases v.len() - i,
    {
        let s = text::string_of(&v[i]);
        let ghost old = out@;
        out.push(s);
        assert(text::string_views(out@) =~= text::string_views(old).push(s@));
        assert(views(v@).take(i + 1) =~= views(v@).take(i as int).push(v@[i as int]@));
        i += 1;
    }
    assert(views(v@).take(v.len() as int) =~= views(v@));
    out
}

/// One game argument after placeholder substitution; `None` drops it.
/// `gamedata` holds, in order: player name, version name, game
/// directory, assets root, asset index name, uuid, access token, user
/// properties, user type, version type, class path.
pub open spec fn game_arg(a: Seq<char>, gd: Seq<Seq<char>>, mc_dir: Seq<char>) -> Option<Seq<char>> {
    if a == "${auth_player_name}"@ {
        Some(gd[0])
    } else if a == "${version_name}"@ {
        Some(gd[1])
    } else if a == "${game_directory}"@ {
        Some(gd[2])
    } else if a == "${assets_root}"@ {
        Some(gd[3])
    } else if a == "${assets_index_name}"@ {
        Some(gd[4])
    } else if a == "${auth_uuid}"@ || a == "${auth_session}"@ || a == "${clientid}"@ || a
        == "${auth_xuid}"@ {
        Some(gd[5])
    } else if a == "${auth_access_token}"@ {
        Some(gd[6])
    } else if a == "${user_properties}"@ {
        Some(gd[7])
    } else if a == "${user_type}"@ {
        Some(gd[8])
    } else if a == "${version_type}"@ {
        Some(gd[9])
    } else if a == "${classpath}"@ {
        Some(gd[10])
    } else if a == "${game_assets}"@ {
        Some(mc_dir + "/resources"@)
    } else if a == "--demo"@ {
        None
    } else {
        Some(a)
    }
}

pub open spec fn game_args_spec(args: Seq<Seq<char>>, gd: Seq<Seq<char>>, mc_dir: Seq<char>) -> Seq<Seq<char>>
    decreases args.len(),
{
    if args.len() == 0 {
        Seq::empty()
    } else {
        let acc = game_args_spec(args.drop_last(), gd, mc_dir);
        match game_arg(args.last(), gd, mc_dir) {
            Some(a) => acc.push(a),
            None => acc,
        }
    }
}

fn game_arg_of(a: &String, gamedata: &Vec<String>, mc_dir: &str) -> (r: Option<String>)
    requires
        gamedata@.len() >= 11,
    ensures
        match r {
            Some(s) => game_arg(a@, text::string_views(gamedata@), mc_dir@) == Some(s@),
            None => game_arg(a@, text::string_views(gamedata@), mc_dir@) is None,
        },
{
    let s = a.as_str();
    let k: usize = if text::str_eq(s, "${auth_player_name}") {
        0
    } else if text::str_eq(s, "${version_name}") {
        1
    } else if text::str_eq(s, "${game_directory}") {
        2
    } else if text::str_eq(s, "${assets_root}") {
        3
    } else if text::str_eq(s, "${assets_index_name}") {
        4
    } else if text::str_eq(s, "${auth_uuid}") || text::str_eq(s, "${auth_session}")
        || text::str_eq(s, "${clientid}") || text::str_eq(s, "${auth_xuid}") {
        5
    } else if text::str_eq(s, "${auth_access_token}") {
        6
    } else if text::str_eq(s, "${user_properties}") {
        7
    } else if text::str_eq(s, "${user_type}") {
        8
    } else if text::str_eq(s, "${version_type}") {
        9
    } else if text::str_eq(s, "${classpath}") {
        10
    } else {
        11
    };
    if k < 11 {
        return Some(gamedata[k].clone());
    }
    if text::str_eq(s, "${game_assets}") {
        let mut out = text::chars_of(mc_dir);
        text::push_str(&mut out, "/resources");
        Some(text::string_of(&out))
    } else if text::str_eq(s, "--demo") {
        None
    } else {
        Some(a.clone())
    }
}

/// Game arguments with the `${...}` placeholders filled from `gamedata`
/// (see `game_arg`), `${game_assets}` pointing at `{mc_dir}/resources`,
/// and `--demo` removed.
pub fn get_game_args(arguments: &Vec<String>, gamedata: &Vec<String>, mc_dir: &str) -> (r: Vec<String>)
    requires
        gamedata@.len() >= 11,
    ensures
        text::string_views(r@) == game_args_spec(text::string_views(arguments@), text::string_views(gamedata@), mc_dir@),
{
    let ghost av = text::string_views(arguments@);
    let mut out: Vec<String> = Vec::new();
    let mut i: usize = 0;
    assert(av.take(0) =~= Seq::<Seq<char>>::empty());
    assert(text::string_views(out@) =~= Seq::<Seq<char>>::empty());
    while i < arguments.len()
        invariant
            i <= arguments.len(),
            gamedata@.len() >= 11,
            av == text::string_views(arguments@),
            text::string_views(out@) == game_args_spec(av.take(i as int), text::string_views(gamedata@), mc_dir@),
        decreases arguments.len() - i,
    {
        assert(av.take(i + 1).drop_last() =~= av.take(i as int));
        assert(av.take(i + 1).last() == arguments@[i as int]@);
        match game_arg_of(&arguments[i], gamedata, mc_dir) {
            Some(a) => {
                let ghost old = out@;
                out.push(a);
                assert(text::string_views(out@) =~= text::string_views(old).push(a@));
            },
            None => {},
        }
        i += 1;
    }
    assert(av.take(arguments.len() as int) =~= av);
    out
}

/// Plain strings of an argument list: string entries, and the `value` of
/// entries whose value is a single string.
pub open spec fn arg_strings(list: Seq<Json>) -> Seq<Seq<char>>
    decreases list.len(),
{
    if list.len() == 0 {
        Seq::empty()
    } else {
        let acc = arg_strings(list.drop_last());
        let e = list.last();
        match as_str(e) {
            Some(s) => acc.push(s),
            None => match as_str(get(e, "value"@)) {
                Some(s) => acc.push(s),
                None => acc,
            },
        }
    }
}

fn arg_strings_of(list: &Vec<Json>) -> (r: Vec<String>)
    ensures
        text::string_views(r@) == arg_strings(list@),
{
    let mut out: Vec<String> = Vec::new();
    let mut i: usize = 0;
    assert(list@.take(0) =~= Seq::<Json>::empty());
    assert(text::string_views(out@) =~= Seq::<Seq<char>>::empty());
    while i < list.len()
        invariant
            i <= list.len(),
            text::string_views(out@) == arg_strings(list@.take(i as int)),
        decreases list.len() - i,
    {
        assert(list@.take(i + 1).drop_last() =~= list@.take(i as int));
        assert(list@.take(i + 1).last() == list@[i as int]);
        let ghost old = out@;
        match list[i].as_str() {
            Some(s) => {
                let c = s.clone();
                out.push(c);
                assert(text::string_views(out@) =~= text::string_views(old).push(c@));
            },
            None => match list[i].get("value").as_str() {
                Some(s) => {
                    let c = s.clone();
                    out.push(c);
                    assert(text::string_views(out@) =~= text::string_views(old).push(c@));
                },
                None => {},
            },
        }
        i += 1;
    }
    assert(list@.take(list.len() as int) =~= list@);
    out
}

/// Plain-string game args from the loader json itself (no placeholders):
/// `arguments.game`, else the words of `minecraftArguments`.
pub open spec fn loader_own_game_args_spec(p: Json) -> Seq<Seq<char>> {
    match crate::json::as_array(get(get(p, "arguments"@), "game"@)) {
        Some(list) => arg_strings(list),
        None => match as_str(get(p, "minecraftArguments"@)) {
            Some(old) => text::split_whitespace(old),
            None => Seq::empty(),
        },
    }
}

/// Plain-string game args from the loader json itself (no placeholders).
/// NeoForge bootstrap flags live here; fabric profiles have none.
pub fn loader_own_game_args(p: &Json) -> (r: Vec<String>)
    ensures
        text::string_views(r@) == loader_own_game_args_spec(*p),
{
    match p.get("arguments").get("game").as_array() {
        Some(list) => arg_strings_of(list),
        None => match p.get("minecraftArguments").as_str() {
            Some(old) => {
                let c = text::chars_of(old.as_str());
                let w = text::chars_split_whitespace(&c);
                assert(views(w@) =~= text::split_whitespace(old@));
                strings_of(&w)
            },
            None => {
                let e: Vec<String> = Vec::new();
                assert(text::string_views(e@) =~= Seq::<Seq<char>>::empty());
                e
            },
        },
    }
}

pub open spec fn separator_spec(os: Seq<char>) -> char {
    if os == "linux"@ {
        ':'
    } else {
        ';'
    }
}

pub open spec fn supported_os(os: Seq<char>) -> bool {
    os == "linux"@ || os == "windows"@
}

/// Class path separator: `:` on Linux, `;` on Windows.
pub fn classpath_separator(os: &str) -> (r: char)
    requires
        supported_os(os@),
    ensures
        r == separator_spec(os@),
{
    if text::str_eq(os, "linux") {
        ':'
    } else {
        ';'
    }
}

/// One JVM argument with its placeholders filled; `None` drops it (the
/// launcher passes the class path itself).
pub open spec fn jvm_arg(v: Seq<char>, nativedir: Seq<char>, lib_dir: Seq<char>, sep: Seq<char>, id: Seq<char>) -> Option<Seq<char>> {
    let v1 = text::replace_all(v, "${natives_directory}"@, nativedir);
    let v2 = text::replace_all(v1, "${library_directory}"@, lib_dir);
    let v3 = text::replace_all(v2, "${classpath_separator}"@, sep);
    let v4 = text::replace_all(v3, "${version_name}"@, id);
    if !text::contains_sub(v4, "${classpath}"@) && !text::contains_sub(v4, "-cp"@) {
        Some(v4)
    } else {
        None
    }
}

/// Whether a JVM argument still names the version after the other
/// placeholders are filled.
pub open spec fn jvm_arg_needs_id(v: Seq<char>, nativedir: Seq<char>, lib_dir: Seq<char>, sep: Seq<char>) -> bool {
    let v1 = text::replace_all(v, "${natives_directory}"@, nativedir);
    let v2 = text::replace_all(v1, "${library_directory}"@, lib_dir);
    let v3 = text::replace_all(v2, "${classpath_separator}"@, sep);
    text::contains_sub(v3, "${version_name}"@)
}

pub open spec fn jvm_args_list(list: Seq<Json>, nativedir: Seq<char>, lib_dir: Seq<char>, sep: Seq<char>, id: Seq<char>) -> Seq<Seq<char>>
    decreases list.len(),
{
    if list.len() == 0 {
        Seq::empty()
    } else {
        let acc = jvm_args_list(list.drop_last(), nativedir, lib_dir, sep, id);
        match as_str(list.last()) {
            Some(v) => match jvm_arg(v, nativedir, lib_dir, sep, id) {
                Some(a) => acc.push(a),
                None => acc,
            },
            None => acc,
        }
    }
}

pub open spec fn jvm_lib_dir(mc_dir: Seq<char>) -> Seq<char> {
    mc_dir + "/libraries"@
}

pub open spec fn jvm_args_spec(p: Json, nativedir: Seq<char>, mc_dir: Seq<char>, os: Seq<char>) -> Seq<Seq<char>> {
    match crate::json::as_array(get(get(p, "arguments"@), "jvm"@)) {
        Some(list) => jvm_args_list(
            list,
            nativedir,
            jvm_lib_dir(mc_dir),
            seq![separator_spec(os)],
            crate::downloader::str_or(get(p, "id"@), ""@),
        ),
        None => seq!["-Djava.library.path="@ + nativedir],
    }
}

/// The JVM arguments of a version json can be filled in: the version id
/// is a string wherever an argument asks for it.
pub open spec fn jvm_args_ok(p: Json, nativedir: Seq<char>, mc_dir: Seq<char>, os: Seq<char>) -> bool {
    match crate::json::as_array(get(get(p, "arguments"@), "jvm"@)) {
        Some(list) => as_str(get(p, "id"@)) is Some || forall|i: int|
            0 <= i < list.len() ==> match as_str(#[trigger] list[i]) {
                Some(v) => !jvm_arg_needs_id(v, nativedir, jvm_lib_dir(mc_dir), seq![separator_spec(os)]),
                None => true,
            },
        None => true,
    }
}

fn replace_lit(v: &Vec<char>, pat: &str, to: &Vec<char>) -> (r: Vec<char>)
    requires
        pat@.len() > 0,
    ensures
        r@ == text::replace_all(v@, pat@, to@),
{
    let pv = text::chars_of(pat);
    text::chars_replace_all(v, &pv, to)
}

/// JVM arguments of a version json with `${natives_directory}`,
/// `${library_directory}`, `${classpath_separator}` and `${version_name}`
/// filled, class path arguments dropped; old jsons without `arguments.jvm`
/// get `-Djava.library.path`.
pub fn get_game_jvm_args(p: &Json, nativedir: &str, mc_dir: &str, os: &str) -> (r: Vec<String>)
    requires
        supported_os(os@),
        jvm_args_ok(*p, nativedir@, mc_dir@, os@),
    ensures
        text::string_views(r@) == jvm_args_spec(*p, nativedir@, mc_dir@, os@),
{
    proof {
        reveal_strlit("${natives_directory}");
        reveal_strlit("${library_directory}");
        reveal_strlit("${classpath_separator}");
        reveal_strlit("${version_name}");
    }
    let mut out: Vec<String> = Vec::new();
    match p.get("arguments").get("jvm").as_array() {
        None => {
            let mut a = text::chars_of("-Djava.library.path=");
            text::push_str(&mut a, nativedir);
            let s = text::string_of(&a);
            out.push(s);
            assert(text::string_views(out@) =~= seq![s@]);
            out
        },
        Some(list) => {
            let nd = text::chars_of(nativedir);
            let mut ld = text::chars_of(mc_dir);
            text::push_str(&mut ld, "/libraries");
            let sep = vec![classpath_separator(os)];
            assert(sep@ =~= seq![separator_spec(os@)]);
            let id = p.get("id").str_or("");
            let idv = text::chars_of(id.as_str());
            let cp = text::chars_of("${classpath}");
            let dash_cp = text::chars_of("-cp");
            let ghost lv = list@;
            let mut i: usize = 0;
            assert(list@.take(0) =~= Seq::<Json>::empty());
            assert(text::string_views(out@) =~= Seq::<Seq<char>>::empty());
            while i < list.len()
                invariant
                    i <= list.len(),
                    lv == list@,
                    nd@ == nativedir@,
                    ld@ == jvm_lib_dir(mc_dir@),
                    sep@ == seq![separator_spec(os@)],
                    idv@ == crate::downloader::str_or(get(*p, "id"@), ""@),
                    cp@ == "${classpath}"@,
                    dash_cp@ == "-cp"@,
                    text::string_views(out@) == jvm_args_list(lv.take(i as int), nativedir@, jvm_lib_dir(mc_dir@), sep@, idv@),
                decreases list.len() - i,
            {
                assert(lv.take(i + 1).drop_last() =~= lv.take(i as int));
                assert(lv.take(i + 1).last() == list@[i as int]);
                proof {
                    reveal_strlit("${natives_directory}");
                    reveal_strlit("${library_directory}");
                    reveal_strlit("${classpath_separator}");
                    reveal_strlit("${version_name}");
                }
                match list[i].as_str() {
                    Some(v) => {
                        let v0 = text::chars_of(v.as_str());
                        let v1 = replace_lit(&v0, "${natives_directory}", &nd);
                        let v2 = replace_lit(&v1, "${library_directory}", &ld);
                        let v3 = replace_lit(&v2, "${classpath_separator}", &sep);
                        let v4 = replace_lit(&v3, "${version_name}", &idv);
                        if !text::chars_contains(&v4, &cp) && !text::chars_contains(&v4, &dash_cp) {
                            let a = text::string_of(&v4);
                            let ghost old = out@;
                            out.push(a);
                            assert(text::string_views(out@) =~= text::string_views(old).push(a@));
                        }
                    },
                    None => {},
                }
                i += 1;
            }
            assert(lv.take(list.len() as int) =~= lv);
            out
        },
    }
}

pub open spec fn twitch_platform() -> Seq<char> {
    "tv.twitch:twitch-platform:6.5"@
}

/// Class path entry of one library (with its trailing separator), or
/// nothing for libraries of other systems and the old Twitch natives.
pub open spec fn classpath_entry(lib: Json, lib_dir: Seq<char>, os: Seq<char>) -> Seq<char> {
    if library_applies(lib, os) {
        let name = str_or(get(lib, "name"@), ""@);
        let kind = library_kind(lib, name, os);
        if kind is Old && name == twitch_platform() {
            Seq::empty()
        } else {
            match library_relative(name, kind, os) {
                Some(rel) => artifact_path_spec(lib, lib_dir, rel).push(separator_spec(os)),
                None => Seq::empty(),
            }
        }
    } else {
        Seq::empty()
    }
}

/// What the launcher puts on the class path for a library is the file the
/// installer downloads for it: for every named library of this system
/// (other than the old Twitch natives) whose coordinates read, the entry's
/// first download is saved exactly at its class path entry.
pub proof fn law_classpath_entry_is_downloaded(lib: Json, mc_dir: Seq<char>, folder: Seq<char>, os: Seq<char>, name: Seq<char>)
    requires
        library_applies(lib, os),
        as_str(get(lib, "name"@)) == Some(name),
        !(library_kind(lib, name, os) is Old && name == twitch_platform()),
        library_relative(name, library_kind(lib, name, os), os) is Some,
    ensures
        crate::downloader::library_downloads(lib, mc_dir, folder, os) matches Ok(d) && d.len() >= 1
            && classpath_entry(lib, mc_dir + "/libraries/"@, os) == d[0].0.push(separator_spec(os)),
{
}

pub open spec fn classpath_of(libs: Seq<Json>, lib_dir: Seq<char>, os: Seq<char>) -> Seq<char>
    decreases libs.len(),
{
    if libs.len() == 0 {
        Seq::empty()
    } else {
        classpath_of(libs.drop_last(), lib_dir, os) + classpath_entry(libs.last(), lib_dir, os)
    }
}

pub open spec fn lib_manager_spec(p: Json, mc_dir: Seq<char>, os: Seq<char>) -> Seq<char> {
    match crate::json::as_array(get(p, "libraries"@)) {
        Some(libs) => classpath_of(libs, mc_dir + "/libraries/"@, os),
        None => Seq::empty(),
    }
}

/// Every library of this system has a name with enough coordinates.
pub open spec fn library_ok(lib: Json, os: Seq<char>) -> bool {
    library_applies(lib, os) ==> match as_str(get(lib, "name"@)) {
        None => false,
        Some(name) => (library_kind(lib, name, os) is Old && name == twitch_platform())
            || library_relative(name, library_kind(lib, name, os), os) is Some,
    }
}

pub open spec fn classpath_ok(p: Json, os: Seq<char>) -> bool {
    match crate::json::as_array(get(p, "libraries"@)) {
        Some(libs) => forall|i: int| 0 <= i < libs.len() ==> library_ok(#[trigger] libs[i], os),
        None => true,
    }
}

/// Class path of a version json: every library of this system, by its
/// artifact path under `{mc_dir}/libraries/`, each followed by the
/// separator.
pub fn lib_manager(p: &Json, mc_dir: &str, os: &str) -> (r: String)
    requires
        supported_os(os@),
        classpath_ok(*p, os@),
    ensures
        r@ == lib_manager_spec(*p, mc_dir@, os@),
{
    let mut out: Vec<char> = Vec::new();
    match p.get("libraries").as_array() {
        None => text::string_of(&out),
        Some(libs) => {
            let mut ld = text::chars_of(mc_dir);
            text::push_str(&mut ld, "/libraries/");
            let lib_dir = text::string_of(&ld);
            let sep = classpath_separator(os);
            let twitch = text::chars_of("tv.twitch:twitch-platform:6.5");
            let mut i: usize = 0;
            assert(libs@.take(0) =~= Seq::<Json>::empty());
            assert(out@ =~= Seq::<char>::empty());
            while i < libs.len()
                invariant
                    i <= libs.len(),
                    supported_os(os@),
                    sep == separator_spec(os@),
                    lib_dir@ == mc_dir@ + "/libraries/"@,
                    twitch@ == twitch_platform(),
                    crate::json::as_array(get(*p, "libraries"@)) == Some(libs@),
                    classpath_ok(*p, os@),
                    out@ == classpath_of(libs@.take(i as int), lib_dir@, os@),
                decreases libs.len() - i,
            {
                assert(libs@.take(i + 1).drop_last() =~= libs@.take(i as int));
                assert(libs@.take(i + 1).last() == libs@[i as int]);
                let lib = &libs[i];
                let rule = lib.get("rules").at(0).get("os").get("name");
                if rule.is_text(os) || rule.is_null() {
                    let name = lib.get("name").str_or("");
                    let nv = text::chars_of(name.as_str());
                    let kind = crate::downloader::library_kind_of(lib, &nv, os);
                    let is_old = match kind {
                        LibraryKind::Old => true,
                        _ => false,
                    };
                    if !(is_old && text::chars_eq(&nv, &twitch)) {
                        match crate::downloader::library_relative_of(&nv, &kind, os) {
                            Some(rel) => {
                                let rel_s = text::string_of(&rel);
                                let path = crate::downloader::artifact_path(lib, lib_dir.as_str(), rel_s.as_str());
                                let pv = text::chars_of(path.as_str());
                                text::push_chars(&mut out, &pv);
                                out.push(sep);
                            },
                            None => {},
                        }
                    }
                }
                i += 1;
            }
            assert(libs@.take(libs.len() as int) =~= libs@);
            text::string_of(&out)
        },
    }
}

// ---------------------------------------------------------------------
// Modded versions
// ---------------------------------------------------------------------

pub open spec fn modded_game_args_spec(p: Json, vjson: Json, gd: Seq<Seq<char>>, mc_dir: Seq<char>) -> Seq<Seq<char>> {
    let gd2 = gd.update(4, crate::downloader::str_or(get(vjson, "assets"@), ""@));
    let base = match crate::json::as_array(get(get(vjson, "arguments"@), "game"@)) {
        Some(list) => game_args_spec(arg_strings(list), gd2, mc_dir),
        None => match as_str(get(vjson, "minecraftArguments"@)) {
            Some(a) => if crate::json::is_null(get(p, "minecraftArguments"@)) {
                game_args_spec(text::split_whitespace(a), gd2, mc_dir)
            } else {
                Seq::empty()
            },
            None => Seq::empty(),
        },
    };
    loader_own_game_args_spec(p) + base
}

pub open spec fn natives_dir_spec(mc_dir: Seq<char>, game_version: Seq<char>) -> Seq<char> {
    mc_dir + "/versions/"@ + game_version + "/natives"@
}

pub open spec fn modded_ok(vjson: Json, game_version: Seq<char>, mc_dir: Seq<char>, os: Seq<char>) -> bool {
    &&& as_str(get(vjson, "assets"@)) is Some
    &&& jvm_args_ok(vjson, natives_dir_spec(mc_dir, game_version), mc_dir, os)
    &&& classpath_ok(vjson, os)
}

fn append_strings(out: &mut Vec<String>, v: Vec<String>)
    ensures
        text::string_views(final(out)@) == text::string_views(old(out)@) + text::string_views(v@),
{
    let ghost before = text::string_views(out@);
    let mut j: usize = 0;
    assert(text::string_views(v@).take(0) =~= Seq::<Seq<char>>::empty());
    assert(text::string_views(out@) =~= before + text::string_views(v@).take(0));
    while j < v.len()
        invariant
            j <= v.len(),
            text::string_views(out@) == before + text::string_views(v@).take(j as int),
        decreases v.len() - j,
    {
        let x = v[j].clone();
        let ghost old_out = out@;
        out.push(x);
        assert(text::string_views(out@) =~= text::string_views(old_out).push(x@));
        assert(text::string_views(v@).take(j + 1) =~= text::string_views(v@).take(j as int).push(v@[j as int]@));
        j += 1;
    }
    assert(text::string_views(v@).take(v.len() as int) =~= text::string_views(v@));
}

/// Arguments of a modded version: the JVM arguments and class path of the
/// vanilla json it inherits from, and the game arguments of the loader
/// followed by the vanilla ones (filled with the vanilla asset index).
pub fn modded(
    p: &Json,
    vjson: &Json,
    game_version: &str,
    gamedata: &Vec<String>,
    mc_dir: &str,
    os: &str,
) -> (r: (Vec<String>, Vec<String>, String))
    requires
        gamedata@.len() >= 11,
        supported_os(os@),
        modded_ok(*vjson, game_version@, mc_dir@, os@),
    ensures
        text::string_views(r.0@) == jvm_args_spec(*vjson, natives_dir_spec(mc_dir@, game_version@), mc_dir@, os@),
        text::string_views(r.1@) == modded_game_args_spec(*p, *vjson, text::string_views(gamedata@), mc_dir@),
        r.2@ == lib_manager_spec(*vjson, mc_dir@, os@),
{
    let mut game = loader_own_game_args(p);
    let assets = vjson.get("assets").str_or("");
    let mut gd: Vec<String> = Vec::new();
    let mut k: usize = 0;
    while k < gamedata.len()
        invariant
            k <= gamedata.len(),
            gd@.len() == k,
            forall|j: int| 0 <= j < k ==> #[trigger] gd@[j]@ == (if j == 4 { assets@ } else { gamedata@[j]@ }),
        decreases gamedata.len() - k,
    {
        if k == 4 {
            gd.push(assets.clone());
        } else {
            gd.push(gamedata[k].clone());
        }
        k += 1;
    }
    assert(text::string_views(gd@) =~= text::string_views(gamedata@).update(4, assets@));
    match vjson.get("arguments").get("game").as_array() {
        Some(list) => {
            let base = arg_strings_of(list);
            let filled = get_game_args(&base, &gd, mc_dir);
            let ghost g0 = game@;
            append_strings(&mut game, filled);
            assert(text::string_views(game@) == text::string_views(g0) + game_args_spec(arg_strings(list@), text::string_views(gd@), mc_dir@));
        },
        None => match vjson.get("minecraftArguments").as_str() {
            Some(a) => {
                if p.get("minecraftArguments").is_null() {
                    let c = text::chars_of(a.as_str());
                    let w = text::chars_split_whitespace(&c);
                    assert(views(w@) =~= text::split_whitespace(a@));
                    let ws = strings_of(&w);
                    let filled = get_game_args(&ws, &gd, mc_dir);
                    append_strings(&mut game, filled);
                } else {
                    let e: Vec<String> = Vec::new();
                    append_strings(&mut game, e);
                }
            },
            None => {
                let e: Vec<String> = Vec::new();
                append_strings(&mut game, e);
            },
        },
    }
    let mut nd = text::chars_of(mc_dir);
    text::push_str(&mut nd, "/versions/");
    text::push_str(&mut nd, game_version);
    text::push_str(&mut nd, "/natives");
    let natives = text::string_of(&nd);
    let jvm = get_game_jvm_args(vjson, natives.as_str(), mc_dir, os);
    let libs = lib_manager(vjson, mc_dir, os);
    (jvm, game, libs)
}

// ---------------------------------------------------------------------
// Java selection
// ---------------------------------------------------------------------

pub open spec fn modern_jvm_flags_spec() -> Seq<char> {
    "-XX:+UnlockExperimentalVMOptions -XX:+UnlockDiagnosticVMOptions -XX:+AlwaysActAsServerClassMachine -XX:+AlwaysPreTouch -XX:+DisableExplicitGC -XX:+UseNUMA -XX:NmethodSweepActivity=1 -XX:ReservedCodeCacheSize=400M -XX:NonNMethodCodeHeapSize=12M -XX:ProfiledCodeHeapSize=194M -XX:NonProfiledCodeHeapSize=194M -XX:-DontCompileHugeMethods -XX:MaxNodeLimit=240000 -XX:NodeLimitFudgeFactor=8000 -XX:+UseVectorCmov -XX:+PerfDisableSharedMem -XX:+UseFastUnorderedTimeStamps -XX:AllocatePrefetchStyle=3"@
}

pub open spec fn java8_jvm_flags_spec() -> Seq<char> {
    "-XX:+UnlockExperimentalVMOptions -XX:+UnlockDiagnosticVMOptions -XX:+AlwaysActAsServerClassMachine -XX:+ParallelRefProcEnabled -XX:+DisableExplicitGC -XX:+AlwaysPreTouch -XX:+AggressiveOpts -XX:MaxInlineLevel=15 -XX:MaxVectorSize=32 -XX:+UseNUMA -XX:+UseDynamicNumberOfGCThreads -XX:NmethodSweepActivity=1 -XX:ReservedCodeCacheSize=350M -XX:-DontCompileHugeMethods -XX:MaxNodeLimit=240000 -XX:NodeLimitFudgeFactor=8000 -Dgraal.CompilerConfiguration=community"@
}

/// Tuning flags for Java 9 and later (also used for the system Java).
pub fn modern_jvm_flags() -> (r: &'static str)
    ensures
        r@ == modern_jvm_flags_spec(),
{
    "-XX:+UnlockExperimentalVMOptions -XX:+UnlockDiagnosticVMOptions -XX:+AlwaysActAsServerClassMachine -XX:+AlwaysPreTouch -XX:+DisableExplicitGC -XX:+UseNUMA -XX:NmethodSweepActivity=1 -XX:ReservedCodeCacheSize=400M -XX:NonNMethodCodeHeapSize=12M -XX:ProfiledCodeHeapSize=194M -XX:NonProfiledCodeHeapSize=194M -XX:-DontCompileHugeMethods -XX:MaxNodeLimit=240000 -XX:NodeLimitFudgeFactor=8000 -XX:+UseVectorCmov -XX:+PerfDisableSharedMem -XX:+UseFastUnorderedTimeStamps -XX:AllocatePrefetchStyle=3"
}

/// Tuning flags for Java 8.
pub fn java8_jvm_flags() -> (r: &'static str)
    ensures
        r@ == java8_jvm_flags_spec(),
{
    "-XX:+UnlockExperimentalVMOptions -XX:+UnlockDiagnosticVMOptions -XX:+AlwaysActAsServerClassMachine -XX:+ParallelRefProcEnabled -XX:+DisableExplicitGC -XX:+AlwaysPreTouch -XX:+AggressiveOpts -XX:MaxInlineLevel=15 -XX:MaxVectorSize=32 -XX:+UseNUMA -XX:+UseDynamicNumberOfGCThreads -XX:NmethodSweepActivity=1 -XX:ReservedCodeCacheSize=350M -XX:-DontCompileHugeMethods -XX:MaxNodeLimit=240000 -XX:NodeLimitFudgeFactor=8000 -Dgraal.CompilerConfiguration=community"
}

pub open spec fn java_fallback_id_spec(p: Json, game_version: Seq<char>, modded: bool) -> Seq<char> {
    if modded {
        crate::downloader::str_or(get(p, "inheritsFrom"@), game_version)
    } else {
        game_version
    }
}

/// Version id for the Java table: for modded versions the vanilla id
/// (`inheritsFrom`), never a custom folder name.
pub fn java_fallback_id(p: &Json, game_version: &str, modded: bool) -> (r: String)
    ensures
        r@ == java_fallback_id_spec(*p, game_version@, modded),
{
    if modded {
        p.get("inheritsFrom").str_or(game_version)
    } else {
        game_version.to_string()
    }
}

pub open spec fn java_binary_spec(os: Seq<char>) -> Seq<char> {
    if os == "windows"@ {
        "javaw.exe"@
    } else {
        "java"@
    }
}

pub open spec fn automatic_java_spec(lookup: Json, fallback_id: Seq<char>, mc_dir: Seq<char>, os: Seq<char>) -> (Seq<char>, Seq<Seq<char>>) {
    let required = required_java_major_spec(lookup, fallback_id);
    let path = mc_dir + "/dgrlauncher_java/"@ + managed_java_folder_spec(required) + "/bin/"@ + java_binary_spec(os);
    let flags = if required == 8 {
        java8_jvm_flags_spec()
    } else {
        modern_jvm_flags_spec()
    };
    (path, split(flags, seq![' ']))
}

/// The managed Java of a version: the binary of the JRE folder of the
/// required major version (`javaVersion.majorVersion` of the json when it
/// has one), with the Java 8 tuning flags exactly when that major is 8 and
/// the modern flags for every other major.
pub proof fn law_automatic_java(lookup: Json, fallback_id: Seq<char>, mc_dir: Seq<char>, os: Seq<char>, major: u64)
    requires
        as_u64(get(get(lookup, "javaVersion"@), "majorVersion"@)) == Some(major),
    ensures
        automatic_java_spec(lookup, fallback_id, mc_dir, os).0
            == mc_dir + "/dgrlauncher_java/java"@ + text::decimal(major as nat) + "/bin/"@ + java_binary_spec(os),
        major == 8 ==> automatic_java_spec(lookup, fallback_id, mc_dir, os).1 == split(java8_jvm_flags_spec(), seq![' ']),
        major != 8 ==> automatic_java_spec(lookup, fallback_id, mc_dir, os).1 == split(modern_jvm_flags_spec(), seq![' ']),
        split(java8_jvm_flags_spec(), seq![' ']) != split(modern_jvm_flags_spec(), seq![' ']),
{
    reveal_strlit("java");
    assert(("java"@ + text::decimal(major as nat)) =~= "java"@ + text::decimal(major as nat));
    assert(mc_dir + "/dgrlauncher_java/"@ + ("java"@ + text::decimal(major as nat)) + "/bin/"@ + java_binary_spec(os)
        =~= mc_dir + "/dgrlauncher_java/java"@ + text::decimal(major as nat) + "/bin/"@ + java_binary_spec(os)) by {
        reveal_strlit("/dgrlauncher_java/");
        reveal_strlit("/dgrlauncher_java/java");
    }
    lemma_flag_sets_differ();
}

proof fn lemma_flag_sets_differ()
    ensures
        split(java8_jvm_flags_spec(), seq![' ']) != split(modern_jvm_flags_spec(), seq![' ']),
{
    let a = java8_jvm_flags_spec();
    let b = modern_jvm_flags_spec();
    if split(a, seq![' ']) == split(b, seq![' ']) {
        text::lemma_split_free_join(a, ' ');
        text::lemma_split_free_join(b, ' ');
        reveal_strlit("-XX:+UnlockExperimentalVMOptions -XX:+UnlockDiagnosticVMOptions -XX:+AlwaysActAsServerClassMachine -XX:+AlwaysPreTouch -XX:+DisableExplicitGC -XX:+UseNUMA -XX:NmethodSweepActivity=1 -XX:ReservedCodeCacheSize=400M -XX:NonNMethodCodeHeapSize=12M -XX:ProfiledCodeHeapSize=194M -XX:NonProfiledCodeHeapSize=194M -XX:-DontCompileHugeMethods -XX:MaxNodeLimit=240000 -XX:NodeLimitFudgeFactor=8000 -XX:+UseVectorCmov -XX:+PerfDisableSharedMem -XX:+UseFastUnorderedTimeStamps -XX:AllocatePrefetchStyle=3");
        reveal_strlit("-XX:+UnlockExperimentalVMOptions -XX:+UnlockDiagnosticVMOptions -XX:+AlwaysActAsServerClassMachine -XX:+ParallelRefProcEnabled -XX:+DisableExplicitGC -XX:+AlwaysPreTouch -XX:+AggressiveOpts -XX:MaxInlineLevel=15 -XX:MaxVectorSize=32 -XX:+UseNUMA -XX:+UseDynamicNumberOfGCThreads -XX:NmethodSweepActivity=1 -XX:ReservedCodeCacheSize=350M -XX:-DontCompileHugeMethods -XX:MaxNodeLimit=240000 -XX:NodeLimitFudgeFactor=8000 -Dgraal.CompilerConfiguration=community");
        assert(a.len() != b.len());
    }
}

/// The launcher-managed Java for a version and its tuning flags: the
/// binary in `dgrlauncher_java/java{N}`, where `N` is the required major
/// from `lookup` (the vanilla json for modded versions), with the Java 8
/// flag set for Java 8 and the modern one otherwise.
pub fn automatic_java(lookup: &Json, fallback_id: &str, mc_dir: &str, os: &str) -> (r: (String, Vec<String>))
    ensures
        r.0@ == automatic_java_spec(*lookup, fallback_id@, mc_dir@, os@).0,
        text::string_views(r.1@) == automatic_java_spec(*lookup, fallback_id@, mc_dir@, os@).1,
{
    let required = required_java_major(lookup, fallback_id);
    let mut p = text::chars_of(mc_dir);
    text::push_str(&mut p, "/dgrlauncher_java/");
    let folder = managed_java_folder(required);
    text::push_str(&mut p, folder.as_str());
    text::push_str(&mut p, "/bin/");
    if text::str_eq(os, "windows") {
        text::push_str(&mut p, "javaw.exe");
    } else {
        text::push_str(&mut p, "java");
    }
    let flags = if required == 8 {
        java8_jvm_flags()
    } else {
        modern_jvm_flags()
    };
    (text::string_of(&p), get_vec_from(flags))
}

// ---------------------------------------------------------------------
// Version ordering
// ---------------------------------------------------------------------

pub open spec fn piece_at(p: Seq<Seq<char>>, k: int) -> Option<Seq<char>> {
    if 0 <= k < p.len() {
        Some(p[k])
    } else {
        None
    }
}

pub open spec fn num_of(p: Option<Seq<char>>) -> Option<i32> {
    match p {
        Some(x) => parse_i32_spec(x),
        None => None,
    }
}

/// Comparison of one dotted component: two numbers compare by value (and
/// `None` means equal numbers, look further); a number beats a non-number;
/// anything else ends the comparison as equal.
pub open spec fn level_cmp(pa: Option<Seq<char>>, pb: Option<Seq<char>>) -> Option<core::cmp::Ordering> {
    if num_of(pa) is Some && num_of(pb) is Some {
        if num_of(pa).unwrap() < num_of(pb).unwrap() {
            Some(core::cmp::Ordering::Less)
        } else if num_of(pa).unwrap() > num_of(pb).unwrap() {
            Some(core::cmp::Ordering::Greater)
        } else {
            None
        }
    } else if pa is Some && pb is Some && num_of(pa) is Some && num_of(pb) is None {
        Some(core::cmp::Ordering::Greater)
    } else if pa is Some && pb is Some && num_of(pa) is None && num_of(pb) is Some {
        Some(core::cmp::Ordering::Less)
    } else {
        Some(core::cmp::Ordering::Equal)
    }
}

/// Lexicographic order of character sequences (the order of their UTF-8
/// bytes, which is `str`'s order).
pub open spec fn lex_order(a: Seq<char>, b: Seq<char>) -> core::cmp::Ordering
    decreases a.len(),
{
    if a.len() == 0 && b.len() == 0 {
        core::cmp::Ordering::Equal
    } else if a.len() == 0 {
        core::cmp::Ordering::Less
    } else if b.len() == 0 {
        core::cmp::Ordering::Greater
    } else if a[0] < b[0] {
        core::cmp::Ordering::Less
    } else if a[0] > b[0] {
        core::cmp::Ordering::Greater
    } else {
        lex_order(a.drop_first(), b.drop_first())
    }
}

pub open spec fn piece_or_empty(p: Seq<Seq<char>>, k: int) -> Seq<char> {
    if 0 <= k < p.len() {
        p[k]
    } else {
        Seq::empty()
    }
}

pub open spec fn version_seps() -> Seq<char> {
    seq!['.', '-']
}

/// Order of two version names split on `.` and `-`: the first three
/// components by `level_cmp`, then the fourth as text.
pub open spec fn version_order(a: Seq<char>, b: Seq<char>) -> core::cmp::Ordering {
    let sa = split(a, version_seps());
    let sb = split(b, version_seps());
    match level_cmp(piece_at(sa, 0), piece_at(sb, 0)) {
        Some(o) => o,
        None => match level_cmp(piece_at(sa, 1), piece_at(sb, 1)) {
            Some(o) => o,
            None => match level_cmp(piece_at(sa, 2), piece_at(sb, 2)) {
                Some(o) => o,
                None => lex_order(piece_or_empty(sa, 3), piece_or_empty(sb, 3)),
            },
        },
    }
}

pub open spec fn flip(o: core::cmp::Ordering) -> core::cmp::Ordering {
    match o {
        core::cmp::Ordering::Less => core::cmp::Ordering::Greater,
        core::cmp::Ordering::Greater => core::cmp::Ordering::Less,
        core::cmp::Ordering::Equal => core::cmp::Ordering::Equal,
    }
}

fn piece_ref(p: &Vec<Vec<char>>, k: usize) -> (r: Option<&Vec<char>>)
    ensures
        match r {
            Some(x) => piece_at(views(p@), k as int) == Some(x@),
            None => piece_at(views(p@), k as int) is None,
        },
{
    if k < p.len() {
        Some(&p[k])
    } else {
        None
    }
}

fn num_ref(p: Option<&Vec<char>>) -> (r: Option<i32>)
    ensures
        r == match p {
            Some(x) => parse_i32_spec(x@),
            None => None,
        },
{
    match p {
        Some(x) => text::parse_i32(x),
        None => None,
    }
}

fn level_compare(pa: Option<&Vec<char>>, pb: Option<&Vec<char>>) -> (r: Option<core::cmp::Ordering>)
    ensures
        r == level_cmp(
            match pa {
                Some(x) => Some(x@),
                None => None,
            },
            match pb {
                Some(x) => Some(x@),
                None => None,
            },
        ),
{
    let na = num_ref(pa);
    let nb = num_ref(pb);
    match (na, nb) {
        (Some(x), Some(y)) => if x < y {
            Some(core::cmp::Ordering::Less)
        } else if x > y {
            Some(core::cmp::Ordering::Greater)
        } else {
            None
        },
        _ => {
            if pa.is_some() && pb.is_some() && na.is_some() && nb.is_none() {
                Some(core::cmp::Ordering::Greater)
            } else if pa.is_some() && pb.is_some() && na.is_none() && nb.is_some() {
                Some(core::cmp::Ordering::Less)
            } else {
                Some(core::cmp::Ordering::Equal)
            }
        },
    }
}

fn lex_compare(a: &Vec<char>, b: &Vec<char>) -> (r: core::cmp::Ordering)
    ensures
        r == lex_order(a@, b@),
{
    let mut i: usize = 0;
    let ghost mut k: int = 0;
    assert(a@.skip(0) =~= a@);
    assert(b@.skip(0) =~= b@);
    while i < a.len() && i < b.len() && a[i] == b[i]
        invariant
            k == i,
            i <= a.len(),
            i <= b.len(),
            lex_order(a@, b@) == lex_order(a@.skip(k), b@.skip(k)),
        decreases a.len() - i,
    {
        assert(a@.skip(k).drop_first() =~= a@.skip(k + 1));
        assert(b@.skip(k).drop_first() =~= b@.skip(k + 1));
        i += 1;
        proof {
            k = k + 1;
        }
    }
    if i == a.len() && i == b.len() {
        core::cmp::Ordering::Equal
    } else if i == a.len() {
        core::cmp::Ordering::Less
    } else if i == b.len() {
        core::cmp::Ordering::Greater
    } else if a[i] < b[i] {
        core::cmp::Ordering::Less
    } else {
        core::cmp::Ordering::Greater
    }
}

/// Order of installed version names (newest sorts last; the list shows
/// them in reverse): see `version_order`.
pub fn get_version_order(a: &str, b: &str) -> (r: core::cmp::Ordering)
    ensures
        r == version_order(a@, b@),
{
    let av = text::chars_of(a);
    let bv = text::chars_of(b);
    let seps = vec!['.', '-'];
    assert(seps@ =~= version_seps());
    let sa = text::chars_split(&av, &seps);
    let sb = text::chars_split(&bv, &seps);
    assert(views(sa@) =~= split(a@, version_seps()));
    assert(views(sb@) =~= split(b@, version_seps()));
    match level_compare(piece_ref(&sa, 0), piece_ref(&sb, 0)) {
        Some(o) => o,
        None => match level_compare(piece_ref(&sa, 1), piece_ref(&sb, 1)) {
            Some(o) => o,
            None => match level_compare(piece_ref(&sa, 2), piece_ref(&sb, 2)) {
                Some(o) => o,
                None => {
                    let e: Vec<char> = Vec::new();
                    let x = match piece_ref(&sa, 3) {
                        Some(x) => x,
                        None => &e,
                    };
                    let y = match piece_ref(&sb, 3) {
                        Some(y) => y,
                        None => &e,
                    };
                    assert(e@ =~= Seq::<char>::empty());
                    lex_compare(x, y)
                },
            },
        },
    }
}

pub proof fn lemma_lex_order_flip(a: Seq<char>, b: Seq<char>)
    ensures
        lex_order(a, b) == flip(lex_order(b, a)),
    decreases a.len(),
{
    if a.len() > 0 && b.len() > 0 && a[0] == b[0] {
        lemma_lex_order_flip(a.drop_first(), b.drop_first());
    }
}

pub proof fn lemma_lex_order_refl(a: Seq<char>)
    ensures
        lex_order(a, a) == core::cmp::Ordering::Equal,
    decreases a.len(),
{
    if a.len() > 0 {
        lemma_lex_order_refl(a.drop_first());
    }
}

/// Swapping the two names reverses their order.
pub proof fn law_version_order_antisymmetric(a: Seq<char>, b: Seq<char>)
    ensures
        version_order(a, b) == flip(version_order(b, a)),
{
    let sa = split(a, version_seps());
    let sb = split(b, version_seps());
    lemma_lex_order_flip(piece_or_empty(sa, 3), piece_or_empty(sb, 3));
}

/// A name is ordered equal to itself.
pub proof fn law_version_order_reflexive(a: Seq<char>)
    ensures
        version_order(a, a) == core::cmp::Ordering::Equal,
{
    let sa = split(a, version_seps());
    lemma_lex_order_refl(piece_or_empty(sa, 3));
}

/// `a` sorts after `b` in the version order (it is the newer one).
pub open spec fn newer_than(a: Seq<char>, b: Seq<char>) -> bool {
    version_order(a, b) == core::cmp::Ordering::Greater
}

/// `a` sorts before `b` in the version order (it is the older one).
pub open spec fn older_than(a: Seq<char>, b: Seq<char>) -> bool {
    version_order(a, b) == core::cmp::Ordering::Less
}

proof fn lemma_older_is_reversed_newer(a: Seq<char>, b: Seq<char>)
    ensures
        older_than(a, b) == newer_than(b, a),
{
    law_version_order_antisymmetric(a, b);
}

fn is_newer(a: &str, b: &str) -> (r: bool)
    ensures
        r == newer_than(a@, b@),
{
    match get_version_order(a, b) {
        core::cmp::Ordering::Greater => true,
        _ => false,
    }
}

/// No name of the list is older than the one after it. (The version
/// order is not transitive, so this is stated pair by pair.)
pub open spec fn newest_first(s: Seq<Seq<char>>) -> bool {
    forall|i: int, j: int| 0 <= i && j == i + 1 && j < s.len() ==> !older_than(#[trigger] s[i], #[trigger] s[j])
}

/// Installed version names for the list, newest first: the same names,
/// each no older than the next.
pub fn sort_versions_newest_first(ids: Vec<String>) -> (r: Vec<String>)
    ensures
        newest_first(text::string_views(r@)),
        text::string_views(r@).to_multiset() == text::string_views(ids@).to_multiset(),
{
    let mut out: Vec<String> = Vec::new();
    let mut i: usize = 0;
    assert(text::string_views(ids@).take(0) =~= Seq::<Seq<char>>::empty());
    assert(text::string_views(out@) =~= Seq::<Seq<char>>::empty());
    while i < ids.len()
        invariant
            i <= ids.len(),
            newest_first(text::string_views(out@)),
            text::string_views(out@).to_multiset() == text::string_views(ids@).take(i as int).to_multiset(),
        decreases ids.len() - i,
    {
        let x = ids[i].clone();
        let ghost o = text::string_views(out@);
        let mut k: usize = 0;
        while k < out.len() && !is_newer(x.as_str(), out[k].as_str())
            invariant
                k <= out.len(),
                o == text::string_views(out@),
                forall|m: int| 0 <= m < k ==> !newer_than(x@, #[trigger] o[m]),
            decreases out.len() - k,
        {
            k += 1;
        }
        proof {
            let n = o.insert(k as int, x@);
            assert(k < o.len() ==> newer_than(x@, o[k as int]));
            assert forall|a: int, b: int| 0 <= a && b == a + 1 && b < n.len() implies !older_than(#[trigger] n[a], #[trigger] n[b]) by {
                if b < k {
                    assert(n[a] == o[a] && n[b] == o[b]);
                } else if b == k {
                    assert(n[a] == o[a] && n[b] == x@);
                    lemma_older_is_reversed_newer(o[a], x@);
                } else if a == k {
                    assert(n[a] == x@ && n[b] == o[a]);
                    lemma_older_is_reversed_newer(x@, o[a]);
                    lemma_older_is_reversed_newer(o[a], x@);
                } else {
                    assert(n[a] == o[a - 1] && n[b] == o[b - 1]);
                }
            }
        }
        out.insert(k, x);
        proof {
            assert(text::string_views(out@) =~= o.insert(k as int, x@));
            assert(text::string_views(ids@).take(i + 1) =~= text::string_views(ids@).take(i as int).push(ids@[i as int]@));
            vstd::seq_lib::to_multiset_insert(o, k as int, x@);
            vstd::seq_lib::to_multiset_build(text::string_views(ids@).take(i as int), ids@[i as int]@);
        }
        i += 1;
    }
    assert(text::string_views(ids@).take(ids.len() as int) =~= text::string_views(ids@));
    out
}

// ---------------------------------------------------------------------
// The game command
// ---------------------------------------------------------------------

pub open spec fn is_modded_spec(game_version: Seq<char>, p: Json) -> bool {
    ||| text::contains_sub(text::lowercase(game_version), "fabric"@)
    ||| text::contains_sub(text::lowercase(game_version), "forge"@)
    ||| !crate::json::is_null(get(p, "inheritsFrom"@))
}

/// Whether a version runs through a loader: its name mentions Fabric or
/// Forge, or its json inherits from a vanilla version.
pub fn is_modded(game_version: &str, p: &Json) -> (r: bool)
    ensures
        r == is_modded_spec(game_version@, *p),
{
    let lower = text::to_lowercase(game_version);
    let l = text::chars_of(lower.as_str());
    let fabric = text::chars_of("fabric");
    let forge = text::chars_of("forge");
    text::chars_contains(&l, &fabric) || text::chars_contains(&l, &forge) || !p.get(
        "inheritsFrom",
    ).is_null()
}

pub open spec fn player_uuid(account: crate::auth::MinecraftAccount) -> Seq<char> {
    if account.uuid@.len() == 0 {
        crate::digest::hyphenated(crate::digest::md5_spec(vstd::utf8::encode_utf8(account.username@)))
    } else {
        account.uuid@
    }
}

/// Values for the game argument placeholders (see `game_arg`); the class
/// path closes the list.
pub open spec fn gamedata_spec(
    account: crate::auth::MinecraftAccount,
    game_version: Seq<char>,
    game_dir: Seq<char>,
    mc_dir: Seq<char>,
    p: Json,
    os: Seq<char>,
) -> Seq<Seq<char>> {
    seq![
        account.username@,
        game_version,
        game_dir,
        mc_dir + "/assets"@,
        str_or(get(p, "assets"@), ""@),
        player_uuid(account),
        account.token@,
        "{}"@,
        "legacy"@,
        "Release"@,
        "Modified"@,
        lib_manager_spec(p, mc_dir, os),
    ]
}

/// In a launch, each game-argument placeholder stands for its launch
/// input: the player name, the version, the game directory the launch was
/// given (the instance folder, never the shared assets folder), the
/// shared assets folder, the asset index of the version json, the
/// player's UUID (also for the session, client and Xbox ids), the access
/// token and `${game_assets}` the resources folder; `--demo` is dropped.
pub proof fn law_game_placeholders(
    account: crate::auth::MinecraftAccount,
    game_version: Seq<char>,
    game_dir: Seq<char>,
    mc_dir: Seq<char>,
    p: Json,
    os: Seq<char>,
)
    ensures
        ({
            let gd = gamedata_spec(account, game_version, game_dir, mc_dir, p, os);
            &&& game_arg("${auth_player_name}"@, gd, mc_dir) == Some(account.username@)
            &&& game_arg("${version_name}"@, gd, mc_dir) == Some(game_version)
            &&& game_arg("${game_directory}"@, gd, mc_dir) == Some(game_dir)
            &&& game_arg("${assets_root}"@, gd, mc_dir) == Some(mc_dir + "/assets"@)
            &&& game_arg("${assets_index_name}"@, gd, mc_dir) == Some(str_or(get(p, "assets"@), ""@))
            &&& game_arg("${auth_uuid}"@, gd, mc_dir) == Some(player_uuid(account))
            &&& game_arg("${auth_session}"@, gd, mc_dir) == Some(player_uuid(account))
            &&& game_arg("${auth_access_token}"@, gd, mc_dir) == Some(account.token@)
            &&& game_arg("${game_assets}"@, gd, mc_dir) == Some(mc_dir + "/resources"@)
            &&& game_arg("--demo"@, gd, mc_dir) is None
        }),
{
    reveal_strlit("${auth_player_name}");
    reveal_strlit("${version_name}");
    reveal_strlit("${game_directory}");
    reveal_strlit("${assets_root}");
    reveal_strlit("${assets_index_name}");
    reveal_strlit("${auth_uuid}");
    reveal_strlit("${auth_session}");
    reveal_strlit("${clientid}");
    reveal_strlit("${auth_xuid}");
    reveal_strlit("${auth_access_token}");
    reveal_strlit("${user_properties}");
    reveal_strlit("${user_type}");
    reveal_strlit("${version_type}");
    reveal_strlit("${classpath}");
    reveal_strlit("${game_assets}");
    reveal_strlit("--demo");
    assert("${version_name}"@[2] != "${auth_player_name}"@[2]);
    assert("${game_directory}"@[2] != "${auth_player_name}"@[2]);
    assert("${game_directory}"@[2] != "${version_name}"@[2]);
    assert("${assets_root}"@.len() != "${auth_player_name}"@.len());
    assert("${assets_root}"@[2] != "${version_name}"@[2]);
    assert("${assets_root}"@[2] != "${game_directory}"@[2]);
    assert("${assets_index_name}"@.len() != "${auth_player_name}"@.len());
    assert("${assets_index_name}"@.len() != "${version_name}"@.len());
    assert("${assets_index_name}"@.len() != "${game_directory}"@.len());
    assert("${assets_index_name}"@.len() != "${assets_root}"@.len());
    assert("${auth_uuid}"@.len() != "${auth_player_name}"@.len());
    assert("${auth_uuid}"@[2] != "${version_name}"@[2]);
    assert("${auth_uuid}"@[2] != "${game_directory}"@[2]);
    assert("${auth_uuid}"@.len() != "${assets_root}"@.len());
    assert("${auth_uuid}"@.len() != "${assets_index_name}"@.len());
    assert("${auth_session}"@.len() != "${auth_player_name}"@.len());
    assert("${auth_session}"@[2] != "${version_name}"@[2]);
    assert("${auth_session}"@[2] != "${game_directory}"@[2]);
    assert("${auth_session}"@[3] != "${assets_root}"@[3]);
    assert("${auth_session}"@.len() != "${assets_index_name}"@.len());
    assert("${auth_session}"@.len() != "${auth_uuid}"@.len());
    assert("${auth_access_token}"@.len() != "${auth_player_name}"@.len());
    assert("${auth_access_token}"@[2] != "${version_name}"@[2]);
    assert("${auth_access_token}"@[2] != "${game_directory}"@[2]);
    assert("${auth_access_token}"@[3] != "${assets_root}"@[3]);
    assert("${auth_access_token}"@[3] != "${assets_index_name}"@[3]);
    assert("${auth_access_token}"@.len() != "${auth_uuid}"@.len());
    assert("${auth_access_token}"@.len() != "${auth_session}"@.len());
    assert("${auth_access_token}"@.len() != "${clientid}"@.len());
    assert("${auth_access_token}"@[2] != "${clientid}"@[2]);
    assert("${auth_access_token}"@[7] != "${auth_xuid}"@[7]);
    assert("${game_assets}"@[2] != "${auth_player_name}"@[2]);
    assert("${game_assets}"@[2] != "${version_name}"@[2]);
    assert("${game_assets}"@.len() != "${game_directory}"@.len());
    assert("${game_assets}"@[2] != "${assets_root}"@[2]);
    assert("${game_assets}"@[2] != "${assets_index_name}"@[2]);
    assert("${game_assets}"@[2] != "${auth_uuid}"@[2]);
    assert("${game_assets}"@[2] != "${auth_session}"@[2]);
    assert("${game_assets}"@[2] != "${clientid}"@[2]);
    assert("${game_assets}"@[2] != "${auth_xuid}"@[2]);
    assert("${game_assets}"@[2] != "${auth_access_token}"@[2]);
    assert("${game_assets}"@[2] != "${user_properties}"@[2]);
    assert("${game_assets}"@[2] != "${user_type}"@[2]);
    assert("${game_assets}"@[2] != "${version_type}"@[2]);
    assert("${game_assets}"@[2] != "${classpath}"@[2]);
    assert("--demo"@[0] != "${auth_player_name}"@[0]);
}

/// Filling the placeholders keeps the arguments in order, one result per
/// argument, when no argument is `--demo`.
pub proof fn law_game_args_in_order(args: Seq<Seq<char>>, gd: Seq<Seq<char>>, mc_dir: Seq<char>)
    requires
        forall|i: int| 0 <= i < args.len() ==> game_arg(#[trigger] args[i], gd, mc_dir) is Some,
    ensures
        game_args_spec(args, gd, mc_dir).len() == args.len(),
        forall|i: int| 0 <= i < args.len() ==> Some(#[trigger] game_args_spec(args, gd, mc_dir)[i]) == game_arg(args[i], gd, mc_dir),
    decreases args.len(),
{
    if args.len() > 0 {
        let d = args.drop_last();
        assert forall|i: int| 0 <= i < d.len() implies game_arg(#[trigger] d[i], gd, mc_dir) is Some by {
            assert(d[i] == args[i]);
        }
        law_game_args_in_order(d, gd, mc_dir);
        assert forall|i: int| 0 <= i < args.len() implies Some(#[trigger] game_args_spec(args, gd, mc_dir)[i]) == game_arg(args[i], gd, mc_dir) by {
            if i < d.len() {
                assert(d[i] == args[i]);
            }
        }
    }
}

/// Game arguments of a vanilla json: `arguments.game`, else the words of
/// `minecraftArguments`, placeholders filled.
pub open spec fn vanilla_game_args_spec(p: Json, gd: Seq<Seq<char>>, mc_dir: Seq<char>) -> Seq<Seq<char>> {
    match crate::json::as_array(get(get(p, "arguments"@), "game"@)) {
        Some(list) => game_args_spec(arg_strings(list), gd, mc_dir),
        None => match as_str(get(p, "minecraftArguments"@)) {
            Some(a) => game_args_spec(text::split_whitespace(a), gd, mc_dir),
            None => Seq::empty(),
        },
    }
}

pub open spec fn java_choice_spec(
    java_type: JavaType,
    custom_jvm: Seq<char>,
    custom_jvm_args: Seq<Seq<char>>,
    p: Json,
    vjson: Json,
    game_version: Seq<char>,
    modded: bool,
    mc_dir: Seq<char>,
    os: Seq<char>,
) -> (Seq<char>, Seq<Seq<char>>) {
    match java_type {
        JavaType::System => ("java"@, split(modern_jvm_flags_spec(), seq![' '])),
        JavaType::Custom => (custom_jvm, custom_jvm_args),
        JavaType::Automatic => automatic_java_spec(
            if modded {
                vjson
            } else {
                p
            },
            java_fallback_id_spec(p, game_version, modded),
            mc_dir,
            os,
        ),
    }
}

/// Program and arguments that start the game. `p` is the version json,
/// `vjson` the vanilla json a modded version inherits from, `xmx` the
/// heap flag.
pub open spec fn launch_spec(
    account: crate::auth::MinecraftAccount,
    game_version: Seq<char>,
    game_dir: Seq<char>,
    java_type: JavaType,
    custom_jvm: Seq<char>,
    custom_jvm_args: Seq<Seq<char>>,
    wrappers: Seq<Seq<char>>,
    xmx: Seq<char>,
    mc_dir: Seq<char>,
    os: Seq<char>,
    p: Json,
    vjson: Json,
) -> (Seq<char>, Seq<Seq<char>>) {
    let native_dir = natives_dir_spec(mc_dir, game_version);
    let gd = gamedata_spec(account, game_version, game_dir, mc_dir, p, os);
    let modded = is_modded_spec(game_version, p);
    let jvm0 = jvm_args_spec(p, native_dir, mc_dir, os);
    let jvm = if modded {
        jvm0 + jvm_args_spec(vjson, native_dir, mc_dir, os)
    } else {
        jvm0
    };
    let libs0 = lib_manager_spec(p, mc_dir, os);
    let libs1 = if modded {
        libs0 + lib_manager_spec(vjson, mc_dir, os)
    } else {
        libs0
    };
    let game = if modded {
        modded_game_args_spec(p, vjson, gd, mc_dir)
    } else {
        vanilla_game_args_spec(p, gd, mc_dir)
    };
    let java = java_choice_spec(java_type, custom_jvm, custom_jvm_args, p, vjson, game_version, modded, mc_dir, os);
    let libs2 = libs1 + mc_dir + "/versions/"@ + game_version + "/"@ + game_version + ".jar"@;
    let cp = dedupe_classpath_spec(libs2, separator_spec(os));
    let tail = seq![xmx] + java.1 + jvm + seq!["-cp"@, cp, str_or(get(p, "mainClass"@), ""@)] + game;
    if wrappers.len() > 0 {
        (wrappers[0], wrappers.drop_first().push(java.0) + tail)
    } else {
        (java.0, tail)
    }
}

/// What a version json must hold for the game command to be built.
pub open spec fn launch_ok(game_version: Seq<char>, mc_dir: Seq<char>, os: Seq<char>, p: Json, vjson: Json) -> bool {
    &&& supported_os(os)
    &&& as_str(get(p, "mainClass"@)) is Some
    &&& classpath_ok(p, os)
    &&& jvm_args_ok(p, natives_dir_spec(mc_dir, game_version), mc_dir, os)
    &&& is_modded_spec(game_version, p) ==> {
        &&& as_str(get(p, "inheritsFrom"@)) is Some
        &&& modded_ok(vjson, game_version, mc_dir, os)
    }
}

fn push_string(out: &mut Vec<String>, s: String)
    ensures
        text::string_views(final(out)@) == text::string_views(old(out)@).push(s@),
{
    let ghost o = out@;
    out.push(s);
    assert(text::string_views(out@) =~= text::string_views(o).push(s@));
}

fn copy_strings(v: &Vec<String>) -> (r: Vec<String>)
    ensures
        text::string_views(r@) == text::string_views(v@),
{
    let mut out: Vec<String> = Vec::new();
    let mut i: usize = 0;
    while i < v.len()
        invariant
            i <= v.len(),
            text::string_views(out@) == text::string_views(v@).take(i as int),
        decreases v.len() - i,
    {
        push_string(&mut out, v[i].clone());
        assert(text::string_views(v@).take(i + 1) =~= text::string_views(v@).take(i as int).push(v@[i as int]@));
        i += 1;
    }
    assert(text::string_views(v@).take(v.len() as int) =~= text::string_views(v@));
    out
}

fn gamedata_of(
    account: &crate::auth::MinecraftAccount,
    game_version: &str,
    game_dir: &str,
    mc_dir: &str,
    os: &str,
    p: &Json,
    libs0: &String,
) -> (r: Vec<String>)
    requires
        libs0@ == lib_manager_spec(*p, mc_dir@, os@),
    ensures
        text::string_views(r@) == gamedata_spec(*account, game_version@, game_dir@, mc_dir@, *p, os@),
        r@.len() == 12,
{
    let asset_index = p.get("assets").str_or("");
    let uuid = if account.uuid.as_str().unicode_len() == 0 {
        crate::digest::generate_uuid(account.username.as_str())
    } else {
        account.uuid.clone()
    };
    let mut ad = text::chars_of(mc_dir);
    text::push_str(&mut ad, "/assets");
    let mut gd: Vec<String> = Vec::new();
    push_string(&mut gd, account.username.clone());
    push_string(&mut gd, game_version.to_string());
    push_string(&mut gd, game_dir.to_string());
    push_string(&mut gd, text::string_of(&ad));
    push_string(&mut gd, asset_index);
    push_string(&mut gd, uuid);
    push_string(&mut gd, account.token.clone());
    push_string(&mut gd, "{}".to_string());
    push_string(&mut gd, "legacy".to_string());
    push_string(&mut gd, "Release".to_string());
    push_string(&mut gd, "Modified".to_string());
    push_string(&mut gd, libs0.clone());
    assert(text::string_views(gd@) =~= gamedata_spec(*account, game_version@, game_dir@, mc_dir@, *p, os@));
    gd
}

fn vanilla_game_args(p: &Json, gd: &Vec<String>, mc_dir: &str) -> (r: Vec<String>)
    requires
        gd@.len() >= 11,
    ensures
        text::string_views(r@) == vanilla_game_args_spec(*p, text::string_views(gd@), mc_dir@),
{
    match p.get("arguments").get("game").as_array() {
        Some(list) => {
            let a = arg_strings_of(list);
            get_game_args(&a, gd, mc_dir)
        },
        None => match p.get("minecraftArguments").as_str() {
            Some(a) => {
                let c = text::chars_of(a.as_str());
                let w = text::chars_split_whitespace(&c);
                assert(views(w@) =~= text::split_whitespace(a@));
                let ws = strings_of(&w);
                get_game_args(&ws, gd, mc_dir)
            },
            None => {
                let e: Vec<String> = Vec::new();
                assert(text::string_views(e@) =~= Seq::<Seq<char>>::empty());
                e
            },
        },
    }
}

fn java_choice(
    java_type: &JavaType,
    custom_jvm: &str,
    custom_jvm_args: &Vec<String>,
    p: &Json,
    vjson: &Json,
    game_version: &str,
    is_mod: bool,
    mc_dir: &str,
    os: &str,
) -> (r: (String, Vec<String>))
    ensures
        r.0@ == java_choice_spec(*java_type, custom_jvm@, text::string_views(custom_jvm_args@), *p, *vjson, game_version@, is_mod, mc_dir@, os@).0,
        text::string_views(r.1@) == java_choice_spec(*java_type, custom_jvm@, text::string_views(custom_jvm_args@), *p, *vjson, game_version@, is_mod, mc_dir@, os@).1,
{
    match java_type {
        JavaType::System => ("java".to_string(), get_vec_from(modern_jvm_flags())),
        JavaType::Custom => (custom_jvm.to_string(), copy_strings(custom_jvm_args)),
        JavaType::Automatic => {
            let fb = java_fallback_id(p, game_version, is_mod);
            if is_mod {
                automatic_java(vjson, fb.as_str(), mc_dir, os)
            } else {
                automatic_java(p, fb.as_str(), mc_dir, os)
            }
        },
    }
}

fn launch_classpath(libs1: &Vec<char>, game_version: &str, mc_dir: &str, os: &str) -> (r: String)
    requires
        supported_os(os@),
    ensures
        r@ == dedupe_classpath_spec(libs1@ + mc_dir@ + "/versions/"@ + game_version@ + "/"@ + game_version@ + ".jar"@, separator_spec(os@)),
{
    let mut libs = text::chars_copy(libs1);
    text::push_str(&mut libs, mc_dir);
    text::push_str(&mut libs, "/versions/");
    text::push_str(&mut libs, game_version);
    text::push_str(&mut libs, "/");
    text::push_str(&mut libs, game_version);
    text::push_str(&mut libs, ".jar");
    let sep = classpath_separator(os);
    let libs_s = text::string_of(&libs);
    dedupe_classpath(libs_s.as_str(), sep)
}

fn assemble(
    wrapper_commands: &Vec<String>,
    java_path: String,
    java_args: Vec<String>,
    jvm: Vec<String>,
    xmx: &str,
    cp: String,
    main_class: String,
    game: Vec<String>,
) -> (r: (String, Vec<String>))
    ensures
        ({
            let tail = seq![xmx@] + text::string_views(java_args@) + text::string_views(jvm@) + seq!["-cp"@, cp@, main_class@] + text::string_views(game@);
            let w = text::string_views(wrapper_commands@);
            if w.len() > 0 {
                r.0@ == w[0] && text::string_views(r.1@) == w.drop_first().push(java_path@) + tail
            } else {
                r.0@ == java_path@ && text::string_views(r.1@) == tail
            }
        }),
{
    let mut args: Vec<String> = Vec::new();
    let ghost jp = java_path@;
    let program = if wrapper_commands.len() > 0 {
        let mut i: usize = 1;
        assert(text::string_views(args@) =~= text::string_views(wrapper_commands@).drop_first().take(0));
        while i < wrapper_commands.len()
            invariant
                1 <= i <= wrapper_commands.len(),
                text::string_views(args@) == text::string_views(wrapper_commands@).drop_first().take(i - 1),
            decreases wrapper_commands.len() - i,
        {
            push_string(&mut args, wrapper_commands[i].clone());
            assert(text::string_views(wrapper_commands@).drop_first().take(i as int) =~= text::string_views(wrapper_commands@).drop_first().take(i - 1).push(wrapper_commands@[i as int]@));
            i += 1;
        }
        assert(text::string_views(wrapper_commands@).drop_first().take(wrapper_commands.len() - 1) =~= text::string_views(wrapper_commands@).drop_first());
        push_string(&mut args, java_path);
        wrapper_commands[0].clone()
    } else {
        assert(text::string_views(args@) =~= Seq::<Seq<char>>::empty());
        java_path
    };
    let ghost pre = text::string_views(args@);
    push_string(&mut args, xmx.to_string());
    append_strings(&mut args, java_args);
    append_strings(&mut args, jvm);
    push_string(&mut args, "-cp".to_string());
    push_string(&mut args, cp);
    push_string(&mut args, main_class);
    append_strings(&mut args, game);
    assert(text::string_views(args@) =~= pre + (seq![xmx@] + text::string_views(java_args@) + text::string_views(jvm@) + seq!["-cp"@, cp@, main_class@] + text::string_views(game@)));
    (program, args)
}

/// The program and arguments that start a version (see `launch_spec`):
/// wrapper commands first, then the Java binary, the heap flag, the Java
/// tuning flags, the JVM arguments of the version (and of the vanilla
/// version it inherits from), the de-duplicated class path ending with the
/// version jar, the main class and the game arguments.
pub fn launch_command(
    account: &crate::auth::MinecraftAccount,
    game_version: &str,
    game_dir: &str,
    java_type: &JavaType,
    custom_jvm: &str,
    custom_jvm_args: &Vec<String>,
    wrapper_commands: &Vec<String>,
    xmx: &str,
    mc_dir: &str,
    os: &str,
    p: &Json,
    vjson: &Json,
) -> (r: (String, Vec<String>))
    requires
        launch_ok(game_version@, mc_dir@, os@, *p, *vjson),
    ensures
        r.0@ == launch_spec(*account, game_version@, game_dir@, *java_type, custom_jvm@, text::string_views(custom_jvm_args@), text::string_views(wrapper_commands@), xmx@, mc_dir@, os@, *p, *vjson).0,
        text::string_views(r.1@) == launch_spec(*account, game_version@, game_dir@, *java_type, custom_jvm@, text::string_views(custom_jvm_args@), text::string_views(wrapper_commands@), xmx@, mc_dir@, os@, *p, *vjson).1,
{
    let main_class = p.get("mainClass").str_or("");
    let mut nd = text::chars_of(mc_dir);
    text::push_str(&mut nd, "/versions/");
    text::push_str(&mut nd, game_version);
    text::push_str(&mut nd, "/natives");
    let native_dir = text::string_of(&nd);
    let libs0 = lib_manager(p, mc_dir, os);
    let mut jvm = get_game_jvm_args(p, native_dir.as_str(), mc_dir, os);
    let gd = gamedata_of(account, game_version, game_dir, mc_dir, os, p, &libs0);
    let is_mod = is_modded(game_version, p);
    let mut libs = text::chars_of(libs0.as_str());
    let game = if is_mod {
        let (mj, mg, vl) = modded(p, vjson, game_version, &gd, mc_dir, os);
        append_strings(&mut jvm, mj);
        text::push_str(&mut libs, vl.as_str());
        mg
    } else {
        vanilla_game_args(p, &gd, mc_dir)
    };
    let (java_path, java_args) = java_choice(java_type, custom_jvm, custom_jvm_args, p, vjson, game_version, is_mod, mc_dir, os);
    let cp = launch_classpath(&libs, game_version, mc_dir, os);
    assemble(wrapper_commands, java_path, java_args, jvm, xmx, cp, main_class, game)
}


// ---------------------------------------------------------------------
// Checking a version before it starts
// ---------------------------------------------------------------------

pub open spec fn version_dir_spec(mc_dir: Seq<char>, game_version: Seq<char>) -> Seq<char> {
    mc_dir + "/versions/"@ + game_version
}

pub open spec fn not_natives_archive(d: (Seq<char>, Seq<char>)) -> bool {
    !text::contains_sub(d.0, "natives.jar"@)
}

/// Library files of a profile that must be on disk: its library
/// downloads, without the natives archive once the natives are unpacked;
/// nothing when the list names a bad library.
pub open spec fn check_libraries_spec(libs: Seq<Json>, mc_dir: Seq<char>, version_dir: Seq<char>, os: Seq<char>, natives_ready: bool) -> Seq<(Seq<char>, Seq<char>)> {
    match crate::downloader::libraries_downloads(libs, mc_dir, version_dir, os) {
        Ok(l) => if natives_ready {
            l.filter(|d: (Seq<char>, Seq<char>)| not_natives_archive(d))
        } else {
            l
        },
        Err(_) => Seq::empty(),
    }
}

fn check_libraries(libs: &Vec<Json>, mc_dir: &str, version_dir: &str, os: &str, natives_ready: bool) -> (r: Vec<crate::downloader::Download>)
    ensures
        crate::downloader::download_views(r@) == check_libraries_spec(libs@, mc_dir@, version_dir@, os@, natives_ready),
{
    match crate::downloader::get_libraries(mc_dir, libs, version_dir, os) {
        Err(_) => {
            let e: Vec<crate::downloader::Download> = Vec::new();
            assert(crate::downloader::download_views(e@) =~= Seq::<(Seq<char>, Seq<char>)>::empty());
            e
        },
        Ok(l) => {
            if !natives_ready {
                return l;
            }
            let ghost lv = crate::downloader::download_views(l@);
            let ghost pred = |d: (Seq<char>, Seq<char>)| not_natives_archive(d);
            let mut out: Vec<crate::downloader::Download> = Vec::new();
            let mut i: usize = 0;
            assert(lv.take(0) =~= Seq::<(Seq<char>, Seq<char>)>::empty());
            assert(crate::downloader::download_views(out@) =~= Seq::<(Seq<char>, Seq<char>)>::empty());
            while i < l.len()
                invariant
                    i <= l.len(),
                    lv == crate::downloader::download_views(l@),
                    pred == (|d: (Seq<char>, Seq<char>)| not_natives_archive(d)),
                    crate::downloader::download_views(out@) == lv.take(i as int).filter(pred),
                decreases l.len() - i,
            {
                assert(lv.take(i + 1).drop_last() =~= lv.take(i as int));
                assert(lv.take(i + 1).last() == l@[i as int]@);
                if !crate::downloader::is_natives_archive(l[i].path.as_str()) {
                    let x = crate::downloader::Download { path: l[i].path.clone(), url: l[i].url.clone() };
                    let ghost old_out = out@;
                    out.push(x);
                    assert(crate::downloader::download_views(out@) =~= crate::downloader::download_views(old_out).push(x@));
                    assert(pred(lv.take(i + 1).last()));
                    assert(lv.take(i + 1).filter(pred) == lv.take(i as int).filter(pred).push(l@[i as int]@)) by {
                        reveal(Seq::filter);
                    }
                } else {
                    assert(!pred(lv.take(i + 1).last()));
                    assert(lv.take(i + 1).filter(pred) == lv.take(i as int).filter(pred)) by {
                        reveal(Seq::filter);
                    }
                }
                i += 1;
            }
            assert(lv.take(l.len() as int) =~= lv);
            out
        },
    }
}

pub open spec fn boots_without_jar(p: Json) -> bool {
    &&& !crate::json::is_null(get(p, "inheritsFrom"@))
    &&& match as_str(get(p, "mainClass"@)) {
        Some(m) => text::contains_sub(m, "bootstraplauncher"@),
        None => false,
    }
}

/// Files the check looks for before a start, in the order it reports
/// them: the loader's own libraries (modded versions), the version jar
/// unless the version boots without one or `jar_ok` says a non-empty jar
/// is there, the vanilla libraries, and the assets of the asset index
/// when it is on disk. `vjson` is the vanilla json a modded version
/// inherits from.
pub open spec fn check_candidates_spec(
    p: Json,
    vjson: Json,
    mc_dir: Seq<char>,
    game_version: Seq<char>,
    os: Seq<char>,
    natives_ready: bool,
    jar_ok: bool,
    asset_index: Option<Json>,
) -> Seq<(Seq<char>, Seq<char>)> {
    let vd = version_dir_spec(mc_dir, game_version);
    let modded = !crate::json::is_null(get(p, "inheritsFrom"@));
    let base = if modded {
        vjson
    } else {
        p
    };
    let own = if modded {
        check_libraries_spec(crate::json::as_array(get(p, "libraries"@)).unwrap(), mc_dir, vd, os, natives_ready)
    } else {
        Seq::empty()
    };
    let jar = match as_str(get(get(get(base, "downloads"@), "client"@), "url"@)) {
        Some(u) => if !boots_without_jar(p) && !jar_ok {
            seq![(vd + "/"@ + game_version + ".jar"@, u)]
        } else {
            Seq::empty()
        },
        None => Seq::empty(),
    };
    let assets = match asset_index {
        Some(i) => crate::downloader::get_assets_spec(mc_dir, i),
        None => Seq::empty(),
    };
    own + jar + check_libraries_spec(crate::json::as_array(get(base, "libraries"@)).unwrap(), mc_dir, vd, os, natives_ready) + assets
}

pub open spec fn check_inputs_ok(p: Json, vjson: Json, asset_index: Option<Json>) -> bool {
    &&& crate::json::as_array(get(p, "libraries"@)) is Some
    &&& !crate::json::is_null(get(p, "inheritsFrom"@)) ==> crate::json::as_array(get(vjson, "libraries"@)) is Some
    &&& match asset_index {
        Some(i) => crate::downloader::asset_hashes_ok(i),
        None => true,
    }
}

/// The files to look for on disk before a version starts (see
/// `check_candidates_spec`); the caller keeps those that are absent with
/// `missing_downloads`.
pub fn check_candidates(
    p: &Json,
    vjson: &Json,
    mc_dir: &str,
    game_version: &str,
    os: &str,
    natives_ready: bool,
    jar_ok: bool,
    asset_index: Option<&Json>,
) -> (r: Vec<crate::downloader::Download>)
    requires
        check_inputs_ok(*p, *vjson, match asset_index { Some(i) => Some(*i), None => None }),
    ensures
        crate::downloader::download_views(r@) == check_candidates_spec(*p, *vjson, mc_dir@, game_version@, os@, natives_ready, jar_ok, match asset_index { Some(i) => Some(*i), None => None }),
{
    let mut vd = text::chars_of(mc_dir);
    text::push_str(&mut vd, "/versions/");
    text::push_str(&mut vd, game_version);
    let version_dir = text::string_of(&vd);
    let modded = !p.get("inheritsFrom").is_null();
    let base = if modded { vjson } else { p };
    let mut out: Vec<crate::downloader::Download> = Vec::new();
    assert(crate::downloader::download_views(out@) =~= Seq::<(Seq<char>, Seq<char>)>::empty());
    if modded {
        let own_libs = p.get("libraries").as_array().unwrap();
        let own = check_libraries(own_libs, mc_dir, version_dir.as_str(), os, natives_ready);
        crate::downloader::append_downloads(&mut out, own);
    }
    let skip = modded && match p.get("mainClass").as_str() {
        Some(m) => {
            let mc = text::chars_of(m.as_str());
            let b = text::chars_of("bootstraplauncher");
            text::chars_contains(&mc, &b)
        },
        None => false,
    };
    match base.get("downloads").get("client").get("url").as_str() {
        Some(u) => {
            if !skip && !jar_ok {
                let mut jp = text::chars_copy(&vd);
                text::push_str(&mut jp, "/");
                text::push_str(&mut jp, game_version);
                text::push_str(&mut jp, ".jar");
                let x = crate::downloader::Download { path: text::string_of(&jp), url: u.clone() };
                let ghost old_out = out@;
                out.push(x);
                assert(crate::downloader::download_views(out@) =~= crate::downloader::download_views(old_out).push(x@));
            }
        },
        None => {},
    }
    let base_libs = base.get("libraries").as_array().unwrap();
    let libs = check_libraries(base_libs, mc_dir, version_dir.as_str(), os, natives_ready);
    crate::downloader::append_downloads(&mut out, libs);
    match asset_index {
        Some(i) => {
            let a = crate::downloader::get_assets(mc_dir, i);
            crate::downloader::append_downloads(&mut out, a);
        },
        None => {},
    }
    out
}

pub open spec fn java_lookup_spec(p: Json, vanilla: Option<Json>) -> Json {
    match (as_str(get(p, "inheritsFrom"@)), vanilla) {
        (Some(_), Some(v)) => v,
        _ => p,
    }
}

/// Java major a version needs: read from the vanilla json it inherits
/// from when that json could be read, else from its own json, with the
/// vanilla id as the reference for the fallback table.
pub fn check_java_major(p: &Json, vanilla: Option<&Json>, game_version: &str) -> (r: u64)
    ensures
        r == required_java_major_spec(java_lookup_spec(*p, match vanilla { Some(v) => Some(*v), None => None }), java_fallback_id_spec(*p, game_version@, true)),
{
    let fb = java_fallback_id(p, game_version, true);
    let lookup = match (p.get("inheritsFrom").as_str(), vanilla) {
        (Some(_), Some(v)) => v,
        _ => p,
    };
    required_java_major(lookup, fb.as_str())
}

pub open spec fn managed_java_dir_spec(mc_dir: Seq<char>, major: u64) -> Seq<char> {
    mc_dir + "/dgrlauncher_java/"@ + managed_java_folder_spec(major)
}

/// Folder of the launcher-managed JRE of a major version.
pub fn managed_java_dir(mc_dir: &str, major: u64) -> (r: String)
    ensures
        r@ == managed_java_dir_spec(mc_dir@, major),
{
    let mut d = text::chars_of(mc_dir);
    text::push_str(&mut d, "/dgrlauncher_java/");
    let f = managed_java_folder(major);
    text::push_str(&mut d, f.as_str());
    text::string_of(&d)
}

/// What the check reports: the missing files if there are any, else the
/// managed JRE when Java is chosen automatically and its folder is not
/// there, else nothing.
pub fn check_outcome(missing: Vec<crate::downloader::Download>, java_type: &JavaType, required: u64, java_present: bool) -> (r: Option<Missing>)
    ensures
        missing@.len() > 0 ==> r == Some(Missing::VersionFiles(missing)),
        missing@.len() == 0 && *java_type == JavaType::Automatic && !java_present ==> r == Some(Missing::Java(required)),
        missing@.len() == 0 && (*java_type != JavaType::Automatic || java_present) ==> r is None,
{
    if missing.len() > 0 {
        Some(Missing::VersionFiles(missing))
    } else {
        match java_type {
            JavaType::Automatic => if !java_present {
                Some(Missing::Java(required))
            } else {
                None
            },
            _ => None,
        }
    }
}

/// The game command for a set of game settings (see `launch_spec`).
pub fn launch_command_for(settings: &GameSettings, mc_dir: &str, os: &str, p: &Json, vjson: &Json) -> (r: (String, Vec<String>))
    requires
        launch_ok(settings.game_version@, mc_dir@, os@, *p, *vjson),
    ensures
        r.0@ == launch_spec(settings.account, settings.game_version@, settings.game_directory@, settings.java_type, settings.jvm@,
            text::string_views(settings.jvmargs@), text::string_views(settings.game_wrapper_commands@), settings.xmx@, mc_dir@, os@, *p, *vjson).0,
        text::string_views(r.1@) == launch_spec(settings.account, settings.game_version@, settings.game_directory@, settings.java_type, settings.jvm@,
            text::string_views(settings.jvmargs@), text::string_views(settings.game_wrapper_commands@), settings.xmx@, mc_dir@, os@, *p, *vjson).1,
{
    launch_command(
        &settings.account,
        settings.game_version.as_str(),
        settings.game_directory.as_str(),
        &settings.java_type,
        settings.jvm.as_str(),
        &settings.jvmargs,
        &settings.game_wrapper_commands,
        settings.xmx.as_str(),
        mc_dir,
        os,
        p,
        vjson,
    )
}

fn library_ok_of(lib: &Json, os: &str) -> (r: bool)
    ensures
        r == library_ok(*lib, os@),
{
    let rule = lib.get("rules").at(0).get("os").get("name");
    if !(rule.is_text(os) || rule.is_null()) {
        return true;
    }
    match lib.get("name").as_str() {
        None => false,
        Some(name) => {
            let nv = text::chars_of(name.as_str());
            let kind = crate::downloader::library_kind_of(lib, &nv, os);
            let is_old = match kind {
                LibraryKind::Old => true,
                _ => false,
            };
            let twitch = text::chars_of("tv.twitch:twitch-platform:6.5");
            (is_old && text::chars_eq(&nv, &twitch)) || crate::downloader::library_relative_of(&nv, &kind, os).is_some()
        },
    }
}

proof fn lemma_classpath_not_ok(p: Json, os: Seq<char>, libs: Seq<Json>, i: int)
    requires
        crate::json::as_array(get(p, "libraries"@)) == Some(libs),
        0 <= i < libs.len(),
        !library_ok(libs[i], os),
    ensures
        !classpath_ok(p, os),
{
    if classpath_ok(p, os) {
        match crate::json::as_array(get(p, "libraries"@)) {
            Some(l) => {
                assert(l == libs);
                assert(forall|j: int| 0 <= j < l.len() ==> library_ok(#[trigger] l[j], os));
                assert(library_ok(l[i], os));
            },
            None => {},
        }
    }
}

fn classpath_ok_of(p: &Json, os: &str) -> (r: bool)
    ensures
        r == classpath_ok(*p, os@),
{
    match p.get("libraries").as_array() {
        None => true,
        Some(libs) => {
            let mut i: usize = 0;
            while i < libs.len()
                invariant
                    i <= libs.len(),
                    crate::json::as_array(get(*p, "libraries"@)) == Some(libs@),
                    forall|j: int| 0 <= j < i ==> library_ok(#[trigger] libs@[j], os@),
                decreases libs.len() - i,
            {
                if !library_ok_of(&libs[i], os) {
                    proof {
                        lemma_classpath_not_ok(*p, os@, libs@, i as int);
                    }
                    return false;
                }
                i += 1;
            }
            true
        },
    }
}

fn jvm_args_ok_of(p: &Json, nativedir: &str, mc_dir: &str, os: &str) -> (r: bool)
    requires
        supported_os(os@),
    ensures
        r == jvm_args_ok(*p, nativedir@, mc_dir@, os@),
{
    proof {
        reveal_strlit("${natives_directory}");
        reveal_strlit("${library_directory}");
        reveal_strlit("${classpath_separator}");
        reveal_strlit("${version_name}");
    }
    match p.get("arguments").get("jvm").as_array() {
        None => true,
        Some(list) => {
            if p.get("id").as_str().is_some() {
                return true;
            }
            let nd = text::chars_of(nativedir);
            let mut ld = text::chars_of(mc_dir);
            text::push_str(&mut ld, "/libraries");
            let mut sep: Vec<char> = Vec::new();
            sep.push(classpath_separator(os));
            assert(sep@ =~= seq![separator_spec(os@)]);
            let needle = text::chars_of("${version_name}");
            let mut i: usize = 0;
            while i < list.len()
                invariant
                    i <= list.len(),
                    crate::json::as_array(get(get(*p, "arguments"@), "jvm"@)) == Some(list@),
                    as_str(get(*p, "id"@)) is None,
                    supported_os(os@),
                    nd@ == nativedir@,
                    ld@ == jvm_lib_dir(mc_dir@),
                    sep@ == seq![separator_spec(os@)],
                    needle@ == "${version_name}"@,
                    "${natives_directory}"@.len() > 0,
                    "${library_directory}"@.len() > 0,
                    "${classpath_separator}"@.len() > 0,
                    forall|j: int| 0 <= j < i ==> match as_str(#[trigger] list@[j]) {
                        Some(v) => !jvm_arg_needs_id(v, nativedir@, jvm_lib_dir(mc_dir@), seq![separator_spec(os@)]),
                        None => true,
                    },
                decreases list.len() - i,
            {
                match list[i].as_str() {
                    Some(v) => {
                        let c = text::chars_of(v.as_str());
                        let v1 = replace_lit(&c, "${natives_directory}", &nd);
                        let v2 = replace_lit(&v1, "${library_directory}", &ld);
                        let v3 = replace_lit(&v2, "${classpath_separator}", &sep);
                        if text::chars_contains(&v3, &needle) {
                            assert(as_str(list@[i as int]) == Some(v@));
                            return false;
                        }
                    },
                    None => {},
                }
                i += 1;
            }
            true
        },
    }
}

/// Whether a version json (and, for modded versions, the vanilla json it
/// inherits from) holds what the game command needs (see `launch_ok`).
pub fn launch_ok_of(game_version: &str, mc_dir: &str, os: &str, p: &Json, vjson: &Json) -> (r: bool)
    ensures
        r == launch_ok(game_version@, mc_dir@, os@, *p, *vjson),
{
    if !(text::str_eq(os, "linux") || text::str_eq(os, "windows")) {
        return false;
    }
    if p.get("mainClass").as_str().is_none() || !classpath_ok_of(p, os) {
        return false;
    }
    let mut nd = text::chars_of(mc_dir);
    text::push_str(&mut nd, "/versions/");
    text::push_str(&mut nd, game_version);
    text::push_str(&mut nd, "/natives");
    let native_dir = text::string_of(&nd);
    if !jvm_args_ok_of(p, native_dir.as_str(), mc_dir, os) {
        return false;
    }
    if is_modded(game_version, p) {
        p.get("inheritsFrom").as_str().is_some() && vjson.get("assets").as_str().is_some()
            && jvm_args_ok_of(vjson, native_dir.as_str(), mc_dir, os) && classpath_ok_of(vjson, os)
    } else {
        true
    }
}

/// The game command for a set of game settings when the version files
/// allow one (see `launch_ok` and `launch_spec`); `None` otherwise.
pub fn game_command(settings: &GameSettings, mc_dir: &str, os: &str, p: &Json, vjson: &Json) -> (r: Option<(String, Vec<String>)>)
    ensures
        match r {
            Some((prog, args)) => launch_ok(settings.game_version@, mc_dir@, os@, *p, *vjson)
                && prog@ == launch_spec(settings.account, settings.game_version@, settings.game_directory@, settings.java_type, settings.jvm@,
                    text::string_views(settings.jvmargs@), text::string_views(settings.game_wrapper_commands@), settings.xmx@, mc_dir@, os@, *p, *vjson).0
                && text::string_views(args@) == launch_spec(settings.account, settings.game_version@, settings.game_directory@, settings.java_type, settings.jvm@,
                    text::string_views(settings.jvmargs@), text::string_views(settings.game_wrapper_commands@), settings.xmx@, mc_dir@, os@, *p, *vjson).1,
            None => !launch_ok(settings.game_version@, mc_dir@, os@, *p, *vjson),
        },
{
    if launch_ok_of(settings.game_version.as_str(), mc_dir, os, p, vjson) {
        Some(launch_command_for(settings, mc_dir, os, p, vjson))
    } else {
        None
    }
}

} // verus!

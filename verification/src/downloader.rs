//! What has to be downloaded for a Minecraft version: libraries from the
//! version profile, assets from the asset index, NeoForge and Temurin
//! locations, and the version lists published by Mojang, Fabric and
//! NeoForge.
use vstd::prelude::*;
use crate::json::{Json, get, at, as_str, as_array, as_object, is_null, is_text, is_str};
use crate::text;
use crate::text::{join, replace_char, split, contains_sub, views};

verus! {

/// Which kind of version is installed.
#[derive(Debug, Clone, PartialEq, Eq, Hash)]
pub enum VersionType {
    Vanilla,
    Fabric { loader: String },
}

/// Launcher-managed Temurin JRE identified by Java major version.
#[derive(Clone, Copy, Debug, PartialEq, Eq, Hash)]
pub struct Java(pub u64);

/// One file to fetch: where it goes and where it comes from.
#[derive(Clone, Debug, PartialEq, Eq, Hash)]
pub struct Download {
    pub path: String,
    pub url: String,
}

impl View for Download {
    type V = (Seq<char>, Seq<char>);

    open spec fn view(&self) -> (Seq<char>, Seq<char>) {
        (self.path@, self.url@)
    }
}

pub open spec fn download_views(v: Seq<Download>) -> Seq<(Seq<char>, Seq<char>)> {
    v.map_values(|d: Download| d@)
}

/// `value.as_str().unwrap_or(default)`.
pub open spec fn str_or(j: Json, d: Seq<char>) -> Seq<char> {
    match as_str(j) {
        Some(s) => s,
        None => d,
    }
}

// ---------------------------------------------------------------------
// NeoForge
// ---------------------------------------------------------------------

pub open spec fn neoforge_installer_url_spec(v: Seq<char>) -> Seq<char> {
    "https://maven.neoforged.net/releases/net/neoforged/neoforge/"@ + v + "/neoforge-"@ + v
        + "-installer.jar"@
}

/// Stable URL of a NeoForge installer jar on the NeoForged Maven.
pub fn neoforge_installer_url(neoforge_version: &str) -> (r: String)
    ensures
        r@ == neoforge_installer_url_spec(neoforge_version@),
{
    let mut out: Vec<char> = Vec::new();
    text::push_str(&mut out, "https://maven.neoforged.net/releases/net/neoforged/neoforge/");
    text::push_str(&mut out, neoforge_version);
    text::push_str(&mut out, "/neoforge-");
    text::push_str(&mut out, neoforge_version);
    text::push_str(&mut out, "-installer.jar");
    text::string_of(&out)
}

pub open spec fn all_numeric(parts: Seq<Seq<char>>) -> bool {
    forall|i: int| 0 <= i < parts.len() ==> text::parse_u64_spec(#[trigger] parts[i]) is Some
}

/// Minecraft version of a NeoForge version: the part before any `-`,
/// split on `.`, every piece a number. Four pieces (new scheme) give
/// `a.b` when the third is `0`, else `a.b.c`; three pieces (old scheme)
/// give `1.b.c` when the first is `1`, else `1.a.b`.
pub open spec fn neoforge_mc_spec(version: Seq<char>) -> Option<Seq<char>> {
    let core = split(version, seq!['-'])[0];
    let p = split(core, seq!['.']);
    if !all_numeric(p) {
        None
    } else if p.len() == 4 {
        if p[2] == seq!['0'] {
            Some(p[0] + "."@ + p[1])
        } else {
            Some(p[0] + "."@ + p[1] + "."@ + p[2])
        }
    } else if p.len() == 3 {
        if p[0] == seq!['1'] {
            Some("1."@ + p[1] + "."@ + p[2])
        } else {
            Some("1."@ + p[0] + "."@ + p[1])
        }
    } else {
        None
    }
}

/// Map a NeoForge version to its Minecraft version.
/// Old scheme: `20.2.59` -> `1.20.2`, `21.1.213` -> `1.21.1`.
/// New scheme: `26.1.0.5-beta` -> `26.1` (zero placeholder),
/// `26.1.1.7` -> `26.1.1`.
pub fn neoforge_mc_of_version(version: &str) -> (r: Option<String>)
    ensures
        match r {
            Some(s) => neoforge_mc_spec(version@) == Some(s@),
            None => neoforge_mc_spec(version@) is None,
        },
{
    let v = text::chars_of(version);
    let dash = vec!['-'];
    let dot = vec!['.'];
    let pieces = text::chars_split(&v, &dash);
    proof {
        text::lemma_split_nonempty(v@, dash@);
        assert(dash@ =~= seq!['-']);
        assert(dot@ =~= seq!['.']);
    }
    let core = &pieces[0];
    assert(core@ == split(version@, seq!['-'])[0]);
    let parts = text::chars_split(core, &dot);
    let ghost p = split(core@, seq!['.']);
    let mut i: usize = 0;
    while i < parts.len()
        invariant
            i <= parts.len(),
            p == split(split(version@, seq!['-'])[0], seq!['.']),
            parts@.len() == p.len(),
            forall|k: int| 0 <= k < parts@.len() ==> #[trigger] parts@[k]@ == p[k],
            forall|k: int| 0 <= k < i ==> text::parse_u64_spec(#[trigger] p[k]) is Some,
        decreases parts.len() - i,
    {
        if text::parse_u64(&parts[i]).is_none() {
            assert(!all_numeric(p));
            return None;
        }
        i += 1;
    }
    assert(all_numeric(p));
    let zero = vec!['0'];
    let one = vec!['1'];
    assert(zero@ =~= seq!['0']);
    assert(one@ =~= seq!['1']);
    let mut out: Vec<char> = Vec::new();
    if parts.len() == 4 {
        if text::chars_eq(&parts[2], &zero) {
            text::push_chars(&mut out, &parts[0]);
            text::push_str(&mut out, ".");
            text::push_chars(&mut out, &parts[1]);
        } else {
            text::push_chars(&mut out, &parts[0]);
            text::push_str(&mut out, ".");
            text::push_chars(&mut out, &parts[1]);
            text::push_str(&mut out, ".");
            text::push_chars(&mut out, &parts[2]);
        }
        Some(text::string_of(&out))
    } else if parts.len() == 3 {
        text::push_str(&mut out, "1.");
        if text::chars_eq(&parts[0], &one) {
            text::push_chars(&mut out, &parts[1]);
            text::push_str(&mut out, ".");
            text::push_chars(&mut out, &parts[2]);
        } else {
            text::push_chars(&mut out, &parts[0]);
            text::push_str(&mut out, ".");
            text::push_chars(&mut out, &parts[1]);
        }
        Some(text::string_of(&out))
    } else {
        None
    }
}

// ---------------------------------------------------------------------
// Libraries
// ---------------------------------------------------------------------

pub open spec fn library_url_spec(unmodified: Seq<char>, lib: Seq<char>) -> Seq<char> {
    if text::ends_with(unmodified, "/"@) {
        unmodified + lib
    } else if unmodified.len() == 0 {
        "https://libraries.minecraft.net/"@ + lib
    } else {
        unmodified
    }
}

/// Download URL of a library: a base URL ending in `/` gets the
/// relative path appended, no URL means the Mojang library server,
/// anything else is used as it is.
pub fn get_library_url(unmodifiedurl: &str, lib: &str) -> (r: String)
    ensures
        r@ == library_url_spec(unmodifiedurl@, lib@),
{
    let u = text::chars_of(unmodifiedurl);
    let slash = text::chars_of("/");
    if text::chars_ends_with(&u, &slash) {
        let mut out = u;
        text::push_str(&mut out, lib);
        text::string_of(&out)
    } else if u.len() == 0 {
        let mut out: Vec<char> = Vec::new();
        text::push_str(&mut out, "https://libraries.minecraft.net/");
        text::push_str(&mut out, lib);
        text::string_of(&out)
    } else {
        unmodifiedurl.to_string()
    }
}

/// `downloads.artifact.path` of a library entry, when it names one.
pub open spec fn artifact_path_spec(library: Json, lib_dir: Seq<char>, computed: Seq<char>) -> Seq<
    char,
> {
    match as_str(get(get(get(library, "downloads"@), "artifact"@), "path"@)) {
        Some(p) => lib_dir + p,
        None => lib_dir + computed,
    }
}

/// Absolute library path, preferring the exact `downloads.artifact.path`
/// from the version json over the path computed from the coordinates.
pub fn artifact_path(library: &Json, lib_dir: &str, computed_relative: &str) -> (r: String)
    ensures
        r@ == artifact_path_spec(*library, lib_dir@, computed_relative@),
{
    let mut out = text::chars_of(lib_dir);
    match library.get("downloads").get("artifact").get("path").as_str() {
        Some(p) => text::push_str(&mut out, p.as_str()),
        None => text::push_str(&mut out, computed_relative),
    }
    text::string_of(&out)
}

/// Whether the first rule of a library names this operating system (or
/// names none).
pub open spec fn library_applies(lib: Json, os: Seq<char>) -> bool {
    let n = get(get(at(get(lib, "rules"@), 0), "os"@), "name"@);
    is_text(n, os) || is_null(n)
}

pub enum LibraryKind {
    Natives,
    Normal,
    Old,
}

pub open spec fn library_kind(lib: Json, name: Seq<char>, os: Seq<char>) -> LibraryKind {
    if contains_sub(name, "natives-"@ + os) {
        LibraryKind::Natives
    } else if is_null(get(get(lib, "natives"@), os)) {
        LibraryKind::Normal
    } else {
        LibraryKind::Old
    }
}

/// URL written in the library entry: `downloads.artifact.url`, else `url`.
pub open spec fn declared_url(lib: Json) -> Seq<char> {
    let a = get(get(get(lib, "downloads"@), "artifact"@), "url"@);
    if !is_null(a) {
        str_or(a, ""@)
    } else if !is_null(get(lib, "url"@)) {
        str_or(get(lib, "url"@), ""@)
    } else {
        ""@
    }
}

pub open spec fn classifier(lib: Json, name: Seq<char>) -> Json {
    get(get(get(lib, "downloads"@), "classifiers"@), name)
}

/// URL of an old-style natives library: the declared URL, else the
/// classifier for this OS (or its `-64` variant).
pub open spec fn old_natives_url(lib: Json, os: Seq<char>) -> Seq<char> {
    let a = get(get(get(lib, "downloads"@), "artifact"@), "url"@);
    let c = get(classifier(lib, "natives-"@ + os), "url"@);
    let c64 = get(classifier(lib, "natives-"@ + os + "-64"@), "url"@);
    if !is_null(a) {
        str_or(a, ""@)
    } else if !is_null(get(lib, "url"@)) {
        str_or(get(lib, "url"@), ""@)
    } else if !is_null(c) || is_str(c64) {
        if !is_null(c) {
            str_or(c, ""@)
        } else {
            str_or(c64, ""@)
        }
    } else {
        ""@
    }
}

/// Maven-style relative path of a library from its `group:artifact:version`
/// coordinates; `None` when there are too few coordinates.
pub open spec fn library_relative(name: Seq<char>, kind: LibraryKind, os: Seq<char>) -> Option<
    Seq<char>,
> {
    let ps = split(name, seq![':']);
    let first = replace_char(ps[0], '.', '/');
    let lp = ps.drop_first();
    if lp.len() < 2 {
        None
    } else {
        match kind {
            LibraryKind::Natives => {
                let last = lp.last();
                let l = lp.drop_last();
                if l.len() < 2 {
                    None
                } else {
                    Some(
                        first + "/"@ + join(l, "/"@) + "/"@ + l[l.len() - 2] + "-"@ + l[l.len()
                            - 1] + "-"@ + last + ".jar"@,
                    )
                }
            },
            LibraryKind::Normal => Some(
                first + "/"@ + join(lp, "/"@) + "/"@ + lp[lp.len() - 2] + "-"@ + lp[lp.len()
                    - 1] + ".jar"@,
            ),
            LibraryKind::Old => Some(
                first + "/"@ + join(lp, "/"@) + "/"@ + lp[lp.len() - 2] + "-"@ + lp[lp.len()
                    - 1] + "-natives-"@ + os + ".jar"@,
            ),
        }
    }
}

proof fn lemma_split_coordinates(ps: Seq<Seq<char>>)
    requires
        ps.len() >= 1,
        forall|k: int| 0 <= k < ps.len() ==> text::free_of(#[trigger] ps[k], seq![':']),
    ensures
        split(join(ps, seq![':']), seq![':']) == ps,
{
    text::lemma_split_join(ps, ':');
}

/// Where a library of Maven coordinates `group:artifact:version` (and,
/// for a natives jar, `:classifier`) is stored under the libraries
/// folder: the group with its dots as folders, then the artifact and the
/// version folders, then `artifact-version.jar`; an old-style natives
/// library (`natives` entry for the system) gets
/// `artifact-version-natives-<os>.jar`, and a natives library
/// `artifact-version-classifier.jar`.
pub proof fn law_library_paths(g: Seq<char>, a: Seq<char>, v: Seq<char>, c: Seq<char>, os: Seq<char>)
    requires
        text::free_of(g, seq![':']),
        text::free_of(a, seq![':']),
        text::free_of(v, seq![':']),
        text::free_of(c, seq![':']),
    ensures
        library_relative(g + ":"@ + a + ":"@ + v, LibraryKind::Normal, os)
            == Some(replace_char(g, '.', '/') + "/"@ + a + "/"@ + v + "/"@ + a + "-"@ + v + ".jar"@),
        library_relative(g + ":"@ + a + ":"@ + v, LibraryKind::Old, os)
            == Some(replace_char(g, '.', '/') + "/"@ + a + "/"@ + v + "/"@ + a + "-"@ + v + "-natives-"@ + os + ".jar"@),
        library_relative(g + ":"@ + a + ":"@ + v + ":"@ + c, LibraryKind::Natives, os)
            == Some(replace_char(g, '.', '/') + "/"@ + a + "/"@ + v + "/"@ + a + "-"@ + v + "-"@ + c + ".jar"@),
{
    reveal_strlit(":");
    reveal_strlit("/");
    let colon = seq![':'];
    assert(":"@ =~= colon);
    let three = seq![g, a, v];
    let four = seq![g, a, v, c];
    assert(three.drop_last() =~= seq![g, a]);
    assert(seq![g, a].drop_last() =~= seq![g]);
    assert(four.drop_last() =~= three);
    assert(join(seq![g], colon) == g);
    assert(join(seq![g, a], colon) == join(seq![g], colon) + colon + a);
    assert(join(three, colon) == join(seq![g, a], colon) + colon + v);
    assert(join(four, colon) == join(three, colon) + colon + c);
    assert(join(three, colon) == g + ":"@ + a + ":"@ + v);
    assert(join(four, colon) == g + ":"@ + a + ":"@ + v + ":"@ + c);
    lemma_split_coordinates(three);
    lemma_split_coordinates(four);
    let av = seq![a, v];
    assert(three.drop_first() =~= av);
    assert(four.drop_first() =~= seq![a, v, c]);
    assert(seq![a, v, c].drop_last() =~= av);
    assert(av.drop_last() =~= seq![a]);
    assert(join(seq![a], "/"@) == a);
    assert(join(av, "/"@) == join(seq![a], "/"@) + "/"@ + v);
    assert(av[av.len() - 2] == a && av[av.len() - 1] == v);
    assert(seq![a, v, c].last() == c);
}

/// Downloads contributed by one library entry.
pub open spec fn library_downloads(lib: Json, mc_dir: Seq<char>, folder: Seq<char>, os: Seq<
    char,
>) -> Result<Seq<(Seq<char>, Seq<char>)>, Seq<char>> {
    let lib_dir = mc_dir + "/libraries/"@;
    let main: Result<Seq<(Seq<char>, Seq<char>)>, Seq<char>> = if library_applies(lib, os) {
        match as_str(get(lib, "name"@)) {
            None => Err("Library without a name."@),
            Some(name) => {
                let kind = library_kind(lib, name, os);
                match library_relative(name, kind, os) {
                    None => Err("Bad library coordinates: "@ + name),
                    Some(rel) => {
                        let url = match kind {
                            LibraryKind::Old => old_natives_url(lib, os),
                            _ => declared_url(lib),
                        };
                        Ok(
                            seq![
                                (artifact_path_spec(lib, lib_dir, rel), library_url_spec(url, rel)),
                            ],
                        )
                    },
                }
            },
        }
    } else {
        Ok(Seq::empty())
    };
    match main {
        Err(e) => Err(e),
        Ok(m) => {
            let c = classifier(lib, "natives-"@ + os);
            if !is_null(c) {
                Ok(m.push((folder + "/natives/natives.jar"@, str_or(get(c, "url"@), ""@))))
            } else {
                Ok(m)
            }
        },
    }
}

/// Downloads of a whole library list, stopping at the first bad entry.
pub open spec fn libraries_downloads(libs: Seq<Json>, mc_dir: Seq<char>, folder: Seq<char>, os: Seq<
    char,
>) -> Result<Seq<(Seq<char>, Seq<char>)>, Seq<char>>
    decreases libs.len(),
{
    if libs.len() == 0 {
        Ok(Seq::empty())
    } else {
        match libraries_downloads(libs.drop_last(), mc_dir, folder, os) {
            Err(e) => Err(e),
            Ok(acc) => match library_downloads(libs.last(), mc_dir, folder, os) {
                Err(e) => Err(e),
                Ok(d) => Ok(acc + d),
            },
        }
    }
}

fn json_str_or(j: &Json, d: &str) -> (r: String)
    ensures
        r@ == str_or(*j, d@),
{
    j.str_or(d)
}

fn declared_url_of(lib: &Json) -> (r: String)
    ensures
        r@ == declared_url(*lib),
{
    let a = lib.get("downloads").get("artifact").get("url");
    if !a.is_null() {
        json_str_or(a, "")
    } else if !lib.get("url").is_null() {
        json_str_or(lib.get("url"), "")
    } else {
        "".to_string()
    }
}

fn old_natives_url_of(lib: &Json, os: &str) -> (r: String)
    ensures
        r@ == old_natives_url(*lib, os@),
{
    let mut n: Vec<char> = Vec::new();
    text::push_str(&mut n, "natives-");
    text::push_str(&mut n, os);
    let name = text::string_of(&n);
    text::push_str(&mut n, "-64");
    let name64 = text::string_of(&n);
    let a = lib.get("downloads").get("artifact").get("url");
    let c = lib.get("downloads").get("classifiers").get(name.as_str()).get("url");
    let c64 = lib.get("downloads").get("classifiers").get(name64.as_str()).get("url");
    if !a.is_null() {
        json_str_or(a, "")
    } else if !lib.get("url").is_null() {
        json_str_or(lib.get("url"), "")
    } else if !c.is_null() || c64.is_str() {
        if !c.is_null() {
            json_str_or(c, "")
        } else {
            json_str_or(c64, "")
        }
    } else {
        "".to_string()
    }
}

/// Kind of a library entry (see `library_kind`).
pub fn library_kind_of(lib: &Json, name: &Vec<char>, os: &str) -> (r: LibraryKind)
    ensures
        r == library_kind(*lib, name@, os@),
{
    let mut n: Vec<char> = Vec::new();
    text::push_str(&mut n, "natives-");
    text::push_str(&mut n, os);
    if text::chars_contains(name, &n) {
        LibraryKind::Natives
    } else if lib.get("natives").get(os).is_null() {
        LibraryKind::Normal
    } else {
        LibraryKind::Old
    }
}

/// Relative path of a library (see `library_relative`).
pub fn library_relative_of(name: &Vec<char>, kind: &LibraryKind, os: &str) -> (r: Option<Vec<char>>)
    ensures
        match r {
            Some(v) => library_relative(name@, *kind, os@) == Some(v@),
            None => library_relative(name@, *kind, os@) is None,
        },
{
    let colon = vec![':'];
    assert(colon@ =~= seq![':']);
    let ps = text::chars_split(name, &colon);
    proof {
        text::lemma_split_nonempty(name@, colon@);
    }
    let ghost sp = split(name@, seq![':']);
    let first = text::chars_replace(&ps[0], '.', '/');
    let mut lp: Vec<Vec<char>> = Vec::new();
    let mut i: usize = 1;
    while i < ps.len()
        invariant
            1 <= i <= ps.len(),
            ps@.len() == sp.len(),
            forall|k: int| 0 <= k < ps@.len() ==> #[trigger] ps@[k]@ == sp[k],
            views(lp@) == sp.subrange(1, i as int),
        decreases ps.len() - i,
    {
        let piece = text::chars_copy(&ps[i]);
        assert(piece@ == sp[i as int]);
        let ghost old_lp = lp@;
        lp.push(piece);
        assert(lp@ == old_lp.push(piece));
        assert(views(lp@) =~= views(old_lp).push(piece@));
        i += 1;
        assert(views(lp@) =~= sp.subrange(1, i as int));
    }
    assert(views(lp@) =~= sp.drop_first());
    if lp.len() < 2 {
        return None;
    }
    let mut out = first;
    match kind {
        LibraryKind::Natives => {
            let last = lp.pop().unwrap();
            assert(views(lp@) =~= sp.drop_first().drop_last());
            if lp.len() < 2 {
                return None;
            }
            let n = lp.len();
            text::push_str(&mut out, "/");
            let j = text::join_chars(&lp, "/");
            text::push_chars(&mut out, &j);
            text::push_str(&mut out, "/");
            text::push_chars(&mut out, &lp[n - 2]);
            text::push_str(&mut out, "-");
            text::push_chars(&mut out, &lp[n - 1]);
            text::push_str(&mut out, "-");
            text::push_chars(&mut out, &last);
            text::push_str(&mut out, ".jar");
        },
        LibraryKind::Normal => {
            let n = lp.len();
            text::push_str(&mut out, "/");
            let j = text::join_chars(&lp, "/");
            text::push_chars(&mut out, &j);
            text::push_str(&mut out, "/");
            text::push_chars(&mut out, &lp[n - 2]);
            text::push_str(&mut out, "-");
            text::push_chars(&mut out, &lp[n - 1]);
            text::push_str(&mut out, ".jar");
        },
        LibraryKind::Old => {
            let n = lp.len();
            text::push_str(&mut out, "/");
            let j = text::join_chars(&lp, "/");
            text::push_chars(&mut out, &j);
            text::push_str(&mut out, "/");
            text::push_chars(&mut out, &lp[n - 2]);
            text::push_str(&mut out, "-");
            text::push_chars(&mut out, &lp[n - 1]);
            text::push_str(&mut out, "-natives-");
            text::push_str(&mut out, os);
            text::push_str(&mut out, ".jar");
        },
    }
    Some(out)
}

/// Downloads of one library entry (see `library_downloads`).
pub fn library_downloads_of(library: &Json, mc_dir: &str, folder: &str, os: &str) -> (r: Result<
    Vec<Download>,
    String,
>)
    ensures
        match r {
            Ok(v) => library_downloads(*library, mc_dir@, folder@, os@) == Ok::<
                Seq<(Seq<char>, Seq<char>)>,
                Seq<char>,
            >(download_views(v@)),
            Err(e) => library_downloads(*library, mc_dir@, folder@, os@) == Err::<
                Seq<(Seq<char>, Seq<char>)>,
                Seq<char>,
            >(e@),
        },
{
    let mut out: Vec<Download> = Vec::new();
    let rule = library.get("rules").at(0).get("os").get("name");
    if rule.is_text(os) || rule.is_null() {
        let name = match library.get("name").as_str() {
            Some(n) => n,
            None => {
                return Err("Library without a name.".to_string());
            },
        };
        let nv = text::chars_of(name.as_str());
        let kind = library_kind_of(library, &nv, os);
        let rel = match library_relative_of(&nv, &kind, os) {
            Some(r) => r,
            None => {
                let mut e: Vec<char> = Vec::new();
                text::push_str(&mut e, "Bad library coordinates: ");
                text::push_chars(&mut e, &nv);
                return Err(text::string_of(&e));
            },
        };
        let rel_s = text::string_of(&rel);
        let mut lib_dir = text::chars_of(mc_dir);
        text::push_str(&mut lib_dir, "/libraries/");
        let lib_dir_s = text::string_of(&lib_dir);
        let path = artifact_path(library, lib_dir_s.as_str(), rel_s.as_str());
        let unmodified = match kind {
            LibraryKind::Old => old_natives_url_of(library, os),
            _ => declared_url_of(library),
        };
        let url = get_library_url(unmodified.as_str(), rel_s.as_str());
        out.push(Download { path, url });
        assert(download_views(out@) =~= seq![(path@, url@)]);
    } else {
        assert(download_views(out@) =~= Seq::<(Seq<char>, Seq<char>)>::empty());
    }
    let ghost main = download_views(out@);
    let mut n: Vec<char> = Vec::new();
    text::push_str(&mut n, "natives-");
    text::push_str(&mut n, os);
    let nname = text::string_of(&n);
    let c = library.get("downloads").get("classifiers").get(nname.as_str());
    if !c.is_null() {
        let url = json_str_or(c.get("url"), "");
        let mut p = text::chars_of(folder);
        text::push_str(&mut p, "/natives/natives.jar");
        let path = text::string_of(&p);
        out.push(Download { path, url });
        assert(download_views(out@) =~= main.push((path@, url@)));
    }
    Ok(out)
}

/// Everything to download for the `libraries` list of a version profile,
/// in list order. `mc_dir` is the Minecraft folder, `foldertosave` the
/// version folder (natives archives go to its `natives` folder).
pub fn get_libraries(mc_dir: &str, libraries: &Vec<Json>, foldertosave: &str, os: &str) -> (r:
    Result<Vec<Download>, String>)
    ensures
        match r {
            Ok(v) => libraries_downloads(libraries@, mc_dir@, foldertosave@, os@) == Ok::<
                Seq<(Seq<char>, Seq<char>)>,
                Seq<char>,
            >(download_views(v@)),
            Err(e) => libraries_downloads(libraries@, mc_dir@, foldertosave@, os@) == Err::<
                Seq<(Seq<char>, Seq<char>)>,
                Seq<char>,
            >(e@),
        },
{
    let mut out: Vec<Download> = Vec::new();
    let mut i: usize = 0;
    assert(libraries@.take(0) =~= Seq::<Json>::empty());
    assert(download_views(out@) =~= Seq::<(Seq<char>, Seq<char>)>::empty());
    while i < libraries.len()
        invariant
            i <= libraries.len(),
            libraries_downloads(libraries@.take(i as int), mc_dir@, foldertosave@, os@) == Ok::<
                Seq<(Seq<char>, Seq<char>)>,
                Seq<char>,
            >(download_views(out@)),
        decreases libraries.len() - i,
    {
        proof {
            assert(libraries@.take(i + 1).drop_last() =~= libraries@.take(i as int));
            assert(libraries@.take(i + 1).last() == libraries@[i as int]);
        }
        match library_downloads_of(&libraries[i], mc_dir, foldertosave, os) {
            Err(e) => {
                proof {
                    lemma_libraries_error_sticks(libraries@, mc_dir@, foldertosave@, os@, i + 1, e@);
                }
                return Err(e);
            },
            Ok(d) => {
                let ghost before = download_views(out@);
                let mut j: usize = 0;
                let mut d = d;
                while j < d.len()
                    invariant
                        j <= d.len(),
                        download_views(out@) == before + download_views(d@).take(j as int),
                    decreases d.len() - j,
                {
                    let x = Download { path: d[j].path.clone(), url: d[j].url.clone() };
                    assert(x@ == d@[j as int]@);
                    let ghost old_out = out@;
                    out.push(x);
                    assert(download_views(out@) =~= download_views(old_out).push(x@));
                    assert(download_views(d@).take(j + 1) =~= download_views(d@).take(
                        j as int,
                    ).push(d@[j as int]@));
                    j += 1;
                    assert(download_views(out@) =~= before + download_views(d@).take(j as int));
                }
                assert(download_views(d@).take(d.len() as int) =~= download_views(d@));
            },
        }
        i += 1;
    }
    assert(libraries@.take(libraries.len() as int) =~= libraries@);
    Ok(out)
}

/// Once a prefix of the list fails, the whole list fails the same way.
pub proof fn lemma_libraries_error_sticks(
    libs: Seq<Json>,
    mc_dir: Seq<char>,
    folder: Seq<char>,
    os: Seq<char>,
    k: int,
    e: Seq<char>,
)
    requires
        0 <= k <= libs.len(),
        libraries_downloads(libs.take(k), mc_dir, folder, os) == Err::<
            Seq<(Seq<char>, Seq<char>)>,
            Seq<char>,
        >(e),
    ensures
        libraries_downloads(libs, mc_dir, folder, os) == Err::<Seq<(Seq<char>, Seq<char>)>, Seq<
            char,
        >>(e),
    decreases libs.len() - k,
{
    if k < libs.len() {
        assert(libs.take(k + 1).drop_last() =~= libs.take(k));
        lemma_libraries_error_sticks(libs, mc_dir, folder, os, k + 1, e);
    } else {
        assert(libs.take(k) =~= libs);
    }
}

// ---------------------------------------------------------------------
// Assets
// ---------------------------------------------------------------------

/// Number of UTF-8 bytes of a character.
pub open spec fn utf8_len(c: char) -> int {
    if (c as int) < 0x80 {
        1
    } else if (c as int) < 0x800 {
        2
    } else if (c as int) < 0x10000 {
        3
    } else {
        4
    }
}

/// The first two bytes of the hash end on a character boundary.
pub open spec fn hash_prefix_ok(h: Seq<char>) -> bool {
    h.len() >= 1 && (utf8_len(h[0]) == 2 || (utf8_len(h[0]) == 1 && h.len() >= 2 && utf8_len(h[1])
        == 1))
}

/// The first two bytes of the hash, as characters.
pub open spec fn hash_prefix(h: Seq<char>) -> Seq<char> {
    if utf8_len(h[0]) == 2 {
        h.take(1)
    } else {
        h.take(2)
    }
}

pub open spec fn asset_url(hash: Seq<char>) -> Seq<char> {
    "https://resources.download.minecraft.net/"@ + hash_prefix(hash) + "/"@ + hash
}

/// Downloads for asset index entries that carry a `hash` string.
pub open spec fn assets_downloads(entries: Seq<(String, Json)>, mc_dir: Seq<char>, to_resources: bool) -> Seq<
    (Seq<char>, Seq<char>),
>
    decreases entries.len(),
{
    if entries.len() == 0 {
        Seq::empty()
    } else {
        let acc = assets_downloads(entries.drop_last(), mc_dir, to_resources);
        let key = entries.last().0@;
        match as_str(get(entries.last().1, "hash"@)) {
            None => acc,
            Some(hash) => if to_resources {
                acc.push((mc_dir + "/resources"@ + "/"@ + key, asset_url(hash)))
            } else {
                acc.push(
                    (
                        mc_dir + "/assets/objects/"@ + "/"@ + hash_prefix(hash) + "/"@ + hash,
                        asset_url(hash),
                    ),
                )
            },
        }
    }
}

pub open spec fn asset_hashes_ok(index: Json) -> bool {
    match as_object(get(index, "objects"@)) {
        Some(e) => forall|i: int|
            0 <= i < e.len() ==> match as_str(get(#[trigger] e[i].1, "hash"@)) {
                Some(h) => hash_prefix_ok(h),
                None => true,
            },
        None => true,
    }
}

pub open spec fn get_assets_spec(mc_dir: Seq<char>, index: Json) -> Seq<(Seq<char>, Seq<char>)> {
    match as_object(get(index, "objects"@)) {
        Some(e) => assets_downloads(e, mc_dir, !is_null(get(index, "map_to_resources"@))),
        None => Seq::empty(),
    }
}

fn char_utf8_len(c: char) -> (r: usize)
    ensures
        r == utf8_len(c),
{
    let n = c as u32;
    if n < 0x80 {
        1
    } else if n < 0x800 {
        2
    } else if n < 0x10000 {
        3
    } else {
        4
    }
}

/// Whether every asset hash can be cut after its first two bytes.
pub fn assets_well_formed(asset_index_json: &Json) -> (r: bool)
    ensures
        r == asset_hashes_ok(*asset_index_json),
{
    match asset_index_json.get("objects").as_object() {
        None => true,
        Some(e) => {
            let mut i: usize = 0;
            while i < e.len()
                invariant
                    i <= e.len(),
                    as_object(get(*asset_index_json, "objects"@)) == Some(e@),
                    forall|k: int|
                        0 <= k < i ==> match as_str(get(#[trigger] e@[k].1, "hash"@)) {
                            Some(h) => hash_prefix_ok(h),
                            None => true,
                        },
                decreases e.len() - i,
            {
                match e[i].1.get("hash").as_str() {
                    Some(h) => {
                        let hv = text::chars_of(h.as_str());
                        let ok = hv.len() >= 1 && (char_utf8_len(hv[0]) == 2 || (char_utf8_len(
                            hv[0],
                        ) == 1 && hv.len() >= 2 && char_utf8_len(hv[1]) == 1));
                        if !ok {
                            return false;
                        }
                    },
                    None => {},
                }
                i += 1;
            }
            true
        },
    }
}

fn prefix_of_hash(h: &Vec<char>) -> (r: Vec<char>)
    requires
        hash_prefix_ok(h@),
    ensures
        r@ == hash_prefix(h@),
{
    if char_utf8_len(h[0]) == 2 {
        text::sub_chars(h, 0, 1)
    } else {
        text::sub_chars(h, 0, 2)
    }
}

/// Everything to download for an asset index: each object with a hash,
/// stored by hash under `assets/objects`, or by name under `resources`
/// for indexes that ask `map_to_resources`.
pub fn get_assets(mc_dir: &str, asset_index_json: &Json) -> (r: Vec<Download>)
    requires
        asset_hashes_ok(*asset_index_json),
    ensures
        download_views(r@) == get_assets_spec(mc_dir@, *asset_index_json),
{
    let mut out: Vec<Download> = Vec::new();
    let save_to_resources = !asset_index_json.get("map_to_resources").is_null();
    match asset_index_json.get("objects").as_object() {
        None => {
            assert(download_views(out@) =~= Seq::<(Seq<char>, Seq<char>)>::empty());
            out
        },
        Some(e) => {
            let mut i: usize = 0;
            assert(e@.take(0) =~= Seq::<(String, Json)>::empty());
            assert(download_views(out@) =~= Seq::<(Seq<char>, Seq<char>)>::empty());
            while i < e.len()
                invariant
                    i <= e.len(),
                    as_object(get(*asset_index_json, "objects"@)) == Some(e@),
                    asset_hashes_ok(*asset_index_json),
                    download_views(out@) == assets_downloads(
                        e@.take(i as int),
                        mc_dir@,
                        save_to_resources,
                    ),
                decreases e.len() - i,
            {
                proof {
                    assert(e@.take(i + 1).drop_last() =~= e@.take(i as int));
                    assert(e@.take(i + 1).last() == e@[i as int]);
                }
                let ghost old_out = out@;
                match e[i].1.get("hash").as_str() {
                    Some(h) => {
                        let hv = text::chars_of(h.as_str());
                        let pre = prefix_of_hash(&hv);
                        let mut u: Vec<char> = Vec::new();
                        text::push_str(&mut u, "https://resources.download.minecraft.net/");
                        text::push_chars(&mut u, &pre);
                        text::push_str(&mut u, "/");
                        text::push_chars(&mut u, &hv);
                        let url = text::string_of(&u);
                        let mut p = text::chars_of(mc_dir);
                        if save_to_resources {
                            text::push_str(&mut p, "/resources");
                            text::push_str(&mut p, "/");
                            text::push_str(&mut p, e[i].0.as_str());
                        } else {
                            text::push_str(&mut p, "/assets/objects/");
                            text::push_str(&mut p, "/");
                            text::push_chars(&mut p, &pre);
                            text::push_str(&mut p, "/");
                            text::push_chars(&mut p, &hv);
                        }
                        let path = text::string_of(&p);
                        let d = Download { path, url };
                        out.push(d);
                        assert(download_views(out@) =~= download_views(old_out).push(d@));
                    },
                    None => {},
                }
                i += 1;
            }
            assert(e@.take(e.len() as int) =~= e@);
            out
        },
    }
}

// ---------------------------------------------------------------------
// Version lists
// ---------------------------------------------------------------------

/// Contents of the `<version>` elements of a Maven metadata file, in
/// document order, trimmed; reading stops at an unterminated element.
pub open spec fn metadata_versions(s: Seq<char>) -> Seq<Seq<char>>
    decreases s.len(),
{
    match text::find(s, "<version>"@) {
        None => Seq::empty(),
        Some(i) => if 0 <= i && i + 9 <= s.len() {
            let rest = s.skip(i + 9);
            match text::find(rest, "</version>"@) {
                None => Seq::empty(),
                Some(j) => if 0 <= j && j + 10 <= rest.len() {
                    seq![text::trim(rest.take(j))] + metadata_versions(rest.skip(j + 10))
                } else {
                    Seq::empty()
                },
            }
        } else {
            Seq::empty()
        },
    }
}

/// `(minecraft, neoforge)` pairs of the versions that map to a Minecraft
/// version, last listed first.
pub open spec fn neoforge_pairs(vs: Seq<Seq<char>>) -> Seq<(Seq<char>, Seq<char>)>
    decreases vs.len(),
{
    if vs.len() == 0 {
        Seq::empty()
    } else {
        let v = vs.last();
        let head = match neoforge_mc_spec(v) {
            Some(mc) => seq![(mc, v)],
            None => Seq::empty(),
        };
        head + neoforge_pairs(vs.drop_last())
    }
}

pub open spec fn neoforge_list_spec(xml: Seq<char>) -> Result<Seq<(Seq<char>, Seq<char>)>, Seq<char>> {
    let vs = metadata_versions(xml);
    if vs.len() == 0 {
        Err("NeoForge version list is empty. You can enter the version manually."@)
    } else {
        Ok(neoforge_pairs(vs))
    }
}

fn metadata_versions_of(s: &Vec<char>) -> (r: Vec<Vec<char>>)
    ensures
        views(r@) == metadata_versions(s@),
{
    let open_tag = text::chars_of("<version>");
    let close_tag = text::chars_of("</version>");
    assert(open_tag@.len() == 9) by {
        reveal_strlit("<version>");
    }
    assert(close_tag@.len() == 10) by {
        reveal_strlit("</version>");
    }
    let mut out: Vec<Vec<char>> = Vec::new();
    let mut rest = text::chars_copy(s);
    assert(views(out@) + metadata_versions(rest@) =~= metadata_versions(s@));
    loop
        invariant
            open_tag@ == "<version>"@,
            close_tag@ == "</version>"@,
            open_tag@.len() == 9,
            close_tag@.len() == 10,
            views(out@) + metadata_versions(rest@) == metadata_versions(s@),
        decreases rest@.len(),
    {
        proof {
            text::lemma_find_bounds(rest@, open_tag@, 0);
        }
        match text::chars_find_first(&rest, &open_tag) {
            None => {
                assert(metadata_versions(rest@) =~= Seq::<Seq<char>>::empty());
                assert(views(out@) =~= metadata_versions(s@));
                return out;
            },
            Some(i) => {
                assert(text::find(rest@, open_tag@) == Some(i as int));
                assert(i + 9 <= rest.len());
                let after = text::sub_chars(&rest, i + 9, rest.len());
                assert(after@ =~= rest@.skip(i + 9));
                proof {
                    text::lemma_find_bounds(after@, close_tag@, 0);
                }
                match text::chars_find_first(&after, &close_tag) {
                    None => {
                        assert(metadata_versions(rest@) =~= Seq::<Seq<char>>::empty());
                        assert(views(out@) =~= metadata_versions(s@));
                        return out;
                    },
                    Some(j) => {
                        assert(text::find(after@, close_tag@) == Some(j as int));
                        assert(j + 10 <= after.len());
                        let inner = text::sub_chars(&after, 0, j);
                        assert(inner@ =~= after@.take(j as int));
                        let t = text::chars_trim(&inner);
                        let next = text::sub_chars(&after, j + 10, after.len());
                        assert(next@ =~= after@.skip(j + 10));
                        let ghost old_out = out@;
                        out.push(t);
                        assert(views(out@) =~= views(old_out).push(t@));
                        assert(metadata_versions(rest@) == seq![t@] + metadata_versions(next@));
                        assert(views(out@) + metadata_versions(next@) =~= views(old_out) + (seq![
                            t@,
                        ] + metadata_versions(next@)));
                        rest = next;
                    },
                }
            },
        }
    }
}

/// NeoForge versions published in the NeoForged Maven metadata
/// (`maven-metadata.xml`): `(minecraft_version, neoforge_version)` pairs,
/// latest first; an error when the list holds no version.
pub fn get_neoforge_versions(metadata_xml: &str) -> (r: Result<Vec<(String, String)>, String>)
    ensures
        match r {
            Ok(v) => neoforge_list_spec(metadata_xml@) == Ok::<
                Seq<(Seq<char>, Seq<char>)>,
                Seq<char>,
            >(text::pair_views(v@)),
            Err(e) => neoforge_list_spec(metadata_xml@) == Err::<
                Seq<(Seq<char>, Seq<char>)>,
                Seq<char>,
            >(e@),
        },
{
    let xml = text::chars_of(metadata_xml);
    let versions = metadata_versions_of(&xml);
    if versions.len() == 0 {
        return Err("NeoForge version list is empty. You can enter the version manually.".to_string());
    }
    let ghost vs = views(versions@);
    let mut pairs: Vec<(String, String)> = Vec::new();
    let mut k: usize = versions.len();
    assert(vs.take(versions.len() as int) =~= vs);
    assert(text::pair_views(pairs@) =~= Seq::<(Seq<char>, Seq<char>)>::empty());
    while k > 0
        invariant
            k <= versions.len(),
            vs == views(versions@),
            neoforge_pairs(vs) == text::pair_views(pairs@) + neoforge_pairs(vs.take(k as int)),
        decreases k,
    {
        let ghost tk = vs.take(k as int);
        assert(tk.drop_last() =~= vs.take(k - 1));
        assert(tk.last() == versions@[k - 1]@);
        let v = text::string_of(&versions[k - 1]);
        let ghost old_pairs = pairs@;
        match neoforge_mc_of_version(v.as_str()) {
            Some(mc) => {
                let vv = v.clone();
                pairs.push((mc, vv));
                assert(text::pair_views(pairs@) =~= text::pair_views(old_pairs).push((mc@, vv@)));
            },
            None => {},
        }
        k -= 1;
        assert(neoforge_pairs(vs) =~= text::pair_views(pairs@) + neoforge_pairs(vs.take(k as int)));
    }
    assert(vs.take(0) =~= Seq::<Seq<char>>::empty());
    assert(text::pair_views(pairs@) =~= neoforge_pairs(vs));
    Ok(pairs)
}

/// `loader.version` of each entry that has one, in list order.
pub open spec fn fabric_loaders(entries: Seq<Json>) -> Seq<Seq<char>>
    decreases entries.len(),
{
    if entries.len() == 0 {
        Seq::empty()
    } else {
        let acc = fabric_loaders(entries.drop_last());
        match as_str(get(get(entries.last(), "loader"@), "version"@)) {
            Some(v) => acc.push(v),
            None => acc,
        }
    }
}

pub open spec fn fabric_loader_list_spec(list: Json, mc: Seq<char>) -> Result<Seq<Seq<char>>, Seq<char>> {
    let l = match as_array(list) {
        Some(a) => fabric_loaders(a),
        None => Seq::empty(),
    };
    if l.len() == 0 {
        Err("No Fabric loader found for Minecraft "@ + mc + "."@)
    } else {
        Ok(l)
    }
}

/// Fabric loader versions for a Minecraft version (latest first), from
/// the Fabric meta answer `v2/versions/loader/{mc}`.
pub fn get_fabric_loader_versions(list: &Json, mc_version: &str) -> (r: Result<Vec<String>, String>)
    ensures
        match r {
            Ok(v) => fabric_loader_list_spec(*list, mc_version@) == Ok::<
                Seq<Seq<char>>,
                Seq<char>,
            >(text::string_views(v@)),
            Err(e) => fabric_loader_list_spec(*list, mc_version@) == Err::<
                Seq<Seq<char>>,
                Seq<char>,
            >(e@),
        },
{
    let mut loaders: Vec<String> = Vec::new();
    match list.as_array() {
        Some(arr) => {
            let mut i: usize = 0;
            assert(arr@.take(0) =~= Seq::<Json>::empty());
            assert(text::string_views(loaders@) =~= Seq::<Seq<char>>::empty());
            while i < arr.len()
                invariant
                    i <= arr.len(),
                    text::string_views(loaders@) == fabric_loaders(arr@.take(i as int)),
                decreases arr.len() - i,
            {
                assert(arr@.take(i + 1).drop_last() =~= arr@.take(i as int));
                assert(arr@.take(i + 1).last() == arr@[i as int]);
                match arr[i].get("loader").get("version").as_str() {
                    Some(v) => {
                        let ghost old = loaders@;
                        let c = v.clone();
                        loaders.push(c);
                        assert(text::string_views(loaders@) =~= text::string_views(old).push(
                            c@,
                        ));
                    },
                    None => {},
                }
                i += 1;
            }
            assert(arr@.take(arr.len() as int) =~= arr@);
        },
        None => {
            assert(text::string_views(loaders@) =~= Seq::<Seq<char>>::empty());
        },
    }
    if loaders.len() == 0 {
        let mut e: Vec<char> = Vec::new();
        text::push_str(&mut e, "No Fabric loader found for Minecraft ");
        text::push_str(&mut e, mc_version);
        text::push_str(&mut e, ".");
        return Err(text::string_of(&e));
    }
    Ok(loaders)
}

pub open spec fn release_filter(e: Json) -> bool {
    is_text(get(e, "type"@), "release"@)
}

pub open spec fn stable_filter(e: Json) -> bool {
    get(e, "stable"@) == Json::Bool(true)
}

/// `field` of each entry that has it, keeping only entries that pass
/// `keep` unless `all`.
pub open spec fn field_values(entries: Seq<Json>, field: Seq<char>, keep: spec_fn(Json) -> bool, all: bool) -> Seq<Seq<char>>
    decreases entries.len(),
{
    if entries.len() == 0 {
        Seq::empty()
    } else {
        let acc = field_values(entries.drop_last(), field, keep, all);
        let e = entries.last();
        if all || keep(e) {
            match as_str(get(e, field)) {
                Some(v) => acc.push(v),
                None => acc,
            }
        } else {
            acc
        }
    }
}

pub open spec fn downloadable_spec(vanilla: Json, fabric: Json, all: bool) -> Seq<Seq<Seq<char>>> {
    let v = match as_array(get(vanilla, "versions"@)) {
        Some(a) => field_values(a, "id"@, |e: Json| release_filter(e), all),
        None => Seq::empty(),
    };
    let f = match as_array(fabric) {
        Some(a) => field_values(a, "version"@, |e: Json| stable_filter(e), all),
        None => Seq::empty(),
    };
    seq![v, f]
}

fn collect_field(entries: &Vec<Json>, field: &str, release: bool, all: bool) -> (r: Vec<String>)
    ensures
        text::string_views(r@) == field_values(
            entries@,
            field@,
            if release {
                |e: Json| release_filter(e)
            } else {
                |e: Json| stable_filter(e)
            },
            all,
        ),
{
    let ghost keep = if release {
        |e: Json| release_filter(e)
    } else {
        |e: Json| stable_filter(e)
    };
    let mut out: Vec<String> = Vec::new();
    let mut i: usize = 0;
    assert(entries@.take(0) =~= Seq::<Json>::empty());
    assert(text::string_views(out@) =~= Seq::<Seq<char>>::empty());
    while i < entries.len()
        invariant
            i <= entries.len(),
            keep == (if release {
                |e: Json| release_filter(e)
            } else {
                |e: Json| stable_filter(e)
            }),
            text::string_views(out@) == field_values(entries@.take(i as int), field@, keep, all),
        decreases entries.len() - i,
    {
        assert(entries@.take(i + 1).drop_last() =~= entries@.take(i as int));
        assert(entries@.take(i + 1).last() == entries@[i as int]);
        let e = &entries[i];
        let pass = if release {
            e.get("type").is_text("release")
        } else {
            match e.get("stable") {
                Json::Bool(b) => *b,
                _ => false,
            }
        };
        if all || pass {
            match e.get(field).as_str() {
                Some(v) => {
                    let ghost old = out@;
                    let c = v.clone();
                    out.push(c);
                    assert(text::string_views(out@) =~= text::string_views(old).push(c@));
                },
                None => {},
            }
        }
        i += 1;
    }
    assert(entries@.take(entries.len() as int) =~= entries@);
    out
}

/// Installable versions: Mojang's manifest ids (releases only unless
/// `showallversions`) and Fabric's game versions (stable only unless
/// `showallversions`).
pub fn get_downloadable_version_list(vanilla_manifest: &Json, fabric_games: &Json, showallversions: bool) -> (r: Vec<Vec<String>>)
    ensures
        r@.len() == 2,
        text::string_views(r@[0]@) == downloadable_spec(*vanilla_manifest, *fabric_games, showallversions)[0],
        text::string_views(r@[1]@) == downloadable_spec(*vanilla_manifest, *fabric_games, showallversions)[1],
{
    let v = match vanilla_manifest.get("versions").as_array() {
        Some(a) => collect_field(a, "id", true, showallversions),
        None => {
            let e: Vec<String> = Vec::new();
            assert(text::string_views(e@) =~= Seq::<Seq<char>>::empty());
            e
        },
    };
    let f = match fabric_games.as_array() {
        Some(a) => collect_field(a, "version", false, showallversions),
        None => {
            let e: Vec<String> = Vec::new();
            assert(text::string_views(e@) =~= Seq::<Seq<char>>::empty());
            e
        },
    };
    let mut r: Vec<Vec<String>> = Vec::new();
    r.push(v);
    r.push(f);
    r
}

/// Version json URL of a Minecraft version in Mojang's manifest.
pub open spec fn version_url_spec(entries: Seq<Json>, version: Seq<char>) -> Option<Seq<char>>
    decreases entries.len(),
{
    if entries.len() == 0 {
        None
    } else {
        let e = entries[0];
        if str_or(get(e, "id"@), ""@) == version && as_str(get(e, "url"@)) is Some {
            as_str(get(e, "url"@))
        } else {
            version_url_spec(entries.drop_first(), version)
        }
    }
}

pub open spec fn manifest_url_spec(manifest: Json, version: Seq<char>) -> Result<Seq<char>, Seq<char>> {
    match as_array(get(manifest, "versions"@)) {
        None => Err("Version list has no versions."@),
        Some(a) => match version_url_spec(a, version) {
            Some(u) => Ok(u),
            None => Err("Unknown Minecraft version: "@ + version),
        },
    }
}

/// URL of the version json of `version` in Mojang's version manifest.
pub fn manifest_url(manifest: &Json, version: &str) -> (r: Result<String, String>)
    ensures
        match r {
            Ok(u) => manifest_url_spec(*manifest, version@) == Ok::<Seq<char>, Seq<char>>(u@),
            Err(e) => manifest_url_spec(*manifest, version@) == Err::<Seq<char>, Seq<char>>(e@),
        },
{
    let versions = match manifest.get("versions").as_array() {
        Some(a) => a,
        None => {
            return Err("Version list has no versions.".to_string());
        },
    };
    let mut i: usize = 0;
    assert(versions@.skip(0) =~= versions@);
    while i < versions.len()
        invariant
            i <= versions.len(),
            as_array(get(*manifest, "versions"@)) == Some(versions@),
            version_url_spec(versions@, version@) == version_url_spec(versions@.skip(i as int), version@),
        decreases versions.len() - i,
    {
        assert(versions@.skip(i as int).drop_first() =~= versions@.skip(i + 1));
        assert(versions@.skip(i as int)[0] == versions@[i as int]);
        let id = versions[i].get("id").str_or("");
        if str_eq_string(&id, version) {
            match versions[i].get("url").as_str() {
                Some(u) => {
                    return Ok(u.clone());
                },
                None => {},
            }
        }
        i += 1;
    }
    let mut e: Vec<char> = Vec::new();
    text::push_str(&mut e, "Unknown Minecraft version: ");
    text::push_str(&mut e, version);
    Err(text::string_of(&e))
}

fn str_eq_string(a: &String, b: &str) -> (r: bool)
    ensures
        r == (a@ == b@),
{
    text::str_eq(a.as_str(), b)
}

pub open spec fn temurin_os(os: Seq<char>) -> Seq<char> {
    if os == "windows"@ {
        "windows"@
    } else {
        "linux"@
    }
}

pub open spec fn temurin_arch(arch: Seq<char>) -> Seq<char> {
    if arch == "aarch64"@ {
        "aarch64"@
    } else {
        "x64"@
    }
}

pub open spec fn temurin_url_spec(major: u64, os: Seq<char>, arch: Seq<char>) -> Seq<char> {
    "https://api.adoptium.net/v3/binary/latest/"@ + text::decimal(major as nat) + "/ga/"@ + temurin_os(os)
        + "/"@ + temurin_arch(arch) + "/jre/hotspot/normal/eclipse"@
}

/// Stable download URL for the latest GA Temurin JRE of a major version
/// on this OS (`windows`, else `linux`) and architecture (`aarch64`,
/// else `x64`).
pub fn temurin_jre_url(major: u64, os: &str, arch: &str) -> (r: String)
    ensures
        r@ == temurin_url_spec(major, os@, arch@),
{
    let mut out: Vec<char> = Vec::new();
    text::push_str(&mut out, "https://api.adoptium.net/v3/binary/latest/");
    let d = text::decimal_chars(major);
    text::push_chars(&mut out, &d);
    text::push_str(&mut out, "/ga/");
    if text::str_eq(os, "windows") {
        text::push_str(&mut out, "windows");
    } else {
        text::push_str(&mut out, "linux");
    }
    text::push_str(&mut out, "/");
    if text::str_eq(arch, "aarch64") {
        text::push_str(&mut out, "aarch64");
    } else {
        text::push_str(&mut out, "x64");
    }
    text::push_str(&mut out, "/jre/hotspot/normal/eclipse");
    text::string_of(&out)
}

// ---------------------------------------------------------------------
// Installing a version
// ---------------------------------------------------------------------

pub open spec fn version_dir_name_spec(version: Seq<char>, fabric: bool) -> Seq<char> {
    if fabric {
        version + "-fabric"@
    } else {
        version
    }
}

pub open spec fn is_fabric(t: VersionType) -> bool {
    t is Fabric
}

/// Folder (and file stem) of an installed version: the Minecraft id for
/// vanilla, `{id}-fabric` for Fabric.
pub fn version_dir_name(version: &str, version_type: &VersionType) -> (r: String)
    ensures
        r@ == version_dir_name_spec(version@, is_fabric(*version_type)),
{
    let mut out = text::chars_of(version);
    match version_type {
        VersionType::Vanilla => {},
        VersionType::Fabric { .. } => text::push_str(&mut out, "-fabric"),
    }
    text::string_of(&out)
}

pub open spec fn asset_index_url_spec(vanilla: Json) -> Result<Seq<char>, Seq<char>> {
    match as_str(get(get(vanilla, "assetIndex"@), "url"@)) {
        Some(u) => Ok(u),
        None => Err("Version metadata has no asset index."@),
    }
}

/// Where the asset index of a version is published.
pub fn asset_index_url(vanilla: &Json) -> (r: Result<String, String>)
    ensures
        match r {
            Ok(u) => asset_index_url_spec(*vanilla) == Ok::<Seq<char>, Seq<char>>(u@),
            Err(e) => asset_index_url_spec(*vanilla) == Err::<Seq<char>, Seq<char>>(e@),
        },
{
    match vanilla.get("assetIndex").get("url").as_str() {
        Some(u) => Ok(u.clone()),
        None => Err("Version metadata has no asset index.".to_string()),
    }
}

pub open spec fn asset_index_path_spec(mc_dir: Seq<char>, vanilla: Json) -> Result<Seq<char>, Seq<char>> {
    match as_str(get(vanilla, "assets"@)) {
        Some(a) => Ok(mc_dir + "/assets/indexes/"@ + a + ".json"@),
        None => Err("Version metadata has no assets index."@),
    }
}

/// Where the asset index of a version is stored.
pub fn asset_index_path(mc_dir: &str, vanilla: &Json) -> (r: Result<String, String>)
    ensures
        match r {
            Ok(p) => asset_index_path_spec(mc_dir@, *vanilla) == Ok::<Seq<char>, Seq<char>>(p@),
            Err(e) => asset_index_path_spec(mc_dir@, *vanilla) == Err::<Seq<char>, Seq<char>>(e@),
        },
{
    match vanilla.get("assets").as_str() {
        Some(a) => {
            let mut out = text::chars_of(mc_dir);
            text::push_str(&mut out, "/assets/indexes/");
            text::push_str(&mut out, a.as_str());
            text::push_str(&mut out, ".json");
            Ok(text::string_of(&out))
        },
        None => Err("Version metadata has no assets index.".to_string()),
    }
}

/// Everything a version install fetches: the client jar into the version
/// folder, the assets, the vanilla libraries, and for Fabric the loader
/// libraries.
pub open spec fn version_downloads_spec(
    mc_dir: Seq<char>,
    version: Seq<char>,
    fabric: bool,
    vanilla: Json,
    loader: Json,
    asset_index: Json,
    os: Seq<char>,
) -> Result<Seq<(Seq<char>, Seq<char>)>, Seq<char>> {
    let name = version_dir_name_spec(version, fabric);
    let folder = mc_dir + "/versions/"@ + name;
    match as_str(get(get(get(vanilla, "downloads"@), "client"@), "url"@)) {
        None => Err("Version metadata has no client jar."@),
        Some(client) => {
            let head = seq![(folder + "/"@ + name + ".jar"@, client)]
                + get_assets_spec(mc_dir, asset_index);
            match as_array(get(vanilla, "libraries"@)) {
                None => Err("Version metadata has no libraries."@),
                Some(libs) => match libraries_downloads(libs, mc_dir, folder, os) {
                    Err(e) => Err(e),
                    Ok(vl) => if !fabric {
                        Ok(head + vl)
                    } else {
                        match as_array(get(loader, "libraries"@)) {
                            None => Err("Loader profile has no libraries."@),
                            Some(ll) => match libraries_downloads(ll, mc_dir, folder, os) {
                                Err(e) => Err(e),
                                Ok(fl) => Ok(head + vl + fl),
                            },
                        }
                    },
                },
            }
        },
    }
}

/// Move every entry of `d` to the end of `out`.
pub fn append_downloads(out: &mut Vec<Download>, d: Vec<Download>)
    ensures
        download_views(final(out)@) == download_views(old(out)@) + download_views(d@),
{
    let ghost before = download_views(out@);
    let mut j: usize = 0;
    assert(download_views(d@).take(0) =~= Seq::<(Seq<char>, Seq<char>)>::empty());
    assert(download_views(out@) =~= before + download_views(d@).take(0));
    while j < d.len()
        invariant
            j <= d.len(),
            download_views(out@) == before + download_views(d@).take(j as int),
        decreases d.len() - j,
    {
        let x = Download { path: d[j].path.clone(), url: d[j].url.clone() };
        assert(x@ == d@[j as int]@);
        let ghost old_out = out@;
        out.push(x);
        assert(download_views(out@) =~= download_views(old_out).push(x@));
        assert(download_views(d@).take(j + 1) =~= download_views(d@).take(j as int).push(
            d@[j as int]@,
        ));
        j += 1;
    }
    assert(download_views(d@).take(d.len() as int) =~= download_views(d@));
}

/// Download list of a version install (see `version_downloads_spec`).
/// `vanilla` is the Mojang version json, `loader` the Fabric profile
/// (unused for vanilla), `asset_index` the downloaded asset index.
pub fn version_download_list(
    mc_dir: &str,
    version: &str,
    version_type: &VersionType,
    vanilla: &Json,
    loader: &Json,
    asset_index: &Json,
    os: &str,
) -> (r: Result<Vec<Download>, String>)
    requires
        asset_hashes_ok(*asset_index),
    ensures
        match r {
            Ok(v) => version_downloads_spec(mc_dir@, version@, is_fabric(*version_type), *vanilla, *loader, *asset_index, os@)
                == Ok::<Seq<(Seq<char>, Seq<char>)>, Seq<char>>(download_views(v@)),
            Err(e) => version_downloads_spec(mc_dir@, version@, is_fabric(*version_type), *vanilla, *loader, *asset_index, os@)
                == Err::<Seq<(Seq<char>, Seq<char>)>, Seq<char>>(e@),
        },
{
    let name = version_dir_name(version, version_type);
    let mut f = text::chars_of(mc_dir);
    text::push_str(&mut f, "/versions/");
    text::push_str(&mut f, name.as_str());
    let folder = text::string_of(&f);
    let client = match vanilla.get("downloads").get("client").get("url").as_str() {
        Some(c) => c,
        None => {
            return Err("Version metadata has no client jar.".to_string());
        },
    };
    let mut p = f;
    text::push_str(&mut p, "/");
    text::push_str(&mut p, name.as_str());
    text::push_str(&mut p, ".jar");
    let mut list: Vec<Download> = Vec::new();
    let jar = Download { path: text::string_of(&p), url: client.clone() };
    list.push(jar);
    assert(download_views(list@) =~= seq![jar@]);
    let assets = get_assets(mc_dir, asset_index);
    append_downloads(&mut list, assets);
    let libs = match vanilla.get("libraries").as_array() {
        Some(l) => l,
        None => {
            return Err("Version metadata has no libraries.".to_string());
        },
    };
    match get_libraries(mc_dir, libs, folder.as_str(), os) {
        Err(e) => {
            return Err(e);
        },
        Ok(vl) => append_downloads(&mut list, vl),
    }
    match version_type {
        VersionType::Vanilla => Ok(list),
        VersionType::Fabric { .. } => {
            let ll = match loader.get("libraries").as_array() {
                Some(l) => l,
                None => {
                    return Err("Loader profile has no libraries.".to_string());
                },
            };
            match get_libraries(mc_dir, ll, folder.as_str(), os) {
                Err(e) => Err(e),
                Ok(fl) => {
                    append_downloads(&mut list, fl);
                    Ok(list)
                },
            }
        },
    }
}

/// Entries whose file is not on disk yet (`present[i]` tells whether
/// `list[i]` exists), in list order.
pub open spec fn missing_spec(list: Seq<(Seq<char>, Seq<char>)>, present: Seq<bool>) -> Seq<(Seq<char>, Seq<char>)>
    decreases list.len(),
{
    if list.len() == 0 {
        Seq::empty()
    } else {
        let acc = missing_spec(list.drop_last(), present);
        if present[list.len() - 1] {
            acc
        } else {
            acc.push(list.last())
        }
    }
}

/// Keep only what is not on disk yet.
pub fn missing_downloads(list: Vec<Download>, present: &Vec<bool>) -> (r: Vec<Download>)
    requires
        present@.len() == list@.len(),
    ensures
        download_views(r@) == missing_spec(download_views(list@), present@),
{
    let mut out: Vec<Download> = Vec::new();
    let mut i: usize = 0;
    let ghost lv = download_views(list@);
    assert(lv.take(0) =~= Seq::<(Seq<char>, Seq<char>)>::empty());
    assert(download_views(out@) =~= Seq::<(Seq<char>, Seq<char>)>::empty());
    while i < list.len()
        invariant
            i <= list.len(),
            present@.len() == list@.len(),
            lv == download_views(list@),
            download_views(out@) == missing_spec(lv.take(i as int), present@),
        decreases list.len() - i,
    {
        assert(lv.take(i + 1).drop_last() =~= lv.take(i as int));
        assert(lv.take(i + 1).last() == list@[i as int]@);
        if !present[i] {
            let x = Download { path: list[i].path.clone(), url: list[i].url.clone() };
            let ghost old_out = out@;
            out.push(x);
            assert(download_views(out@) =~= download_views(old_out).push(x@));
        }
        i += 1;
    }
    assert(lv.take(list.len() as int) =~= lv);
    out
}

/// Whether a downloaded file is a natives archive that must be unpacked.
pub fn is_natives_archive(path: &str) -> (r: bool)
    ensures
        r == contains_sub(path@, "natives.jar"@),
{
    let p = text::chars_of(path);
    let n = text::chars_of("natives.jar");
    text::chars_contains(&p, &n)
}

// ---------------------------------------------------------------------
// Download jobs
// ---------------------------------------------------------------------

/// What a download job reports after each step.
#[derive(Debug, Clone, PartialEq)]
pub enum Progress {
    GotDownloadList(i32),
    Downloaded(i32),
    Finished,
    StartedJavaDownload(u8),
    JavaDownloadProgressed(u8, u8),
    JavaDownloadFinished,
    JavaExtracted,
    MissingFilesDownloadProgressed(u16),
    MissingFilesDownloadFinished,
    UpdateStarted(u8),
    UpdateProgressed(u8, u8, u8),
    UpdateFinished,
    /// Managed Java `major` must be downloaded first (resume afterwards).
    NeoForgeNeedsJava(u64),
    /// Indeterminate status text for the NeoForge installer flow.
    NeoForgeStatus(String),
    /// NeoForge installed successfully (triggers version list refresh).
    NeoForgeFinished,
    Errored(String),
}

/// Files still to fetch, front first.
pub struct DownloadList {
    pub download_list: std::collections::VecDeque<Download>,
}

impl DownloadList {
    /// A queue holding `files` in order.
    pub fn new(files: Vec<Download>) -> (r: DownloadList)
        ensures
            download_views(r.download_list@) == download_views(files@),
    {
        let mut q: std::collections::VecDeque<Download> = std::collections::VecDeque::new();
        let mut i: usize = 0;
        assert(download_views(q@) =~= download_views(files@).take(0));
        while i < files.len()
            invariant
                i <= files.len(),
                download_views(q@) == download_views(files@).take(i as int),
            decreases files.len() - i,
        {
            let x = Download { path: files[i].path.clone(), url: files[i].url.clone() };
            let ghost o = q@;
            q.push_back(x);
            assert(download_views(q@) =~= download_views(o).push(x@));
            assert(download_views(files@).take(i + 1) =~= download_views(files@).take(i as int).push(files@[i as int]@));
            i += 1;
        }
        assert(download_views(files@).take(files.len() as int) =~= download_views(files@));
        DownloadList { download_list: q }
    }

    /// Take the next file. With files left: the file and the progress to
    /// report once it is fetched (how many remain after it; `missing`
    /// selects the report of a missing-files job). With none left: the
    /// final report, the queue unchanged.
    pub fn next_file(&mut self, missing: bool) -> (r: Result<(Download, Progress), Progress>)
        ensures
            old(self).download_list@.len() == 0 ==> {
                &&& final(self).download_list@ == old(self).download_list@
                &&& r == if missing {
                    Err::<(Download, Progress), Progress>(Progress::MissingFilesDownloadFinished)
                } else {
                    Err::<(Download, Progress), Progress>(Progress::Finished)
                }
            },
            old(self).download_list@.len() > 0 ==> {
                let rest = old(self).download_list@.drop_first();
                &&& final(self).download_list@ == rest
                &&& r matches Ok((d, p)) && d == old(self).download_list@[0] && p == if missing {
                    Progress::MissingFilesDownloadProgressed(rest.len() as u16)
                } else {
                    Progress::Downloaded(rest.len() as i32)
                }
            },
    {
        match self.download_list.pop_front() {
            None => if missing {
                Err(Progress::MissingFilesDownloadFinished)
            } else {
                Err(Progress::Finished)
            },
            Some(d) => {
                let n = self.download_list.len();
                if missing {
                    Ok((d, Progress::MissingFilesDownloadProgressed(n as u16)))
                } else {
                    Ok((d, Progress::Downloaded(n as i32)))
                }
            },
        }
    }
}

/// Whole megabytes of a byte count, cut to a byte as the progress
/// messages carry it.
pub fn megabytes(bytes: u64) -> (r: u8)
    ensures
        r == (bytes / 1048576) as u8,
{
    (bytes / 1048576) as u8
}

pub open spec fn java_archive_name_spec(os: Seq<char>) -> Result<Seq<char>, Seq<char>> {
    if os == "linux"@ {
        Ok("compressed.tar.gz"@)
    } else if os == "windows"@ {
        Ok("compressed.zip"@)
    } else {
        Err("System not supported."@)
    }
}

/// File a downloaded JRE archive is stored in.
pub fn java_archive_name(os: &str) -> (r: Result<String, String>)
    ensures
        match r {
            Ok(n) => java_archive_name_spec(os@) == Ok::<Seq<char>, Seq<char>>(n@),
            Err(e) => java_archive_name_spec(os@) == Err::<Seq<char>, Seq<char>>(e@),
        },
{
    if text::str_eq(os, "linux") {
        Ok("compressed.tar.gz".to_string())
    } else if text::str_eq(os, "windows") {
        Ok("compressed.zip".to_string())
    } else {
        Err("System not supported.".to_string())
    }
}

pub open spec fn java_store_dir_spec(mc_dir: Seq<char>) -> Seq<char> {
    mc_dir + "/dgrlauncher_java"@
}

/// Folder that holds the launcher-managed JREs.
pub fn java_store_dir(mc_dir: &str) -> (r: String)
    ensures
        r@ == java_store_dir_spec(mc_dir@),
{
    let mut d = text::chars_of(mc_dir);
    text::push_str(&mut d, "/dgrlauncher_java");
    text::string_of(&d)
}

pub open spec fn java_rename_spec(folder: Seq<char>, first_entry: Seq<char>, major: u64) -> Result<(Seq<char>, Seq<char>), Seq<char>> {
    if first_entry.len() == 0 {
        Err("Java archive is empty."@)
    } else {
        Ok((folder + "/"@ + first_entry, folder + "/"@ + crate::launcher::managed_java_folder_spec(major)))
    }
}

/// After unpacking a JRE: the top folder of the archive (its first entry)
/// is renamed to `java{N}`; an archive without entries is an error.
pub fn java_rename(folder: &str, first_entry: &str, major: u64) -> (r: Result<(String, String), String>)
    ensures
        match r {
            Ok((a, b)) => java_rename_spec(folder@, first_entry@, major) == Ok::<(Seq<char>, Seq<char>), Seq<char>>((a@, b@)),
            Err(e) => java_rename_spec(folder@, first_entry@, major) == Err::<(Seq<char>, Seq<char>), Seq<char>>(e@),
        },
{
    if first_entry.unicode_len() == 0 {
        return Err("Java archive is empty.".to_string());
    }
    let mut from = text::chars_of(folder);
    text::push_str(&mut from, "/");
    let mut to = text::chars_copy(&from);
    text::push_str(&mut from, first_entry);
    let name = crate::launcher::managed_java_folder(major);
    text::push_str(&mut to, name.as_str());
    Ok((text::string_of(&from), text::string_of(&to)))
}

pub open spec fn managed_java_bin_spec(mc_dir: Seq<char>, major: u64, os: Seq<char>) -> Seq<char> {
    java_store_dir_spec(mc_dir) + "/"@ + crate::launcher::managed_java_folder_spec(major) + "/bin/"@
        + crate::launcher::java_binary_spec(os)
}

/// The Java binary of a launcher-managed JRE.
pub fn managed_java_bin(mc_dir: &str, major: u64, os: &str) -> (r: String)
    ensures
        r@ == managed_java_bin_spec(mc_dir@, major, os@),
{
    let mut p = text::chars_of(mc_dir);
    text::push_str(&mut p, "/dgrlauncher_java");
    text::push_str(&mut p, "/");
    let f = crate::launcher::managed_java_folder(major);
    text::push_str(&mut p, f.as_str());
    text::push_str(&mut p, "/bin/");
    if text::str_eq(os, "windows") {
        text::push_str(&mut p, "javaw.exe");
    } else {
        text::push_str(&mut p, "java");
    }
    assert(p@ =~= managed_java_bin_spec(mc_dir@, major, os@));
    text::string_of(&p)
}

pub open spec fn neoforge_java_major_spec(vanilla: Option<Json>, mc_version: Seq<char>) -> u64 {
    match vanilla {
        Some(v) => match crate::json::as_u64(get(get(v, "javaVersion"@), "majorVersion"@)) {
            Some(m) => m,
            None => crate::launcher::fallback_java_major_spec(mc_version),
        },
        None => crate::launcher::fallback_java_major_spec(mc_version),
    }
}

/// Java major that runs the NeoForge installer: `javaVersion.majorVersion`
/// of the vanilla json when it could be read, else the version table.
pub fn neoforge_java_major(vanilla: Option<&Json>, mc_version: &str) -> (r: u64)
    ensures
        r == neoforge_java_major_spec(match vanilla { Some(v) => Some(*v), None => None }, mc_version@),
{
    match vanilla {
        Some(v) => match v.get("javaVersion").get("majorVersion").as_u64() {
            Some(m) => m,
            None => crate::launcher::fallback_java_major(mc_version),
        },
        None => crate::launcher::fallback_java_major(mc_version),
    }
}

pub open spec fn neoforge_installer_path_spec(mc_dir: Seq<char>, v: Seq<char>) -> Seq<char> {
    mc_dir + "/downloads/neoforge-"@ + v + "-installer.jar"@
}

/// Where the NeoForge installer jar is kept (and reused).
pub fn neoforge_installer_path(mc_dir: &str, neoforge_version: &str) -> (r: String)
    ensures
        r@ == neoforge_installer_path_spec(mc_dir@, neoforge_version@),
{
    let mut p = text::chars_of(mc_dir);
    text::push_str(&mut p, "/downloads/neoforge-");
    text::push_str(&mut p, neoforge_version);
    text::push_str(&mut p, "-installer.jar");
    text::string_of(&p)
}

pub open spec fn neoforge_profile_path_spec(mc_dir: Seq<char>, v: Seq<char>) -> Seq<char> {
    mc_dir + "/versions/neoforge-"@ + v + "/neoforge-"@ + v + ".json"@
}

/// The version json the NeoForge installer writes.
pub fn neoforge_profile_path(mc_dir: &str, neoforge_version: &str) -> (r: String)
    ensures
        r@ == neoforge_profile_path_spec(mc_dir@, neoforge_version@),
{
    let mut p = text::chars_of(mc_dir);
    text::push_str(&mut p, "/versions/neoforge-");
    text::push_str(&mut p, neoforge_version);
    text::push_str(&mut p, "/neoforge-");
    text::push_str(&mut p, neoforge_version);
    text::push_str(&mut p, ".json");
    text::string_of(&p)
}

/// Arguments of the installer run: client install into `mc_dir`.
pub fn neoforge_installer_args(installer_path: &str, mc_dir: &str) -> (r: Vec<String>)
    ensures
        text::string_views(r@) == seq!["-jar"@, installer_path@, "--install-client"@, mc_dir@],
{
    let mut v: Vec<String> = Vec::new();
    v.push("-jar".to_string());
    v.push(installer_path.to_string());
    v.push("--install-client".to_string());
    v.push(mc_dir.to_string());
    assert(text::string_views(v@) =~= seq!["-jar"@, installer_path@, "--install-client"@, mc_dir@]);
    v
}

/// The last (up to) five lines, last first.
pub open spec fn last_lines(ls: Seq<Seq<char>>) -> Seq<Seq<char>> {
    let k: int = if ls.len() < 5 {
        ls.len() as int
    } else {
        5
    };
    Seq::new(k as nat, |i: int| ls[ls.len() - 1 - i])
}

pub open spec fn installer_failure_spec(status: Seq<char>, stderr: Seq<char>) -> Seq<char> {
    let t = join(last_lines(text::lines(stderr)), " | "@);
    let n: int = if t.len() < 300 {
        t.len() as int
    } else {
        300
    };
    "NeoForge installer failed (exit "@ + status + "): "@ + t.take(n)
}

/// Message for a failed installer run: the exit status and the last five
/// lines of its error output, last first, joined by ` | ` and cut to 300
/// characters.
pub fn installer_failure(status: &str, stderr: &str) -> (r: String)
    ensures
        r@ == installer_failure_spec(status@, stderr@),
{
    let c = text::chars_of(stderr);
    let ls = text::chars_lines(&c);
    let ghost lv = views(ls@);
    let k: usize = if ls.len() < 5 { ls.len() } else { 5 };
    let mut picked: Vec<Vec<char>> = Vec::new();
    let mut i: usize = 0;
    while i < k
        invariant
            i <= k,
            k <= ls.len(),
            k == if ls.len() < 5 { ls.len() } else { 5 },
            lv == views(ls@),
            views(picked@) == last_lines(lv).take(i as int),
        decreases k - i,
    {
        let x = text::chars_copy(&ls[ls.len() - 1 - i]);
        let ghost o = views(picked@);
        picked.push(x);
        assert(views(picked@) =~= o.push(x@));
        assert(last_lines(lv).take(i + 1) =~= last_lines(lv).take(i as int).push(lv[ls.len() - 1 - i]));
        i += 1;
    }
    assert(last_lines(lv).take(k as int) =~= last_lines(lv));
    let t = text::join_chars(&picked, " | ");
    let n: usize = if t.len() < 300 { t.len() } else { 300 };
    let cut = text::sub_chars(&t, 0, n);
    assert(cut@ =~= t@.take(n as int));
    let mut out = text::chars_of("NeoForge installer failed (exit ");
    text::push_str(&mut out, status);
    text::push_str(&mut out, "): ");
    text::push_chars(&mut out, &cut);
    text::string_of(&out)
}

pub open spec fn installer_outcome_spec(success: bool, status: Seq<char>, stderr: Seq<char>, produced: Seq<char>, produced_exists: bool) -> Result<(), Seq<char>> {
    if !success {
        Err(installer_failure_spec(status, stderr))
    } else if produced_exists {
        Ok(())
    } else {
        Err("Installer finished but "@ + produced + " is missing."@)
    }
}

/// How an installer run ended: success needs a zero exit status and the
/// version json it should have produced.
pub fn installer_outcome(success: bool, status: &str, stderr: &str, produced: &str, produced_exists: bool) -> (r: Progress)
    ensures
        match installer_outcome_spec(success, status@, stderr@, produced@, produced_exists) {
            Ok(_) => r == Progress::NeoForgeFinished,
            Err(e) => r matches Progress::Errored(m) && m@ == e,
        },
{
    if !success {
        Progress::Errored(installer_failure(status, stderr))
    } else if produced_exists {
        Progress::NeoForgeFinished
    } else {
        let mut m = text::chars_of("Installer finished but ");
        text::push_str(&mut m, produced);
        text::push_str(&mut m, " is missing.");
        Progress::Errored(text::string_of(&m))
    }
}

pub open spec fn fabric_profile_url_spec(version: Seq<char>, loader: Seq<char>) -> Seq<char> {
    "https://meta.fabricmc.net/v2/versions/loader/"@ + version + "/"@ + loader + "/profile/json"@
}

/// Fabric launcher profile of a Minecraft version and loader.
pub fn fabric_profile_url(version: &str, loader: &str) -> (r: String)
    ensures
        r@ == fabric_profile_url_spec(version@, loader@),
{
    let mut u = text::chars_of("https://meta.fabricmc.net/v2/versions/loader/");
    text::push_str(&mut u, version);
    text::push_str(&mut u, "/");
    text::push_str(&mut u, loader);
    text::push_str(&mut u, "/profile/json");
    text::string_of(&u)
}

// ---------------------------------------------------------------------
// Launcher self-update archives
// ---------------------------------------------------------------------

pub open spec fn is_zip_name(name: Seq<char>) -> bool {
    text::ends_with(text::lowercase(name), ".zip"@)
}

/// Whether an update archive (by URL or path) is a zip file.
pub fn is_zip_archive(name: &str) -> (r: bool)
    ensures
        r == is_zip_name(name@),
{
    let l = text::to_lowercase(name);
    let lc = text::chars_of(l.as_str());
    let z = text::chars_of(".zip");
    text::chars_ends_with(&lc, &z)
}

/// File name the update archive is downloaded to, next to the executable.
pub fn update_archive_name(url: &str) -> (r: String)
    ensures
        r@ == if is_zip_name(url@) {
            "update_tmp.zip"@
        } else {
            "update_tmp.tar.gz"@
        },
{
    if is_zip_archive(url) {
        "update_tmp.zip".to_string()
    } else {
        "update_tmp.tar.gz".to_string()
    }
}

/// Role of an archive entry in an update: 1 the launcher binary, 2 the
/// binary under its former name, 3 any other Windows executable (zip
/// archives only), 0 nothing. `lc` is the lower-cased entry name (the
/// full name in a zip, the file name in a tarball).
pub open spec fn entry_role(zip: bool, is_file: bool, lc: Seq<char>) -> int {
    if !is_file {
        0
    } else if zip {
        if text::ends_with(lc, "dgrlauncher.exe"@) {
            1
        } else if text::ends_with(lc, "minelander.exe"@) || lc == "minelander"@ {
            2
        } else if text::ends_with(lc, ".exe"@) {
            3
        } else {
            0
        }
    } else if lc == "dgrlauncher"@ || lc == "dgrlauncher.exe"@ {
        1
    } else if lc == "minelander"@ || lc == "minelander.exe"@ {
        2
    } else {
        0
    }
}

pub open spec fn entry_views(v: Seq<(bool, String)>) -> Seq<(bool, Seq<char>)> {
    v.map_values(|e: (bool, String)| (e.0, e.1@))
}

/// First entry with a role.
pub open spec fn first_role(e: Seq<(bool, Seq<char>)>, zip: bool, role: int) -> Option<int>
    decreases e.len(),
{
    if e.len() == 0 {
        None
    } else {
        match first_role(e.drop_last(), zip, role) {
            Some(j) => Some(j),
            None => if entry_role(zip, e.last().0, text::lowercase(e.last().1)) == role {
                Some(e.len() - 1)
            } else {
                None
            },
        }
    }
}

pub proof fn lemma_first_role_bounds(e: Seq<(bool, Seq<char>)>, zip: bool, role: int)
    ensures
        first_role(e, zip, role) matches Some(j) ==> 0 <= j < e.len(),
    decreases e.len(),
{
    if e.len() > 0 {
        lemma_first_role_bounds(e.drop_last(), zip, role);
    }
}

pub open spec fn update_entry_spec(e: Seq<(bool, Seq<char>)>, zip: bool) -> Option<int> {
    match first_role(e, zip, 1) {
        Some(i) => Some(i),
        None => match first_role(e, zip, 2) {
            Some(i) => Some(i),
            None => first_role(e, zip, 3),
        },
    }
}

/// Which archive entry holds the new launcher: the first launcher binary,
/// else the first one under the former name, else (zip only) the first
/// executable. `entries` lists each entry's "is a file" flag and name.
pub fn pick_update_entry(entries: &Vec<(bool, String)>, zip: bool) -> (r: Result<usize, String>)
    ensures
        match update_entry_spec(entry_views(entries@), zip) {
            Some(i) => r == Ok::<usize, String>(i as usize),
            None => r matches Err(m) && m@ == "No executable found in update archive."@,
        },
{
    let ghost ev = entry_views(entries@);
    let mut preferred: Option<usize> = None;
    let mut legacy: Option<usize> = None;
    let mut fallback: Option<usize> = None;
    let mut i: usize = 0;
    while i < entries.len()
        invariant
            i <= entries.len(),
            ev == entry_views(entries@),
            preferred == match first_role(ev.take(i as int), zip, 1) { Some(j) => Some(j as usize), None => None::<usize> },
            legacy == match first_role(ev.take(i as int), zip, 2) { Some(j) => Some(j as usize), None => None::<usize> },
            fallback == match first_role(ev.take(i as int), zip, 3) { Some(j) => Some(j as usize), None => None::<usize> },
        decreases entries.len() - i,
    {
        assert(ev.take(i + 1).drop_last() =~= ev.take(i as int));
        proof {
            lemma_first_role_bounds(ev.take(i + 1), zip, 1);
            lemma_first_role_bounds(ev.take(i + 1), zip, 2);
            lemma_first_role_bounds(ev.take(i + 1), zip, 3);
        }
        assert(ev.take(i + 1).last() == (entries@[i as int].0, entries@[i as int].1@));
        let l = text::to_lowercase(entries[i].1.as_str());
        let role = entry_role_of(zip, entries[i].0, l.as_str());
        if role == 1 && preferred.is_none() {
            preferred = Some(i);
        } else if role == 2 && legacy.is_none() {
            legacy = Some(i);
        } else if role == 3 && fallback.is_none() {
            fallback = Some(i);
        }
        i += 1;
    }
    assert(ev.take(entries.len() as int) =~= ev);
    match preferred {
        Some(p) => Ok(p),
        None => match legacy {
            Some(p) => Ok(p),
            None => match fallback {
                Some(p) => Ok(p),
                None => Err("No executable found in update archive.".to_string()),
            },
        },
    }
}

fn entry_role_of(zip: bool, is_file: bool, lc: &str) -> (r: u8)
    ensures
        r as int == entry_role(zip, is_file, lc@),
{
    let c = text::chars_of(lc);
    if !is_file {
        0
    } else if zip {
        if text::chars_ends_with(&c, &text::chars_of("dgrlauncher.exe")) {
            1
        } else if text::chars_ends_with(&c, &text::chars_of("minelander.exe")) || text::str_eq(lc, "minelander") {
            2
        } else if text::chars_ends_with(&c, &text::chars_of(".exe")) {
            3
        } else {
            0
        }
    } else if text::str_eq(lc, "dgrlauncher") || text::str_eq(lc, "dgrlauncher.exe") {
        1
    } else if text::str_eq(lc, "minelander") || text::str_eq(lc, "minelander.exe") {
        2
    } else {
        0
    }
}

/// Folder a natives archive is unpacked into: its path without
/// `/natives.jar`.
pub fn natives_folder(jar_path: &str) -> (r: String)
    ensures
        r@ == text::replace_all(jar_path@, "/natives.jar"@, Seq::empty()),
{
    let c = text::chars_of(jar_path);
    let pat = text::chars_of("/natives.jar");
    let e: Vec<char> = Vec::new();
    proof {
        reveal_strlit("/natives.jar");
    }
    let r = text::chars_replace_all(&c, &pat, &e);
    text::string_of(&r)
}

} // verus!

//! Launcher self-update: reading release tags, choosing the release asset
//! for the running system, and tidying release notes.
use vstd::prelude::*;
use crate::json::{Json, get, as_str, as_array};
use crate::text;
use crate::text::{split, trim, trim_start, trim_start_char, starts_with, ends_with, contains_sub, lowercase, parse_u64_spec, join, lines};
use crate::downloader::str_or;

verus! {

/// Latest-release endpoint of the launcher's repository.
pub fn api_url() -> (r: String)
    ensures
        r@ == "https://api.github.com/repos/VLAZOF/dgrlauncher/releases/latest"@,
{
    "https://api.github.com/repos/VLAZOF/dgrlauncher/releases/latest".to_string()
}

pub open spec fn component(parts: Seq<Seq<char>>, k: int) -> Option<Option<u64>> {
    if k < parts.len() {
        match parse_u64_spec(trim(parts[k])) {
            Some(n) => Some(Some(n)),
            None => None,
        }
    } else {
        Some(None)
    }
}

pub open spec fn parse_version_spec(s: Seq<char>) -> Option<(u64, u64, u64)> {
    let t = trim_start_char(trim_start_char(trim(s), 'v'), 'V');
    let core = split(t, seq!['-', '+'])[0];
    let parts = split(core, seq!['.']);
    match (parse_u64_spec(trim(parts[0])), component(parts, 1), component(parts, 2)) {
        (Some(major), Some(minor), Some(patch)) => Some(
            (
                major,
                match minor {
                    Some(n) => n,
                    None => 0,
                },
                match patch {
                    Some(n) => n,
                    None => 0,
                },
            ),
        ),
        _ => None,
    }
}

fn component_of(parts: &Vec<Vec<char>>, k: usize) -> (r: Option<Option<u64>>)
    ensures
        r == component(text::views(parts@), k as int),
{
    if k < parts.len() {
        let t = text::chars_trim(&parts[k]);
        match text::parse_u64(&t) {
            Some(n) => Some(Some(n)),
            None => None,
        }
    } else {
        Some(None)
    }
}

/// A release tag or version as `(major, minor, patch)`: surrounding
/// space and leading `v`/`V` dropped, anything from the first `-` or `+`
/// ignored, missing minor or patch read as 0; `None` when a present part
/// is not a number.
pub fn parse_version(s: &str) -> (r: Option<(u64, u64, u64)>)
    ensures
        r == parse_version_spec(s@),
{
    let c = text::chars_of(s);
    let t0 = text::chars_trim(&c);
    let t1 = text::chars_trim_start_char(&t0, 'v');
    let t = text::chars_trim_start_char(&t1, 'V');
    let seps = vec!['-', '+'];
    assert(seps@ =~= seq!['-', '+']);
    let pieces = text::chars_split(&t, &seps);
    proof {
        text::lemma_split_nonempty(t@, seps@);
    }
    let core = &pieces[0];
    let dot = vec!['.'];
    assert(dot@ =~= seq!['.']);
    let parts = text::chars_split(core, &dot);
    proof {
        text::lemma_split_nonempty(core@, dot@);
    }
    assert(text::views(parts@) =~= split(core@, seq!['.']));
    let first = text::chars_trim(&parts[0]);
    let major = text::parse_u64(&first);
    let minor = component_of(&parts, 1);
    let patch = component_of(&parts, 2);
    match (major, minor, patch) {
        (Some(a), Some(b), Some(c)) => Some(
            (
                a,
                match b {
                    Some(n) => n,
                    None => 0,
                },
                match c {
                    Some(n) => n,
                    None => 0,
                },
            ),
        ),
        _ => None,
    }
}

/// `a <= b` for versions, component by component.
pub open spec fn version_le(a: (u64, u64, u64), b: (u64, u64, u64)) -> bool {
    a.0 < b.0 || (a.0 == b.0 && (a.1 < b.1 || (a.1 == b.1 && a.2 <= b.2)))
}

pub open spec fn keep_note_line(l: Seq<char>) -> bool {
    !starts_with(trim_start(l), "**Full Changelog**"@)
}

pub open spec fn clean_release_notes_spec(body: Seq<char>) -> Seq<char> {
    trim(join(lines(body).filter(|l: Seq<char>| keep_note_line(l)), "\n"@))
}

/// Release notes for the Settings box: the "Full Changelog" link lines
/// dropped, the rest joined by line breaks and trimmed.
pub fn clean_release_notes(body: &str) -> (r: String)
    ensures
        r@ == clean_release_notes_spec(body@),
{
    let c = text::chars_of(body);
    let ls = text::chars_lines(&c);
    let ghost lv = text::views(ls@);
    let ghost pred = |l: Seq<char>| keep_note_line(l);
    let marker = text::chars_of("**Full Changelog**");
    let mut kept: Vec<Vec<char>> = Vec::new();
    let mut i: usize = 0;
    assert(lv.take(0) =~= Seq::<Seq<char>>::empty());
    assert(text::views(kept@) =~= Seq::<Seq<char>>::empty());
    proof {
        reveal(Seq::filter);
    }
    while i < ls.len()
        invariant
            i <= ls.len(),
            lv == text::views(ls@),
            marker@ == "**Full Changelog**"@,
            pred == (|l: Seq<char>| keep_note_line(l)),
            text::views(kept@) == lv.take(i as int).filter(pred),
        decreases ls.len() - i,
    {
        assert(lv.take(i + 1).drop_last() =~= lv.take(i as int));
        assert(lv.take(i + 1).last() == ls@[i as int]@);
        let ts = text::chars_trim_start(&ls[i]);
        if !text::chars_starts_with(&ts, &marker) {
            let ghost o = text::views(kept@);
            let x = text::chars_copy(&ls[i]);
            kept.push(x);
            assert(text::views(kept@) =~= o.push(x@));
            assert(lv.take(i + 1).filter(pred) == lv.take(i as int).filter(pred).push(ls@[i as int]@)) by {
                reveal(Seq::filter);
            }
        } else {
            assert(lv.take(i + 1).filter(pred) == lv.take(i as int).filter(pred)) by {
                reveal(Seq::filter);
            }
        }
        i += 1;
    }
    assert(lv.take(ls.len() as int) =~= lv);
    let j = text::join_chars(&kept, "\n");
    let t = text::chars_trim(&j);
    text::string_of(&t)
}

pub open spec fn asset_name(a: Json) -> Seq<char> {
    lowercase(str_or(get(a, "name"@), ""@))
}

pub open spec fn asset_fits(a: Json, pass: int, want: Seq<char>, ext: Seq<char>) -> bool {
    let n = asset_name(a);
    &&& contains_sub(n, want)
    &&& pass == 1 || ends_with(n, ext)
    &&& as_str(get(a, "browser_download_url"@)) is Some
}

/// Download URL of the first asset that fits in a pass.
pub open spec fn first_fit(assets: Seq<Json>, pass: int, want: Seq<char>, ext: Seq<char>, k: int) -> Option<Seq<char>>
    decreases assets.len() - k,
{
    if k < 0 || k >= assets.len() {
        None
    } else if asset_fits(assets[k], pass, want, ext) {
        as_str(get(assets[k], "browser_download_url"@))
    } else {
        first_fit(assets, pass, want, ext, k + 1)
    }
}

pub open spec fn platform_asset(os: Seq<char>) -> Option<(Seq<char>, Seq<char>)> {
    if os == "windows"@ {
        Some(("windows"@, ".zip"@))
    } else if os == "linux"@ {
        Some(("linux"@, ".tar.gz"@))
    } else {
        None
    }
}

/// The update of a release for the running system: `(download URL, tag,
/// notes)`, or why there is none.
pub open spec fn select_update_spec(release: Json, current: Seq<char>, os: Seq<char>) -> Result<(Seq<char>, Seq<char>, Seq<char>), Seq<char>> {
    match as_str(get(release, "tag_name"@)) {
        None => Err("The release has no tag."@),
        Some(tag) => match parse_version_spec(current) {
            None => Err("The running version cannot be read."@),
            Some(cur) => match parse_version_spec(tag) {
                None => Err("The release version cannot be read."@),
                Some(latest) => if version_le(latest, cur) {
                    Err("The launcher is up to date."@)
                } else {
                    match as_array(get(release, "assets"@)) {
                        None => Err("The release has no assets."@),
                        Some(assets) => match platform_asset(os) {
                            None => Err("Updates are not available for "@ + os + "."@),
                            Some((want, ext)) => match first_fit(assets, 0, want, ext, 0) {
                                Some(u) => Ok((u, tag, clean_release_notes_spec(str_or(get(release, "body"@), ""@)))),
                                None => match first_fit(assets, 1, want, ext, 0) {
                                    Some(u) => Ok((u, tag, clean_release_notes_spec(str_or(get(release, "body"@), ""@)))),
                                    None => Err("No update file for "@ + os + " in release "@ + tag + "."@),
                                },
                            },
                        },
                    }
                }
            },
        },
    }
}

fn find_fit(assets: &Vec<Json>, pass: u8, want: &str, ext: &str) -> (r: Option<String>)
    requires
        pass <= 1,
    ensures
        match r {
            Some(u) => first_fit(assets@, pass as int, want@, ext@, 0) == Some(u@),
            None => first_fit(assets@, pass as int, want@, ext@, 0) is None,
        },
{
    let w = text::chars_of(want);
    let e = text::chars_of(ext);
    let mut i: usize = 0;
    while i < assets.len()
        invariant
            i <= assets.len(),
            pass <= 1,
            w@ == want@,
            e@ == ext@,
            first_fit(assets@, pass as int, want@, ext@, 0) == first_fit(assets@, pass as int, want@, ext@, i as int),
        decreases assets.len() - i,
    {
        let a = &assets[i];
        let name = a.get("name").str_or("");
        let l = text::to_lowercase(name.as_str());
        let lc = text::chars_of(l.as_str());
        let fits = text::chars_contains(&lc, &w) && (pass == 1 || text::chars_ends_with(&lc, &e));
        if fits {
            match a.get("browser_download_url").as_str() {
                Some(u) => {
                    return Some(u.clone());
                },
                None => {},
            }
        }
        i += 1;
    }
    None
}

/// The update a release offers the running launcher (see
/// `select_update_spec`): newer than `current`, with an asset for `os`
/// (first an archive of the system's kind, then any file naming the
/// system).
pub fn select_update(release: &Json, current: &str, os: &str) -> (r: Result<(String, String, String), String>)
    ensures
        match r {
            Ok((u, t, n)) => select_update_spec(*release, current@, os@) == Ok::<(Seq<char>, Seq<char>, Seq<char>), Seq<char>>((u@, t@, n@)),
            Err(e) => select_update_spec(*release, current@, os@) == Err::<(Seq<char>, Seq<char>, Seq<char>), Seq<char>>(e@),
        },
{
    let tag = match release.get("tag_name").as_str() {
        None => {
            return Err("The release has no tag.".to_string());
        },
        Some(t) => t,
    };
    let cur = match parse_version(current) {
        None => {
            return Err("The running version cannot be read.".to_string());
        },
        Some(c) => c,
    };
    let latest = match parse_version(tag.as_str()) {
        None => {
            return Err("The release version cannot be read.".to_string());
        },
        Some(l) => l,
    };
    if latest.0 < cur.0 || (latest.0 == cur.0 && (latest.1 < cur.1 || (latest.1 == cur.1 && latest.2 <= cur.2))) {
        return Err("The launcher is up to date.".to_string());
    }
    let assets = match release.get("assets").as_array() {
        None => {
            return Err("The release has no assets.".to_string());
        },
        Some(a) => a,
    };
    let (want, ext) = if text::str_eq(os, "windows") {
        ("windows", ".zip")
    } else if text::str_eq(os, "linux") {
        ("linux", ".tar.gz")
    } else {
        let mut m = text::chars_of("Updates are not available for ");
        text::push_str(&mut m, os);
        text::push_str(&mut m, ".");
        return Err(text::string_of(&m));
    };
    let url = match find_fit(assets, 0, want, ext) {
        Some(u) => Some(u),
        None => find_fit(assets, 1, want, ext),
    };
    match url {
        Some(u) => {
            let body = release.get("body").str_or("");
            let notes = clean_release_notes(body.as_str());
            Ok((u, tag.clone(), notes))
        },
        None => {
            let mut m = text::chars_of("No update file for ");
            text::push_str(&mut m, os);
            text::push_str(&mut m, " in release ");
            text::push_str(&mut m, tag.as_str());
            text::push_str(&mut m, ".");
            Err(text::string_of(&m))
        },
    }
}

/// Versions are ordered as `(major, minor, patch)` tuples, lexicographically:
/// the order is reflexive, antisymmetric, transitive and total; a different
/// major decides alone, then a different minor, and between versions that
/// share major and minor it is the order of their patch numbers (so 0.9.0
/// comes before 0.9.1 and not after it).
pub proof fn law_version_order(a: (u64, u64, u64), b: (u64, u64, u64), c: (u64, u64, u64))
    ensures
        version_le(a, a),
        version_le(a, b) && version_le(b, a) ==> a == b,
        version_le(a, b) && version_le(b, c) ==> version_le(a, c),
        version_le(a, b) || version_le(b, a),
        a.0 != b.0 ==> (version_le(a, b) <==> a.0 < b.0),
        a.0 == b.0 && a.1 != b.1 ==> (version_le(a, b) <==> a.1 < b.1),
        a.0 == b.0 && a.1 == b.1 ==> (version_le(a, b) <==> a.2 <= b.2),
{
}

/// A release is reported as "up to date" exactly when its version is not
/// newer than the running one: when the tag and the running version both
/// read, the launcher is up to date if and only if the release's
/// `(major, minor, patch)` is not greater, lexicographically, than the
/// running one's; a newer patch, minor or major release is always taken
/// further (to its assets).
pub proof fn law_update_offered_when_newer(
    release: Json,
    current: Seq<char>,
    os: Seq<char>,
    tag: Seq<char>,
    latest: (u64, u64, u64),
    cur: (u64, u64, u64),
)
    requires
        as_str(get(release, "tag_name"@)) == Some(tag),
        parse_version_spec(tag) == Some(latest),
        parse_version_spec(current) == Some(cur),
    ensures
        (select_update_spec(release, current, os) == Err::<(Seq<char>, Seq<char>, Seq<char>), Seq<char>>(
            "The launcher is up to date."@,
        )) <==> !(latest.0 > cur.0 || (latest.0 == cur.0 && (latest.1 > cur.1 || (latest.1 == cur.1
            && latest.2 > cur.2)))),
{
    reveal_strlit("The launcher is up to date.");
    reveal_strlit("The release has no assets.");
    reveal_strlit("Updates are not available for ");
    reveal_strlit("No update file for ");
    let up: Seq<char> = "The launcher is up to date."@;
    assert(up[0] == 'T' && up[4] == 'l');
    assert("The release has no assets."@[4] == 'r');
    assert(("Updates are not available for "@ + os + "."@)[0] == 'U');
    assert(("No update file for "@ + os + " in release "@ + tag + "."@)[0] == 'N');
}

/// Authorization header for the release request from a `GITHUB_TOKEN`
/// value: only a token that is not blank, trimmed.
pub fn auth_header(token: Option<&str>) -> (r: Option<String>)
    ensures
        match token {
            Some(t) => if trim(t@).len() > 0 {
                r matches Some(h) && h@ == "Bearer "@ + trim(t@)
            } else {
                r is None
            },
            None => r is None,
        },
{
    match token {
        None => None,
        Some(t) => {
            let c = text::chars_of(t);
            let tr = text::chars_trim(&c);
            if tr.len() == 0 {
                None
            } else {
                let mut h = text::chars_of("Bearer ");
                text::push_chars(&mut h, &tr);
                Some(text::string_of(&h))
            }
        },
    }
}

} // verus!

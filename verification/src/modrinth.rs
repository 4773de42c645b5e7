//! Modrinth catalog: what the launcher asks the public API and what it
//! keeps from the answers, which published file suits an instance, and
//! the record of installed mods kept next to them.
use vstd::prelude::*;
use crate::json::{Json, get, at, as_str, as_array, as_object, as_u64, as_bool, is_text};
use crate::text;
use crate::text::{trim, ends_with, string_views};
use crate::downloader::str_or;

verus! {

/// Short mod info for the store list.
#[derive(Debug, Clone, Default)]
pub struct ModSummary {
    pub id: String,
    pub slug: String,
    pub title: String,
    pub description: String,
    pub icon_url: String,
    pub downloads: u64,
}

/// Full mod info for the mod page.
#[derive(Debug, Clone, Default)]
pub struct ModDetail {
    pub id: String,
    pub slug: String,
    pub title: String,
    pub description: String,
    pub icon_url: String,
    pub downloads: u64,
}

/// One published file of a mod.
#[derive(Debug, Clone, Default)]
pub struct ModVersion {
    pub id: String,
    pub version_number: String,
    pub loaders: Vec<String>,
    pub game_versions: Vec<String>,
    pub file_url: String,
    pub filename: String,
    pub dependencies: Vec<ModDependency>,
}

/// One dependency of a version. `project_id` is `None` when Modrinth
/// cannot map it.
#[derive(Debug, Clone, Default)]
pub struct ModDependency {
    pub project_id: Option<String>,
    pub dependency_type: String,
}

/// One installed mod recorded next to the instance's mods.
#[derive(Debug, Clone)]
pub struct InstalledMod {
    pub project_id: String,
    pub slug: String,
    pub title: String,
    pub icon_url: String,
    pub version_id: String,
    pub version_number: String,
    pub filename: String,
}

/// Plain-text form of an installed mod record.
pub type ModRecord = (Seq<char>, Seq<char>, Seq<char>, Seq<char>, Seq<char>, Seq<char>, Seq<char>);

impl View for InstalledMod {
    type V = ModRecord;

    open spec fn view(&self) -> ModRecord {
        (self.project_id@, self.slug@, self.title@, self.icon_url@, self.version_id@, self.version_number@, self.filename@)
    }
}

pub open spec fn mod_views(v: Seq<InstalledMod>) -> Seq<ModRecord> {
    v.map_values(|m: InstalledMod| m@)
}

// ---------------------------------------------------------------------
// Compatibility
// ---------------------------------------------------------------------

pub open spec fn has_text(v: Seq<String>, t: Seq<char>) -> bool {
    exists|i: int| 0 <= i < v.len() && #[trigger] v[i]@ == t
}

pub open spec fn is_compatible_spec(v: ModVersion, loader: Seq<char>, mc: Seq<char>) -> bool {
    &&& loader.len() > 0
    &&& has_text(v.loaders@, loader)
    &&& mc.len() == 0 || has_text(v.game_versions@, mc)
}

fn contains_text(v: &Vec<String>, t: &str) -> (r: bool)
    ensures
        r == has_text(v@, t@),
{
    let mut i: usize = 0;
    while i < v.len()
        invariant
            i <= v.len(),
            forall|j: int| 0 <= j < i ==> #[trigger] v@[j]@ != t@,
        decreases v.len() - i,
    {
        if text::str_eq(v[i].as_str(), t) {
            return true;
        }
        i += 1;
    }
    false
}

/// Compatibility rule: the version lists the loader (which must be
/// given), and, when the instance's Minecraft version is known, that
/// version too.
pub fn is_compatible(v: &ModVersion, loader: &str, mc: &str) -> (r: bool)
    ensures
        r == is_compatible_spec(*v, loader@, mc@),
{
    if loader.unicode_len() == 0 || !contains_text(&v.loaders, loader) {
        return false;
    }
    if mc.unicode_len() != 0 && !contains_text(&v.game_versions, mc) {
        return false;
    }
    true
}

/// Position of the first compatible version at or after `k`.
pub open spec fn first_compatible_from(vs: Seq<ModVersion>, loader: Seq<char>, mc: Seq<char>, k: int) -> Option<int>
    decreases vs.len() - k,
{
    if k < 0 || k >= vs.len() {
        None
    } else if is_compatible_spec(vs[k], loader, mc) {
        Some(k)
    } else {
        first_compatible_from(vs, loader, mc, k + 1)
    }
}

pub open spec fn first_compatible(vs: Seq<ModVersion>, loader: Seq<char>, mc: Seq<char>) -> Option<int> {
    first_compatible_from(vs, loader, mc, 0)
}

/// Newest compatible version: the first compatible one of a list that is
/// newest first.
pub fn latest_compatible<'a>(versions: &'a [ModVersion], loader: &str, mc: &str) -> (r: Option<&'a ModVersion>)
    ensures
        match first_compatible(versions@, loader@, mc@) {
            Some(i) => r == Some(&versions@[i]),
            None => r is None,
        },
{
    let mut i: usize = 0;
    while i < versions.len()
        invariant
            i <= versions.len(),
            first_compatible(versions@, loader@, mc@) == first_compatible_from(versions@, loader@, mc@, i as int),
        decreases versions.len() - i,
    {
        if is_compatible(&versions[i], loader, mc) {
            return Some(&versions[i]);
        }
        i += 1;
    }
    None
}

pub proof fn lemma_first_compatible_bounds(vs: Seq<ModVersion>, loader: Seq<char>, mc: Seq<char>, k: int)
    requires
        0 <= k,
    ensures
        first_compatible_from(vs, loader, mc, k) matches Some(i) ==> k <= i < vs.len() && is_compatible_spec(vs[i], loader, mc)
            && forall|j: int| k <= j < i ==> !is_compatible_spec(#[trigger] vs[j], loader, mc),
    decreases vs.len() - k,
{
    if k < vs.len() && !is_compatible_spec(vs[k], loader, mc) {
        lemma_first_compatible_bounds(vs, loader, mc, k + 1);
    }
}

/// The version `latest_compatible` picks is compatible, and every newer
/// one in the list is not.
pub proof fn law_latest_is_first_compatible(vs: Seq<ModVersion>, loader: Seq<char>, mc: Seq<char>)
    ensures
        first_compatible(vs, loader, mc) matches Some(i) ==> 0 <= i < vs.len() && is_compatible_spec(vs[i], loader, mc)
            && forall|j: int| 0 <= j < i ==> !is_compatible_spec(#[trigger] vs[j], loader, mc),
        first_compatible(vs, loader, mc) is None ==> forall|j: int| 0 <= j < vs.len() ==> !is_compatible_spec(#[trigger] vs[j], loader, mc),
{
    lemma_first_compatible_bounds(vs, loader, mc, 0);
    if first_compatible(vs, loader, mc) is None {
        assert forall|j: int| 0 <= j < vs.len() implies !is_compatible_spec(#[trigger] vs[j], loader, mc) by {
            lemma_none_means_incompatible(vs, loader, mc, 0, j);
        }
    }
}

proof fn lemma_none_means_incompatible(vs: Seq<ModVersion>, loader: Seq<char>, mc: Seq<char>, k: int, j: int)
    requires
        0 <= k <= j < vs.len(),
        first_compatible_from(vs, loader, mc, k) is None,
    ensures
        !is_compatible_spec(vs[j], loader, mc),
    decreases j - k,
{
    if k < j {
        lemma_none_means_incompatible(vs, loader, mc, k + 1, j);
    }
}

// ---------------------------------------------------------------------
// Requests
// ---------------------------------------------------------------------

pub open spec fn api_base() -> Seq<char> {
    "https://api.modrinth.com/v2"@
}

pub open spec fn unreserved(b: u8) -> bool {
    (48 <= b <= 57) || (65 <= b <= 90) || (97 <= b <= 122) || b == 45 || b == 95 || b == 46 || b == 126
}

pub open spec fn hex_upper(n: int) -> char {
    if n < 10 {
        crate::digest::hex_digit(n)
    } else if n == 10 {
        'A'
    } else if n == 11 {
        'B'
    } else if n == 12 {
        'C'
    } else if n == 13 {
        'D'
    } else if n == 14 {
        'E'
    } else {
        'F'
    }
}

pub open spec fn encode_byte(b: u8) -> Seq<char> {
    if unreserved(b) {
        seq![b as char]
    } else {
        seq!['%', hex_upper(b as int / 16), hex_upper(b as int % 16)]
    }
}

/// Percent-encoding of bytes: unreserved ASCII kept, every other byte as
/// `%XX` in upper-case hexadecimal.
pub open spec fn encode_bytes(b: Seq<u8>) -> Seq<char>
    decreases b.len(),
{
    if b.len() == 0 {
        Seq::empty()
    } else {
        encode_bytes(b.drop_last()) + encode_byte(b.last())
    }
}

pub open spec fn encode_spec(s: Seq<char>) -> Seq<char> {
    encode_bytes(vstd::utf8::encode_utf8(s))
}

fn hex_upper_char(n: u8) -> (c: char)
    requires
        n < 16,
    ensures
        c == hex_upper(n as int),
{
    if n == 0 {
        '0'
    } else if n == 1 {
        '1'
    } else if n == 2 {
        '2'
    } else if n == 3 {
        '3'
    } else if n == 4 {
        '4'
    } else if n == 5 {
        '5'
    } else if n == 6 {
        '6'
    } else if n == 7 {
        '7'
    } else if n == 8 {
        '8'
    } else if n == 9 {
        '9'
    } else if n == 10 {
        'A'
    } else if n == 11 {
        'B'
    } else if n == 12 {
        'C'
    } else if n == 13 {
        'D'
    } else if n == 14 {
        'E'
    } else {
        'F'
    }
}

/// Percent-encoding of a query parameter over its UTF-8 bytes.
pub fn encode(s: &str) -> (r: String)
    ensures
        r@ == encode_spec(s@),
{
    let b = s.as_bytes();
    proof {
        assert(b@ == vstd::utf8::encode_utf8(s@));
    }
    let mut out: Vec<char> = Vec::new();
    let mut i: usize = 0;
    while i < b.len()
        invariant
            i <= b.len(),
            out@ == encode_bytes(b@.take(i as int)),
        decreases b.len() - i,
    {
        let x = b[i];
        assert(b@.take(i + 1).drop_last() =~= b@.take(i as int));
        assert(b@.take(i + 1).last() == x);
        let keep = (48 <= x && x <= 57) || (65 <= x && x <= 90) || (97 <= x && x <= 122) || x == 45 || x == 95
            || x == 46 || x == 126;
        let ghost before = out@;
        if keep {
            out.push(x as char);
        } else {
            out.push('%');
            out.push(hex_upper_char(x / 16));
            out.push(hex_upper_char(x % 16));
        }
        assert(out@ =~= before + encode_byte(x));
        i += 1;
    }
    assert(b@.take(b.len() as int) =~= b@);
    text::string_of(&out)
}

pub open spec fn search_url_spec(query: Seq<char>) -> Seq<char> {
    let index = if trim(query).len() == 0 {
        "downloads"@
    } else {
        "relevance"@
    };
    api_base() + "/search?query="@ + encode_spec(query) + "&limit=25&index="@ + index
        + "&facets=%5B%5B%22project_type%3Amod%22%5D%5D"@
}

/// Search request: 25 mods matching `query`, by relevance, or the most
/// downloaded mods when the query is blank.
pub fn search_url(query: &str) -> (r: String)
    ensures
        r@ == search_url_spec(query@),
{
    let q = text::chars_of(query);
    let t = text::chars_trim(&q);
    let mut u = text::chars_of("https://api.modrinth.com/v2/search?query=");
    let e = encode(query);
    text::push_str(&mut u, e.as_str());
    text::push_str(&mut u, "&limit=25&index=");
    if t.len() == 0 {
        text::push_str(&mut u, "downloads");
    } else {
        text::push_str(&mut u, "relevance");
    }
    text::push_str(&mut u, "&facets=%5B%5B%22project_type%3Amod%22%5D%5D");
    proof {
        reveal_strlit("https://api.modrinth.com/v2/search?query=");
        reveal_strlit("https://api.modrinth.com/v2");
        reveal_strlit("/search?query=");
        assert("https://api.modrinth.com/v2/search?query="@ =~= api_base() + "/search?query="@);
    }
    assert(u@ =~= search_url_spec(query@));
    text::string_of(&u)
}

/// Project request by id or slug.
pub fn project_url(id: &str) -> (r: String)
    ensures
        r@ == api_base() + "/project/"@ + id@,
{
    let mut u = text::chars_of("https://api.modrinth.com/v2");
    text::push_str(&mut u, "/project/");
    text::push_str(&mut u, id);
    text::string_of(&u)
}

/// Request of the newest 60 versions of a project.
pub fn versions_url(project_id: &str) -> (r: String)
    ensures
        r@ == api_base() + "/project/"@ + project_id@ + "/version?limit=60"@,
{
    let mut u = text::chars_of("https://api.modrinth.com/v2");
    text::push_str(&mut u, "/project/");
    text::push_str(&mut u, project_id);
    text::push_str(&mut u, "/version?limit=60");
    text::string_of(&u)
}

pub open spec fn quoted_ids(ids: Seq<String>) -> Seq<Seq<char>> {
    ids.map_values(|s: String| "\""@ + s@ + "\""@)
}

/// Request of the titles of several projects at once; none for no ids.
pub fn titles_url(ids: &Vec<String>) -> (r: Option<String>)
    ensures
        ids@.len() == 0 ==> r is None,
        ids@.len() > 0 ==> (r matches Some(u) && u@ == api_base() + "/projects?ids="@ + encode_spec("["@ + text::join(quoted_ids(ids@), ","@) + "]"@)),
{
    if ids.len() == 0 {
        return None;
    }
    let mut q: Vec<Vec<char>> = Vec::new();
    let mut i: usize = 0;
    while i < ids.len()
        invariant
            i <= ids.len(),
            text::views(q@) == quoted_ids(ids@).take(i as int),
        decreases ids.len() - i,
    {
        let mut x = text::chars_of("\"");
        text::push_str(&mut x, ids[i].as_str());
        text::push_str(&mut x, "\"");
        let ghost o = text::views(q@);
        q.push(x);
        assert(text::views(q@) =~= o.push(x@));
        assert(quoted_ids(ids@).take(i + 1) =~= quoted_ids(ids@).take(i as int).push("\""@ + ids@[i as int]@ + "\""@));
        i += 1;
    }
    assert(quoted_ids(ids@).take(ids.len() as int) =~= quoted_ids(ids@));
    let joined = text::join_chars(&q, ",");
    let mut body = text::chars_of("[");
    text::push_chars(&mut body, &joined);
    text::push_str(&mut body, "]");
    let bs = text::string_of(&body);
    let mut u = text::chars_of("https://api.modrinth.com/v2");
    text::push_str(&mut u, "/projects?ids=");
    let e = encode(bs.as_str());
    text::push_str(&mut u, e.as_str());
    Some(text::string_of(&u))
}

// ---------------------------------------------------------------------
// Answers
// ---------------------------------------------------------------------

/// Plain form of a summary or a project: id, slug, title, description,
/// icon URL, downloads.
pub type ModInfo = (Seq<char>, Seq<char>, Seq<char>, Seq<char>, Seq<char>, u64);

pub open spec fn summary_view(m: ModSummary) -> ModInfo {
    (m.id@, m.slug@, m.title@, m.description@, m.icon_url@, m.downloads)
}

pub open spec fn detail_view(m: ModDetail) -> ModInfo {
    (m.id@, m.slug@, m.title@, m.description@, m.icon_url@, m.downloads)
}

pub open spec fn u64_or_zero(j: Json) -> u64 {
    match as_u64(j) {
        Some(n) => n,
        None => 0,
    }
}

pub open spec fn hit_id(h: Json) -> Seq<char> {
    match as_str(get(h, "project_id"@)) {
        Some(s) => s,
        None => str_or(get(h, "slug"@), ""@),
    }
}

pub open spec fn info_of(h: Json, id: Seq<char>) -> ModInfo {
    (
        id,
        str_or(get(h, "slug"@), ""@),
        str_or(get(h, "title"@), "?"@),
        str_or(get(h, "description"@), ""@),
        str_or(get(h, "icon_url"@), ""@),
        u64_or_zero(get(h, "downloads"@)),
    )
}

/// Search hits with an id (project id, else slug), in answer order.
pub open spec fn summaries(hits: Seq<Json>) -> Seq<ModInfo>
    decreases hits.len(),
{
    if hits.len() == 0 {
        Seq::empty()
    } else {
        let r = summaries(hits.drop_last());
        if hit_id(hits.last()).len() == 0 {
            r
        } else {
            r.push(info_of(hits.last(), hit_id(hits.last())))
        }
    }
}

pub open spec fn search_results_spec(resp: Json) -> Seq<ModInfo> {
    match as_array(get(resp, "hits"@)) {
        Some(h) => summaries(h),
        None => Seq::empty(),
    }
}

fn u64_or_zero_of(j: &Json) -> (r: u64)
    ensures
        r == u64_or_zero(*j),
{
    match j.as_u64() {
        Some(n) => n,
        None => 0,
    }
}

/// The mods of a search answer (see `summaries`).
pub fn search_results(resp: &Json) -> (r: Vec<ModSummary>)
    ensures
        r@.map_values(|m: ModSummary| summary_view(m)) == search_results_spec(*resp),
{
    let mut out: Vec<ModSummary> = Vec::new();
    match resp.get("hits").as_array() {
        None => {
            assert(out@.map_values(|m: ModSummary| summary_view(m)) =~= Seq::<ModInfo>::empty());
            out
        },
        Some(hits) => {
            let mut i: usize = 0;
            assert(hits@.take(0) =~= Seq::<Json>::empty());
            assert(out@.map_values(|m: ModSummary| summary_view(m)) =~= Seq::<ModInfo>::empty());
            while i < hits.len()
                invariant
                    i <= hits.len(),
                    out@.map_values(|m: ModSummary| summary_view(m)) == summaries(hits@.take(i as int)),
                decreases hits.len() - i,
            {
                assert(hits@.take(i + 1).drop_last() =~= hits@.take(i as int));
                let h = &hits[i];
                let id = match h.get("project_id").as_str() {
                    Some(s) => s.clone(),
                    None => h.get("slug").str_or(""),
                };
                if id.unicode_len() != 0 {
                    let m = ModSummary {
                        id,
                        slug: h.get("slug").str_or(""),
                        title: h.get("title").str_or("?"),
                        description: h.get("description").str_or(""),
                        icon_url: h.get("icon_url").str_or(""),
                        downloads: u64_or_zero_of(h.get("downloads")),
                    };
                    let ghost o = out@;
                    out.push(m);
                    assert(out@.map_values(|m: ModSummary| summary_view(m)) =~= o.map_values(|m: ModSummary| summary_view(m)).push(summary_view(m)));
                }
                i += 1;
            }
            assert(hits@.take(hits.len() as int) =~= hits@);
            out
        },
    }
}

pub open spec fn project_spec(resp: Json, id: Seq<char>) -> Result<ModInfo, Seq<char>> {
    match as_str(get(resp, "id"@)) {
        None => Err("Mod not found: "@ + str_or(get(resp, "description"@), id)),
        Some(pid) => Ok(info_of(resp, pid)),
    }
}

/// The project of a project answer; an answer without an id is a
/// "not found" error carrying the answer's description (or the id asked
/// for).
pub fn project_from(resp: &Json, id: &str) -> (r: Result<ModDetail, String>)
    ensures
        match r {
            Ok(d) => project_spec(*resp, id@) == Ok::<ModInfo, Seq<char>>(detail_view(d)),
            Err(e) => project_spec(*resp, id@) == Err::<ModInfo, Seq<char>>(e@),
        },
{
    match resp.get("id").as_str() {
        None => {
            let mut m = text::chars_of("Mod not found: ");
            let d = resp.get("description").str_or(id);
            text::push_str(&mut m, d.as_str());
            Err(text::string_of(&m))
        },
        Some(pid) => Ok(ModDetail {
            id: pid.clone(),
            slug: resp.get("slug").str_or(""),
            title: resp.get("title").str_or("?"),
            description: resp.get("description").str_or(""),
            icon_url: resp.get("icon_url").str_or(""),
            downloads: u64_or_zero_of(resp.get("downloads")),
        }),
    }
}

/// The string elements of an array, in order.
pub open spec fn strs_of(a: Seq<Json>) -> Seq<Seq<char>>
    decreases a.len(),
{
    if a.len() == 0 {
        Seq::empty()
    } else {
        let r = strs_of(a.drop_last());
        match as_str(a.last()) {
            Some(s) => r.push(s),
            None => r,
        }
    }
}

pub open spec fn str_list(j: Json) -> Seq<Seq<char>> {
    match as_array(j) {
        Some(a) => strs_of(a),
        None => Seq::empty(),
    }
}

fn str_list_of(j: &Json) -> (r: Vec<String>)
    ensures
        string_views(r@) == str_list(*j),
{
    let mut out: Vec<String> = Vec::new();
    match j.as_array() {
        None => {
            assert(string_views(out@) =~= Seq::<Seq<char>>::empty());
            out
        },
        Some(a) => {
            let mut i: usize = 0;
            assert(a@.take(0) =~= Seq::<Json>::empty());
            assert(string_views(out@) =~= Seq::<Seq<char>>::empty());
            while i < a.len()
                invariant
                    i <= a.len(),
                    string_views(out@) == strs_of(a@.take(i as int)),
                decreases a.len() - i,
            {
                assert(a@.take(i + 1).drop_last() =~= a@.take(i as int));
                match a[i].as_str() {
                    Some(s) => {
                        let ghost o = string_views(out@);
                        out.push(s.clone());
                        assert(string_views(out@) =~= o.push(s@));
                    },
                    None => {},
                }
                i += 1;
            }
            assert(a@.take(a.len() as int) =~= a@);
            out
        },
    }
}

pub open spec fn first_primary_from(files: Seq<Json>, k: int) -> Option<int>
    decreases files.len() - k,
{
    if k < 0 || k >= files.len() {
        None
    } else if as_bool(get(files[k], "primary"@)) == Some(true) {
        Some(k)
    } else {
        first_primary_from(files, k + 1)
    }
}

/// The file a version installs: the first primary one, else the first.
pub open spec fn chosen_file(files: Seq<Json>) -> Option<Json> {
    match first_primary_from(files, 0) {
        Some(i) => Some(files[i]),
        None => if files.len() > 0 {
            Some(files[0])
        } else {
            None
        },
    }
}

pub proof fn lemma_first_primary_bounds(files: Seq<Json>, k: int)
    requires
        0 <= k,
    ensures
        first_primary_from(files, k) matches Some(i) ==> k <= i < files.len(),
    decreases files.len() - k,
{
    if k < files.len() && as_bool(get(files[k], "primary"@)) != Some(true) {
        lemma_first_primary_bounds(files, k + 1);
    }
}

fn chosen_file_of(files: &Vec<Json>) -> (r: Option<&Json>)
    ensures
        match chosen_file(files@) {
            Some(f) => r == Some(&f),
            None => r is None,
        },
{
    let mut i: usize = 0;
    proof {
        lemma_first_primary_bounds(files@, 0);
    }
    while i < files.len()
        invariant
            i <= files.len(),
            first_primary_from(files@, 0) == first_primary_from(files@, i as int),
        decreases files.len() - i,
    {
        if files[i].get("primary").as_bool() == Some(true) {
            return Some(&files[i]);
        }
        i += 1;
    }
    if files.len() > 0 {
        Some(&files[0])
    } else {
        None
    }
}

pub open spec fn file_url_name(e: Json) -> (Seq<char>, Seq<char>) {
    match as_array(get(e, "files"@)) {
        Some(files) => match chosen_file(files) {
            Some(f) => (str_or(get(f, "url"@), ""@), str_or(get(f, "filename"@), ""@)),
            None => (Seq::empty(), Seq::empty()),
        },
        None => (Seq::empty(), Seq::empty()),
    }
}

/// Plain form of a dependency.
pub type DepView = (Option<Seq<char>>, Seq<char>);

pub open spec fn dep_view(d: ModDependency) -> DepView {
    (
        match d.project_id {
            Some(p) => Some(p@),
            None => None,
        },
        d.dependency_type@,
    )
}

/// Required and optional dependencies, in order.
pub open spec fn deps_of(ds: Seq<Json>) -> Seq<DepView>
    decreases ds.len(),
{
    if ds.len() == 0 {
        Seq::empty()
    } else {
        let r = deps_of(ds.drop_last());
        let t = str_or(get(ds.last(), "dependency_type"@), ""@);
        if t == "required"@ || t == "optional"@ {
            r.push((as_str(get(ds.last(), "project_id"@)), t))
        } else {
            r
        }
    }
}

/// Plain form of a version: id, number, loaders, game versions, file URL,
/// file name, dependencies.
pub type VersionView = (Seq<char>, Seq<char>, Seq<Seq<char>>, Seq<Seq<char>>, Seq<char>, Seq<char>, Seq<DepView>);

pub open spec fn version_view(v: ModVersion) -> VersionView {
    (
        v.id@,
        v.version_number@,
        string_views(v.loaders@),
        string_views(v.game_versions@),
        v.file_url@,
        v.filename@,
        v.dependencies@.map_values(|d: ModDependency| dep_view(d)),
    )
}

/// A version entry of an answer; entries without a file URL are skipped.
pub open spec fn version_entry(e: Json) -> Option<VersionView> {
    let (url, name) = file_url_name(e);
    if url.len() == 0 {
        None
    } else {
        Some(
            (
                str_or(get(e, "id"@), ""@),
                str_or(get(e, "version_number"@), "?"@),
                str_list(get(e, "loaders"@)),
                str_list(get(e, "game_versions"@)),
                url,
                name,
                match as_array(get(e, "dependencies"@)) {
                    Some(ds) => deps_of(ds),
                    None => Seq::empty(),
                },
            ),
        )
    }
}

pub open spec fn version_entries(a: Seq<Json>) -> Seq<VersionView>
    decreases a.len(),
{
    if a.len() == 0 {
        Seq::empty()
    } else {
        let r = version_entries(a.drop_last());
        match version_entry(a.last()) {
            Some(v) => r.push(v),
            None => r,
        }
    }
}

pub open spec fn versions_spec(resp: Json) -> Seq<VersionView> {
    match as_array(resp) {
        Some(a) => version_entries(a),
        None => Seq::empty(),
    }
}

fn deps_of_json(j: &Json) -> (r: Vec<ModDependency>)
    ensures
        r@.map_values(|d: ModDependency| dep_view(d)) == match as_array(*j) {
            Some(ds) => deps_of(ds),
            None => Seq::empty(),
        },
{
    let mut out: Vec<ModDependency> = Vec::new();
    match j.as_array() {
        None => {
            assert(out@.map_values(|d: ModDependency| dep_view(d)) =~= Seq::<DepView>::empty());
            out
        },
        Some(ds) => {
            let mut i: usize = 0;
            assert(ds@.take(0) =~= Seq::<Json>::empty());
            assert(out@.map_values(|d: ModDependency| dep_view(d)) =~= Seq::<DepView>::empty());
            while i < ds.len()
                invariant
                    i <= ds.len(),
                    out@.map_values(|d: ModDependency| dep_view(d)) == deps_of(ds@.take(i as int)),
                decreases ds.len() - i,
            {
                assert(ds@.take(i + 1).drop_last() =~= ds@.take(i as int));
                let t = ds[i].get("dependency_type").str_or("");
                if text::str_eq(t.as_str(), "required") || text::str_eq(t.as_str(), "optional") {
                    let pid = match ds[i].get("project_id").as_str() {
                        Some(p) => Some(p.clone()),
                        None => None,
                    };
                    let d = ModDependency { project_id: pid, dependency_type: t };
                    let ghost o = out@;
                    out.push(d);
                    assert(out@.map_values(|d: ModDependency| dep_view(d)) =~= o.map_values(|d: ModDependency| dep_view(d)).push(dep_view(d)));
                }
                i += 1;
            }
            assert(ds@.take(ds.len() as int) =~= ds@);
            out
        },
    }
}

/// The versions of a versions answer (see `version_entry`), newest first
/// as published.
pub fn versions_from(resp: &Json) -> (r: Vec<ModVersion>)
    ensures
        r@.map_values(|v: ModVersion| version_view(v)) == versions_spec(*resp),
{
    let mut out: Vec<ModVersion> = Vec::new();
    match resp.as_array() {
        None => {
            assert(out@.map_values(|v: ModVersion| version_view(v)) =~= Seq::<VersionView>::empty());
            out
        },
        Some(a) => {
            let mut i: usize = 0;
            assert(a@.take(0) =~= Seq::<Json>::empty());
            assert(out@.map_values(|v: ModVersion| version_view(v)) =~= Seq::<VersionView>::empty());
            while i < a.len()
                invariant
                    i <= a.len(),
                    out@.map_values(|v: ModVersion| version_view(v)) == version_entries(a@.take(i as int)),
                decreases a.len() - i,
            {
                assert(a@.take(i + 1).drop_last() =~= a@.take(i as int));
                let e = &a[i];
                let (file_url, filename) = match e.get("files").as_array() {
                    Some(files) => match chosen_file_of(files) {
                        Some(f) => (f.get("url").str_or(""), f.get("filename").str_or("")),
                        None => (String::new(), String::new()),
                    },
                    None => (String::new(), String::new()),
                };
                if file_url.unicode_len() != 0 {
                    let v = ModVersion {
                        id: e.get("id").str_or(""),
                        version_number: e.get("version_number").str_or("?"),
                        loaders: str_list_of(e.get("loaders")),
                        game_versions: str_list_of(e.get("game_versions")),
                        file_url,
                        filename,
                        dependencies: deps_of_json(e.get("dependencies")),
                    };
                    let ghost o = out@;
                    out.push(v);
                    assert(out@.map_values(|v: ModVersion| version_view(v)) =~= o.map_values(|v: ModVersion| version_view(v)).push(version_view(v)));
                }
                i += 1;
            }
            assert(a@.take(a.len() as int) =~= a@);
            out
        },
    }
}

// ---------------------------------------------------------------------
// Keyed records
// ---------------------------------------------------------------------

/// The map a list of keyed entries stands for: a later entry replaces an
/// earlier one with the same key.
pub open spec fn assoc_map<V>(s: Seq<(Seq<char>, V)>) -> Map<Seq<char>, V>
    decreases s.len(),
{
    if s.len() == 0 {
        Map::empty()
    } else {
        assoc_map(s.drop_last()).insert(s.last().0, s.last().1)
    }
}

pub open spec fn keys_distinct<V>(s: Seq<(Seq<char>, V)>) -> bool {
    forall|i: int, j: int| 0 <= i < j < s.len() ==> #[trigger] s[i].0 != #[trigger] s[j].0
}

pub proof fn lemma_assoc_dom<V>(s: Seq<(Seq<char>, V)>, key: Seq<char>)
    ensures
        assoc_map(s).dom().contains(key) <==> exists|i: int| 0 <= i < s.len() && #[trigger] s[i].0 == key,
    decreases s.len(),
{
    if s.len() > 0 {
        lemma_assoc_dom(s.drop_last(), key);
        if exists|i: int| 0 <= i < s.len() && #[trigger] s[i].0 == key {
            let i = choose|i: int| 0 <= i < s.len() && #[trigger] s[i].0 == key;
            if i < s.len() - 1 {
                assert(s.drop_last()[i].0 == key);
            }
        }
        if exists|i: int| 0 <= i < s.len() - 1 && #[trigger] s.drop_last()[i].0 == key {
            let i = choose|i: int| 0 <= i < s.len() - 1 && #[trigger] s.drop_last()[i].0 == key;
            assert(s[i].0 == key);
        }
    }
}

pub proof fn lemma_assoc_at<V>(s: Seq<(Seq<char>, V)>, i: int)
    requires
        keys_distinct(s),
        0 <= i < s.len(),
    ensures
        assoc_map(s).dom().contains(s[i].0),
        assoc_map(s)[s[i].0] == s[i].1,
    decreases s.len(),
{
    if i < s.len() - 1 {
        let d = s.drop_last();
        assert(keys_distinct(d)) by {
            assert forall|a: int, b: int| 0 <= a < b < d.len() implies #[trigger] d[a].0 != #[trigger] d[b].0 by {
                assert(d[a] == s[a] && d[b] == s[b]);
            }
        }
        assert(d[i] == s[i]);
        lemma_assoc_at(d, i);
        assert(s[i].0 != s.last().0);
    }
}

pub proof fn lemma_assoc_update<V>(s: Seq<(Seq<char>, V)>, k: int, v: V)
    requires
        keys_distinct(s),
        0 <= k < s.len(),
    ensures
        keys_distinct(s.update(k, (s[k].0, v))),
        assoc_map(s.update(k, (s[k].0, v))) == assoc_map(s).insert(s[k].0, v),
    decreases s.len(),
{
    let t = s.update(k, (s[k].0, v));
    assert forall|a: int, b: int| 0 <= a < b < t.len() implies #[trigger] t[a].0 != #[trigger] t[b].0 by {
        assert(t[a].0 == s[a].0 && t[b].0 == s[b].0);
    }
    let d = s.drop_last();
    assert(keys_distinct(d)) by {
        assert forall|a: int, b: int| 0 <= a < b < d.len() implies #[trigger] d[a].0 != #[trigger] d[b].0 by {
            assert(d[a] == s[a] && d[b] == s[b]);
        }
    }
    if k == s.len() - 1 {
        assert(t.drop_last() =~= d);
        assert(assoc_map(t) =~= assoc_map(s).insert(s[k].0, v));
    } else {
        lemma_assoc_update(d, k, v);
        assert(t.drop_last() =~= d.update(k, (d[k].0, v)));
        assert(s[k].0 != s.last().0);
        assert(assoc_map(t) =~= assoc_map(s).insert(s[k].0, v));
    }
}

pub proof fn lemma_assoc_push<V>(s: Seq<(Seq<char>, V)>, key: Seq<char>, v: V)
    requires
        keys_distinct(s),
        forall|i: int| 0 <= i < s.len() ==> #[trigger] s[i].0 != key,
    ensures
        keys_distinct(s.push((key, v))),
        assoc_map(s.push((key, v))) == assoc_map(s).insert(key, v),
{
    let t = s.push((key, v));
    assert(t.drop_last() =~= s);
    assert forall|a: int, b: int| 0 <= a < b < t.len() implies #[trigger] t[a].0 != #[trigger] t[b].0 by {
        if b == s.len() {
            assert(t[a] == s[a]);
        } else {
            assert(t[a] == s[a] && t[b] == s[b]);
        }
    }
}

pub proof fn lemma_assoc_remove<V>(s: Seq<(Seq<char>, V)>, k: int)
    requires
        keys_distinct(s),
        0 <= k < s.len(),
    ensures
        keys_distinct(s.remove(k)),
        assoc_map(s.remove(k)) == assoc_map(s).remove(s[k].0),
    decreases s.len(),
{
    let t = s.remove(k);
    assert forall|a: int, b: int| 0 <= a < b < t.len() implies #[trigger] t[a].0 != #[trigger] t[b].0 by {
        let a2 = if a < k { a } else { a + 1 };
        let b2 = if b < k { b } else { b + 1 };
        assert(t[a] == s[a2] && t[b] == s[b2]);
    }
    let d = s.drop_last();
    assert(keys_distinct(d)) by {
        assert forall|a: int, b: int| 0 <= a < b < d.len() implies #[trigger] d[a].0 != #[trigger] d[b].0 by {
            assert(d[a] == s[a] && d[b] == s[b]);
        }
    }
    if k == s.len() - 1 {
        assert(t =~= d);
        assert(!assoc_map(d).dom().contains(s[k].0)) by {
            lemma_assoc_dom(d, s[k].0);
            if exists|i: int| 0 <= i < d.len() && #[trigger] d[i].0 == s[k].0 {
                let i = choose|i: int| 0 <= i < d.len() && #[trigger] d[i].0 == s[k].0;
                assert(s[i].0 == s[k].0);
            }
        }
        assert(assoc_map(t) =~= assoc_map(s).remove(s[k].0));
    } else {
        lemma_assoc_remove(d, k);
        assert(t.drop_last() =~= d.remove(k));
        assert(t.last() == s.last());
        assert(s[k].0 != s.last().0);
        assert(assoc_map(t) =~= assoc_map(s).remove(s[k].0));
    }
}

// ---------------------------------------------------------------------
// Project titles
// ---------------------------------------------------------------------

pub open spec fn title_pairs(arr: Seq<Json>) -> Seq<(Seq<char>, (Seq<char>, Seq<char>))>
    decreases arr.len(),
{
    if arr.len() == 0 {
        Seq::empty()
    } else {
        let r = title_pairs(arr.drop_last());
        let p = arr.last();
        match as_str(get(p, "id"@)) {
            Some(id) => r.push((id, (str_or(get(p, "slug"@), ""@), str_or(get(p, "title"@), id)))),
            None => r,
        }
    }
}

pub open spec fn titles_spec(resp: Json) -> Map<Seq<char>, (Seq<char>, Seq<char>)> {
    match resp {
        Json::Array(a) => assoc_map(title_pairs(a@)),
        _ => Map::empty(),
    }
}

pub open spec fn title_entries(v: Seq<(String, (String, String))>) -> Seq<(Seq<char>, (Seq<char>, Seq<char>))> {
    v.map_values(|e: (String, (String, String))| (e.0@, (e.1.0@, e.1.1@)))
}

/// `id -> (slug, title)` of a titles answer, one entry per id (a later
/// entry for the same id wins); the title defaults to the id.
pub fn titles_from(resp: &Json) -> (r: Vec<(String, (String, String))>)
    ensures
        keys_distinct(title_entries(r@)),
        assoc_map(title_entries(r@)) == titles_spec(*resp),
{
    let mut out: Vec<(String, (String, String))> = Vec::new();
    assert(title_entries(out@) =~= Seq::<(Seq<char>, (Seq<char>, Seq<char>))>::empty());
    match resp {
        Json::Array(a) => {
            let mut i: usize = 0;
            assert(a@.take(0) =~= Seq::<Json>::empty());
            while i < a.len()
                invariant
                    i <= a.len(),
                    keys_distinct(title_entries(out@)),
                    assoc_map(title_entries(out@)) == assoc_map(title_pairs(a@.take(i as int))),
                decreases a.len() - i,
            {
                assert(a@.take(i + 1).drop_last() =~= a@.take(i as int));
                let p = &a[i];
                match p.get("id").as_str() {
                    Some(id) => {
                        let slug = p.get("slug").str_or("");
                        let title = p.get("title").str_or(id.as_str());
                        let ghost o = title_entries(out@);
                        proof {
                            let tp = title_pairs(a@.take(i + 1));
                            assert(tp == title_pairs(a@.take(i as int)).push((id@, (slug@, title@))));
                            assert(tp.drop_last() =~= title_pairs(a@.take(i as int)));
                            assert(assoc_map(tp) == assoc_map(title_pairs(a@.take(i as int))).insert(id@, (slug@, title@)));
                        }
                        let mut k: usize = 0;
                        while k < out.len() && !text::str_eq(out[k].0.as_str(), id.as_str())
                            invariant
                                k <= out.len(),
                                o == title_entries(out@),
                                forall|m: int| 0 <= m < k ==> #[trigger] o[m].0 != id@,
                            decreases out.len() - k,
                        {
                            k += 1;
                        }
                        if k < out.len() {
                            proof {
                                lemma_assoc_update(o, k as int, (slug@, title@));
                            }
                            out.set(k, (id.clone(), (slug, title)));
                            assert(title_entries(out@) =~= o.update(k as int, (o[k as int].0, (slug@, title@))));
                        } else {
                            proof {
                                lemma_assoc_push(o, id@, (slug@, title@));
                            }
                            out.push((id.clone(), (slug, title)));
                            assert(title_entries(out@) =~= o.push((id@, (slug@, title@))));
                        }
                    },
                    None => {
                        assert(title_pairs(a@.take(i + 1)) == title_pairs(a@.take(i as int)));
                    },
                }
                i += 1;
            }
            assert(a@.take(a.len() as int) =~= a@);
            out
        },
        _ => out,
    }
}

// ---------------------------------------------------------------------
// Installed mods
// ---------------------------------------------------------------------

pub open spec fn name_seps() -> Seq<char> {
    seq!['/', '\\']
}

pub open spec fn safe_filename_spec(name: Seq<char>) -> Option<Seq<char>> {
    let n = trim(text::split(name, name_seps()).last());
    if n.len() == 0 || n == "."@ || n == ".."@ || !ends_with(n, ".jar"@) {
        None
    } else {
        Some(n)
    }
}

/// A file name from outside that is safe to write into `mods/`: the last
/// path component, trimmed, and only when it is a `.jar` and not `.` or
/// `..`.
pub fn safe_filename(name: &str) -> (r: Option<String>)
    ensures
        match r {
            Some(n) => safe_filename_spec(name@) == Some(n@),
            None => safe_filename_spec(name@) is None,
        },
{
    let c = text::chars_of(name);
    let seps = vec!['/', '\\'];
    assert(seps@ =~= name_seps());
    let parts = text::chars_split(&c, &seps);
    proof {
        text::lemma_split_nonempty(c@, seps@);
    }
    let last = &parts[parts.len() - 1];
    let n = text::chars_trim(last);
    let ns = text::string_of(&n);
    if n.len() == 0 || text::str_eq(ns.as_str(), ".") || text::str_eq(ns.as_str(), "..")
        || !text::chars_ends_with(&n, &text::chars_of(".jar")) {
        None
    } else {
        Some(ns)
    }
}

/// A name `safe_filename` accepts is accepted unchanged.
pub proof fn law_safe_filename_idempotent(name: Seq<char>)
    ensures
        safe_filename_spec(name) matches Some(n) ==> safe_filename_spec(n) == Some(n),
{
    if let Some(n) = safe_filename_spec(name) {
        let piece = text::split(name, name_seps()).last();
        text::lemma_split_last_free(name, name_seps());
        text::lemma_trim_free(piece, name_seps());
        text::lemma_split_free(n, name_seps());
        text::law_trim_idempotent(piece);
        assert(text::split(n, name_seps()).last() == n);
    }
}

pub open spec fn mods_dir_spec(mc_dir: Seq<char>, version_id: Seq<char>) -> Seq<char> {
    crate::instances::instance_dir_spec(mc_dir, version_id) + "/mods"@
}

/// The instance's `mods` folder.
pub fn mods_dir(mc_dir: &str, version_id: &str) -> (r: String)
    ensures
        r@ == mods_dir_spec(mc_dir@, version_id@),
{
    let mut d = text::chars_of(crate::instances::game_instance_dir_for_version(mc_dir, version_id).as_str());
    text::push_str(&mut d, "/mods");
    text::string_of(&d)
}

/// The record of installed mods of an instance.
pub fn sidecar_path(mc_dir: &str, version_id: &str) -> (r: String)
    ensures
        r@ == mods_dir_spec(mc_dir@, version_id@) + "/.dgrlauncher_mods.json"@,
{
    let mut d = text::chars_of(mods_dir(mc_dir, version_id).as_str());
    text::push_str(&mut d, "/.dgrlauncher_mods.json");
    text::string_of(&d)
}

pub open spec fn mods_assoc(v: Seq<InstalledMod>) -> Seq<(Seq<char>, ModRecord)> {
    v.map_values(|m: InstalledMod| (m.project_id@, m@))
}

/// The jar a record entry names, when it is a safe file name.
pub open spec fn sidecar_file(e: Json) -> Option<Seq<char>> {
    match as_str(get(e, "filename"@)) {
        Some(n) => safe_filename_spec(n),
        None => None,
    }
}

pub open spec fn record_of(pid: Seq<char>, e: Json, filename: Seq<char>) -> ModRecord {
    (
        pid,
        str_or(get(e, "slug"@), ""@),
        str_or(get(e, "title"@), pid),
        str_or(get(e, "icon_url"@), ""@),
        str_or(get(e, "version_id"@), ""@),
        str_or(get(e, "version_number"@), "?"@),
        filename,
    )
}

/// Entries of the record whose jar is named safely and is on disk
/// (`present[i]` for entry `i`).
pub open spec fn installed_entries(entries: Seq<(String, Json)>, present: Seq<bool>) -> Seq<(Seq<char>, ModRecord)>
    decreases entries.len(),
{
    if entries.len() == 0 {
        Seq::empty()
    } else {
        let r = installed_entries(entries.drop_last(), present);
        let k = entries.last().0@;
        let e = entries.last().1;
        match sidecar_file(e) {
            Some(f) => if present[entries.len() - 1] {
                r.push((k, record_of(k, e, f)))
            } else {
                r
            },
            None => r,
        }
    }
}

/// `project_id -> record` of an instance; anything but an object records
/// nothing.
pub open spec fn installed_spec(v: Json, present: Seq<bool>) -> Map<Seq<char>, ModRecord> {
    match as_object(v) {
        Some(e) => assoc_map(installed_entries(e, present)),
        None => Map::empty(),
    }
}

/// The jar each record entry names (`None` when unsafe or missing), in
/// entry order: the caller tells which of them are on disk.
pub fn sidecar_files(v: &Json) -> (r: Vec<Option<String>>)
    ensures
        match as_object(*v) {
            Some(e) => r@.len() == e.len() && forall|i: int| 0 <= i < e.len() ==> match #[trigger] r@[i] {
                Some(f) => sidecar_file(e[i].1) == Some(f@),
                None => sidecar_file(e[i].1) is None,
            },
            None => r@.len() == 0,
        },
{
    let mut out: Vec<Option<String>> = Vec::new();
    match v.as_object() {
        None => out,
        Some(e) => {
            let mut i: usize = 0;
            while i < e.len()
                invariant
                    i <= e.len(),
                    out@.len() == i,
                    forall|j: int| 0 <= j < i ==> match #[trigger] out@[j] {
                        Some(f) => sidecar_file(e@[j].1) == Some(f@),
                        None => sidecar_file(e@[j].1) is None,
                    },
                decreases e.len() - i,
            {
                let f = match e[i].1.get("filename").as_str() {
                    Some(n) => safe_filename(n.as_str()),
                    None => None,
                };
                out.push(f);
                i += 1;
            }
            out
        },
    }
}

/// A copy of a record.
pub fn copy_mod(m: &InstalledMod) -> (r: InstalledMod)
    ensures
        r@ == m@,
{
    InstalledMod {
        project_id: m.project_id.clone(),
        slug: m.slug.clone(),
        title: m.title.clone(),
        icon_url: m.icon_url.clone(),
        version_id: m.version_id.clone(),
        version_number: m.version_number.clone(),
        filename: m.filename.clone(),
    }
}

fn upsert_mod(list: &mut Vec<InstalledMod>, m: InstalledMod)
    requires
        keys_distinct(mods_assoc(old(list)@)),
    ensures
        keys_distinct(mods_assoc(final(list)@)),
        assoc_map(mods_assoc(final(list)@)) == assoc_map(mods_assoc(old(list)@)).insert(m.project_id@, m@),
{
    let ghost o = mods_assoc(list@);
    let mut k: usize = 0;
    while k < list.len() && !text::str_eq(list[k].project_id.as_str(), m.project_id.as_str())
        invariant
            k <= list.len(),
            o == mods_assoc(list@),
            forall|j: int| 0 <= j < k ==> #[trigger] o[j].0 != m.project_id@,
        decreases list.len() - k,
    {
        k += 1;
    }
    if k < list.len() {
        proof {
            lemma_assoc_update(o, k as int, m@);
        }
        let ghost before = list@;
        list.set(k, m);
        assert(mods_assoc(list@) =~= o.update(k as int, (o[k as int].0, o.update(k as int, (o[k as int].0, m@))[k as int].1)));
    } else {
        proof {
            lemma_assoc_push(o, m.project_id@, m@);
        }
        list.push(m);
        assert(mods_assoc(list@) =~= o.push((m.project_id@, m@)));
    }
}

/// Installed mods of an instance from its record and which jars are on
/// disk (`present[i]` for entry `i` of the record): one entry per
/// project; entries without a safe jar name or without their jar are
/// left out, and a missing title falls back to the project id.
pub fn installed_mods(v: &Json, present: &Vec<bool>) -> (r: Vec<InstalledMod>)
    requires
        as_object(*v) matches Some(e) ==> present@.len() == e.len(),
    ensures
        keys_distinct(mods_assoc(r@)),
        assoc_map(mods_assoc(r@)) == installed_spec(*v, present@),
{
    let mut out: Vec<InstalledMod> = Vec::new();
    assert(mods_assoc(out@) =~= Seq::<(Seq<char>, ModRecord)>::empty());
    match v.as_object() {
        None => out,
        Some(e) => {
            let mut i: usize = 0;
            assert(e@.take(0) =~= Seq::<(String, Json)>::empty());
            while i < e.len()
                invariant
                    i <= e.len(),
                    present@.len() == e@.len(),
                    keys_distinct(mods_assoc(out@)),
                    assoc_map(mods_assoc(out@)) == assoc_map(installed_entries(e@.take(i as int), present@)),
                decreases e.len() - i,
            {
                let ghost t1 = e@.take(i + 1);
                assert(t1.drop_last() =~= e@.take(i as int));
                assert(t1.last() == e@[i as int]);
                let pid = &e[i].0;
                let en = &e[i].1;
                let f = match en.get("filename").as_str() {
                    Some(n) => safe_filename(n.as_str()),
                    None => None,
                };
                match f {
                    Some(filename) => {
                        if present[i] {
                            let m = InstalledMod {
                                project_id: pid.clone(),
                                slug: en.get("slug").str_or(""),
                                title: en.get("title").str_or(pid.as_str()),
                                icon_url: en.get("icon_url").str_or(""),
                                version_id: en.get("version_id").str_or(""),
                                version_number: en.get("version_number").str_or("?"),
                                filename,
                            };
                            proof {
                                let ie = installed_entries(t1, present@);
                                assert(ie == installed_entries(e@.take(i as int), present@).push((pid@, m@)));
                                assert(ie.drop_last() =~= installed_entries(e@.take(i as int), present@));
                                assert(assoc_map(ie) == assoc_map(installed_entries(e@.take(i as int), present@)).insert(pid@, m@));
                            }
                            upsert_mod(&mut out, m);
                        } else {
                            assert(installed_entries(t1, present@) == installed_entries(e@.take(i as int), present@));
                        }
                    },
                    None => {
                        assert(installed_entries(t1, present@) == installed_entries(e@.take(i as int), present@));
                    },
                }
                i += 1;
            }
            assert(e@.take(e.len() as int) =~= e@);
            out
        },
    }
}

/// Number of installed mods.
pub fn count_installed(mods: &Vec<InstalledMod>) -> (r: usize)
    ensures
        r == mods@.len(),
{
    mods.len()
}

pub open spec fn entry_describes(e: Json, m: InstalledMod) -> bool {
    &&& crate::json::members(e) == 6
    &&& is_text(get(e, "slug"@), m.slug@)
    &&& is_text(get(e, "title"@), m.title@)
    &&& is_text(get(e, "icon_url"@), m.icon_url@)
    &&& is_text(get(e, "version_id"@), m.version_id@)
    &&& is_text(get(e, "version_number"@), m.version_number@)
    &&& is_text(get(e, "filename"@), m.filename@)
}

/// `j` records exactly `mods`: one member per mod, keyed by project id,
/// in list order, each holding the mod's six text fields.
pub open spec fn sidecar_describes(j: Json, mods: Seq<InstalledMod>) -> bool {
    &&& j matches Json::Object(es)
    &&& es@.len() == mods.len()
    &&& forall|i: int| 0 <= i < mods.len() ==> (#[trigger] es@[i]).0@ == mods[i].project_id@ && entry_describes(es@[i].1, mods[i])
}

fn text_entry(k: &str, v: &String) -> (r: (String, Json))
    ensures
        r.0@ == k@,
        as_str(r.1) == Some(v@),
{
    (k.to_string(), Json::Str(v.clone()))
}

fn sidecar_entry(m: &InstalledMod) -> (r: Json)
    ensures
        entry_describes(r, *m),
{
    let mut e: Vec<(String, Json)> = Vec::new();
    e.push(text_entry("slug", &m.slug));
    e.push(text_entry("title", &m.title));
    e.push(text_entry("icon_url", &m.icon_url));
    e.push(text_entry("version_id", &m.version_id));
    e.push(text_entry("version_number", &m.version_number));
    e.push(text_entry("filename", &m.filename));
    proof {
        reveal_strlit("slug");
        reveal_strlit("title");
        reveal_strlit("icon_url");
        reveal_strlit("version_id");
        reveal_strlit("version_number");
        reveal_strlit("filename");
        assert(e@[0].0@ == "slug"@);
        assert(e@[1].0@ == "title"@);
        assert(e@[2].0@ == "icon_url"@);
        assert(e@[3].0@ == "version_id"@);
        assert(e@[4].0@ == "version_number"@);
        assert(e@[5].0@ == "filename"@);
        assert("icon_url"@[0] != "filename"@[0]);
        assert("version_id"@.len() != "version_number"@.len());
        crate::json::lemma_lookup_at(e@, 0, "slug"@);
        crate::json::lemma_lookup_at(e@, 1, "title"@);
        crate::json::lemma_lookup_at(e@, 2, "icon_url"@);
        crate::json::lemma_lookup_at(e@, 3, "version_id"@);
        crate::json::lemma_lookup_at(e@, 4, "version_number"@);
        crate::json::lemma_lookup_at(e@, 5, "filename"@);
    }
    Json::Object(e)
}

/// The record written for a list of installed mods (see
/// `sidecar_describes`).
pub fn sidecar_json(mods: &Vec<InstalledMod>) -> (r: Json)
    ensures
        sidecar_describes(r, mods@),
{
    let mut es: Vec<(String, Json)> = Vec::new();
    let mut i: usize = 0;
    while i < mods.len()
        invariant
            i <= mods.len(),
            es@.len() == i,
            forall|j: int| 0 <= j < i ==> (#[trigger] es@[j]).0@ == mods@[j].project_id@ && entry_describes(es@[j].1, mods@[j]),
        decreases mods.len() - i,
    {
        let e = sidecar_entry(&mods[i]);
        es.push((mods[i].project_id.clone(), e));
        i += 1;
    }
    Json::Object(es)
}

pub open spec fn all_present(n: nat) -> Seq<bool> {
    Seq::new(n, |i: int| true)
}

/// Reading back a written record, with every jar on disk, gives back the
/// mods that were written, as long as their project ids differ and their
/// jar names are safe ones.
pub proof fn law_sidecar_read_back(j: Json, mods: Seq<InstalledMod>)
    requires
        sidecar_describes(j, mods),
        keys_distinct(mods_assoc(mods)),
        forall|i: int| 0 <= i < mods.len() ==> safe_filename_spec((#[trigger] mods[i]).filename@) == Some(mods[i].filename@),
    ensures
        installed_spec(j, all_present(mods.len())) == assoc_map(mods_assoc(mods)),
{
    let es = match j {
        Json::Object(es) => es@,
        _ => Seq::empty(),
    };
    lemma_entries_read_back(es, mods, mods.len() as int);
    assert(es.take(mods.len() as int) =~= es);
    assert(mods.take(mods.len() as int) =~= mods);
}

proof fn lemma_entries_read_back(es: Seq<(String, Json)>, mods: Seq<InstalledMod>, k: int)
    requires
        0 <= k <= mods.len(),
        es.len() == mods.len(),
        forall|i: int| 0 <= i < mods.len() ==> (#[trigger] es[i]).0@ == mods[i].project_id@ && entry_describes(es[i].1, mods[i]),
        forall|i: int| 0 <= i < mods.len() ==> safe_filename_spec((#[trigger] mods[i]).filename@) == Some(mods[i].filename@),
    ensures
        installed_entries(es.take(k), all_present(mods.len())) == mods_assoc(mods.take(k)),
    decreases k,
{
    if k == 0 {
        assert(mods_assoc(mods.take(0)) =~= Seq::<(Seq<char>, ModRecord)>::empty());
    } else {
        lemma_entries_read_back(es, mods, k - 1);
        let t = es.take(k);
        assert(t.drop_last() =~= es.take(k - 1));
        assert(t.last() == es[k - 1]);
        let m = mods[k - 1];
        let e = es[k - 1].1;
        assert(safe_filename_spec(m.filename@) == Some(m.filename@));
        assert(sidecar_file(e) == Some(m.filename@));
        assert(record_of(m.project_id@, e, m.filename@) == m@);
        assert(all_present(mods.len())[k - 1]);
        assert(mods_assoc(mods.take(k)) =~= mods_assoc(mods.take(k - 1)).push((m.project_id@, m@)));
    }
}

pub open spec fn install_filename_spec(filename: Seq<char>) -> Result<Seq<char>, Seq<char>> {
    match safe_filename_spec(filename) {
        Some(n) => Ok(n),
        None => Err("Unsafe filename from Modrinth: "@ + filename),
    }
}

/// The jar name a version installs under, refused when unsafe.
pub fn install_filename(version: &ModVersion) -> (r: Result<String, String>)
    ensures
        match r {
            Ok(n) => install_filename_spec(version.filename@) == Ok::<Seq<char>, Seq<char>>(n@),
            Err(e) => install_filename_spec(version.filename@) == Err::<Seq<char>, Seq<char>>(e@),
        },
{
    match safe_filename(version.filename.as_str()) {
        Some(n) => Ok(n),
        None => {
            let mut m = text::chars_of("Unsafe filename from Modrinth: ");
            text::push_str(&mut m, version.filename.as_str());
            Err(text::string_of(&m))
        },
    }
}

pub open spec fn new_record(project: ModDetail, version: ModVersion, filename: Seq<char>) -> ModRecord {
    (project.id@, project.slug@, project.title@, project.icon_url@, version.id@, version.version_number@, filename)
}

/// Recording a fetched version file (`downloaded` bytes, named
/// `filename`): an empty download is refused; otherwise the project's
/// record becomes the new version, and the jar of the previous version is
/// returned for removal when its name differs.
pub fn install_record(
    mods: Vec<InstalledMod>,
    project: &ModDetail,
    version: &ModVersion,
    filename: String,
    downloaded: usize,
) -> (r: Result<(Vec<InstalledMod>, InstalledMod, Option<String>), String>)
    requires
        keys_distinct(mods_assoc(mods@)),
    ensures
        downloaded == 0 ==> (r matches Err(e) && e@ == "Downloaded file is empty."@),
        downloaded > 0 ==> (r matches Ok((new_mods, entry, stale)) && {
            let before = assoc_map(mods_assoc(mods@));
            &&& entry@ == new_record(*project, *version, filename@)
            &&& keys_distinct(mods_assoc(new_mods@))
            &&& assoc_map(mods_assoc(new_mods@)) == before.insert(project.id@, entry@)
            &&& match stale {
                Some(f) => before.dom().contains(project.id@) && before[project.id@].6 == f@ && f@ != filename@,
                None => !before.dom().contains(project.id@) || before[project.id@].6 == filename@,
            }
        }),
{
    if downloaded == 0 {
        return Err("Downloaded file is empty.".to_string());
    }
    let ghost o = mods_assoc(mods@);
    let mut stale: Option<String> = None;
    let mut k: usize = 0;
    while k < mods.len() && !text::str_eq(mods[k].project_id.as_str(), project.id.as_str())
        invariant
            k <= mods.len(),
            o == mods_assoc(mods@),
            stale is None,
            forall|j: int| 0 <= j < k ==> #[trigger] o[j].0 != project.id@,
        decreases mods.len() - k,
    {
        k += 1;
    }
    proof {
        crate::modrinth::lemma_assoc_dom(o, project.id@);
    }
    if k < mods.len() {
        proof {
            lemma_assoc_at(o, k as int);
        }
        if !text::str_eq(mods[k].filename.as_str(), filename.as_str()) {
            stale = Some(mods[k].filename.clone());
        }
    } else {
        assert(!assoc_map(o).dom().contains(project.id@));
    }
    let entry = InstalledMod {
        project_id: project.id.clone(),
        slug: project.slug.clone(),
        title: project.title.clone(),
        icon_url: project.icon_url.clone(),
        version_id: version.id.clone(),
        version_number: version.version_number.clone(),
        filename,
    };
    let mut new_mods = mods;
    upsert_mod(&mut new_mods, copy_mod(&entry));
    Ok((new_mods, entry, stale))
}

/// Deleting a mod: its record leaves the list, and its jar is returned
/// for removal when it was recorded.
pub fn remove_mod(mods: Vec<InstalledMod>, project_id: &str) -> (r: (Vec<InstalledMod>, Option<String>))
    requires
        keys_distinct(mods_assoc(mods@)),
    ensures
        keys_distinct(mods_assoc(r.0@)),
        assoc_map(mods_assoc(r.0@)) == assoc_map(mods_assoc(mods@)).remove(project_id@),
        match r.1 {
            Some(f) => assoc_map(mods_assoc(mods@)).dom().contains(project_id@)
                && assoc_map(mods_assoc(mods@))[project_id@].6 == f@,
            None => !assoc_map(mods_assoc(mods@)).dom().contains(project_id@),
        },
{
    let ghost o = mods_assoc(mods@);
    let mut k: usize = 0;
    while k < mods.len() && !text::str_eq(mods[k].project_id.as_str(), project_id)
        invariant
            k <= mods.len(),
            o == mods_assoc(mods@),
            forall|j: int| 0 <= j < k ==> #[trigger] o[j].0 != project_id@,
        decreases mods.len() - k,
    {
        k += 1;
    }
    proof {
        lemma_assoc_dom(o, project_id@);
    }
    let mut out = mods;
    if k < out.len() {
        proof {
            lemma_assoc_at(o, k as int);
            lemma_assoc_remove(o, k as int);
        }
        let gone = out.remove(k);
        assert(mods_assoc(out@) =~= o.remove(k as int));
        (out, Some(gone.filename))
    } else {
        assert(assoc_map(o).remove(project_id@) =~= assoc_map(o));
        (out, None)
    }
}

pub open spec fn is_known_file(mods: Seq<InstalledMod>, name: Seq<char>) -> bool {
    exists|i: int| 0 <= i < mods.len() && (#[trigger] mods[i]).filename@ == name
}

pub open spec fn unlinked_pred(mods: Seq<InstalledMod>) -> spec_fn(Seq<char>) -> bool {
    |n: Seq<char>| ends_with(n, ".jar"@) && !is_known_file(mods, n)
}

/// Jar files of the mods folder that no record names, in folder order.
pub fn identify_candidates(mods: &Vec<InstalledMod>, names: &Vec<String>) -> (r: Vec<String>)
    ensures
        string_views(r@) == string_views(names@).filter(unlinked_pred(mods@)),
{
    let ghost nv = string_views(names@);
    let ghost pred = unlinked_pred(mods@);
    let mut out: Vec<String> = Vec::new();
    let jar = text::chars_of(".jar");
    let mut i: usize = 0;
    assert(nv.take(0) =~= Seq::<Seq<char>>::empty());
    assert(string_views(out@) =~= Seq::<Seq<char>>::empty());
    proof {
        reveal(Seq::filter);
    }
    while i < names.len()
        invariant
            i <= names.len(),
            nv == string_views(names@),
            pred == unlinked_pred(mods@),
            jar@ == ".jar"@,
            string_views(out@) == nv.take(i as int).filter(pred),
        decreases names.len() - i,
    {
        assert(nv.take(i + 1).drop_last() =~= nv.take(i as int));
        assert(nv.take(i + 1).last() == names@[i as int]@);
        let nc = text::chars_of(names[i].as_str());
        let mut known = false;
        let mut m: usize = 0;
        while m < mods.len()
            invariant
                m <= mods.len(),
                i < names.len(),
                known == exists|j: int| 0 <= j < m && (#[trigger] mods@[j]).filename@ == names@[i as int]@,
            decreases mods.len() - m,
        {
            if text::str_eq(mods[m].filename.as_str(), names[i].as_str()) {
                known = true;
            }
            m += 1;
        }
        let keep = text::chars_ends_with(&nc, &jar) && !known;
        assert(keep == pred(names@[i as int]@));
        if keep {
            let ghost o = string_views(out@);
            out.push(names[i].clone());
            assert(string_views(out@) =~= o.push(names@[i as int]@));
            assert(nv.take(i + 1).filter(pred) == nv.take(i as int).filter(pred).push(names@[i as int]@)) by {
                reveal(Seq::filter);
            }
        } else {
            assert(nv.take(i + 1).filter(pred) == nv.take(i as int).filter(pred)) by {
                reveal(Seq::filter);
            }
        }
        i += 1;
    }
    assert(nv.take(names.len() as int) =~= nv);
    out
}

/// Jar files of the mods folder that no record names, sorted.
pub fn unlinked_mod_files(mods: &Vec<InstalledMod>, names: &Vec<String>) -> (r: Vec<String>)
    ensures
        text::sorted_strs(string_views(r@)),
        string_views(r@).to_multiset() == string_views(names@).filter(unlinked_pred(mods@)).to_multiset(),
{
    let c = identify_candidates(mods, names);
    text::sort_strings(c)
}

/// Hex SHA-512 of a jar, the key Modrinth identifies files by.
pub fn mod_file_hash(data: &[u8]) -> (r: String)
    ensures
        r@ == crate::digest::hex_lower(crate::digest::sha512_spec(data@)),
{
    crate::digest::sha512_hex(data)
}

/// Identification request for a list of file hashes.
pub fn identify_request(hashes: &Vec<String>) -> (r: Json)
    ensures
        crate::json::members(r) == 2,
        get(r, "hashes"@) matches Json::Array(a) && a@.len() == hashes@.len()
            && forall|i: int| 0 <= i < a@.len() ==> as_str(#[trigger] a@[i]) == Some(hashes@[i]@),
        is_text(get(r, "algorithm"@), "sha512"@),
{
    let mut a: Vec<Json> = Vec::new();
    let mut i: usize = 0;
    while i < hashes.len()
        invariant
            i <= hashes.len(),
            a@.len() == i,
            forall|j: int| 0 <= j < i ==> as_str(#[trigger] a@[j]) == Some(hashes@[j]@),
        decreases hashes.len() - i,
    {
        a.push(Json::Str(hashes[i].clone()));
        i += 1;
    }
    let mut e: Vec<(String, Json)> = Vec::new();
    e.push(("hashes".to_string(), Json::Array(a)));
    e.push(("algorithm".to_string(), Json::Str("sha512".to_string())));
    proof {
        reveal_strlit("hashes");
        reveal_strlit("algorithm");
        assert(e@[0].0@ == "hashes"@);
        assert("hashes"@.len() != "algorithm"@.len());
        crate::json::lemma_lookup_at(e@, 0, "hashes"@);
        crate::json::lemma_lookup_at(e@, 1, "algorithm"@);
    }
    Json::Object(e)
}

/// A file match of an identification answer: file name, project id,
/// version id, version number.
pub type MatchView = (Seq<char>, Seq<char>, Seq<char>, Seq<char>);

pub open spec fn match_of(resp: Json, file: (Seq<char>, Seq<char>)) -> Option<MatchView> {
    let ver = get(resp, file.1);
    let pid = str_or(get(ver, "project_id"@), ""@);
    if pid.len() == 0 {
        None
    } else {
        Some((file.0, pid, str_or(get(ver, "id"@), ""@), str_or(get(ver, "version_number"@), "?"@)))
    }
}

/// Files (name, hash) the answer maps to a project, in file order.
pub open spec fn matches_of(resp: Json, files: Seq<(Seq<char>, Seq<char>)>) -> Seq<MatchView>
    decreases files.len(),
{
    if files.len() == 0 {
        Seq::empty()
    } else {
        let r = matches_of(resp, files.drop_last());
        match match_of(resp, files.last()) {
            Some(m) => r.push(m),
            None => r,
        }
    }
}

/// What an identification answer maps: for each `(file name, hash)`, the
/// version found for the hash when it names a project. An answer that is
/// not an object maps nothing.
pub fn identify_matches(resp: &Json, files: &Vec<(String, String)>) -> (r: Vec<(String, String, String, String)>)
    ensures
        r@.map_values(|m: (String, String, String, String)| (m.0@, m.1@, m.2@, m.3@)) == if as_object(*resp) is Some {
            matches_of(*resp, text::pair_views(files@))
        } else {
            Seq::empty()
        },
{
    let mut out: Vec<(String, String, String, String)> = Vec::new();
    assert(out@.map_values(|m: (String, String, String, String)| (m.0@, m.1@, m.2@, m.3@)) =~= Seq::<MatchView>::empty());
    if resp.as_object().is_none() {
        return out;
    }
    let ghost fv = text::pair_views(files@);
    let mut i: usize = 0;
    assert(fv.take(0) =~= Seq::<(Seq<char>, Seq<char>)>::empty());
    while i < files.len()
        invariant
            i <= files.len(),
            fv == text::pair_views(files@),
            out@.map_values(|m: (String, String, String, String)| (m.0@, m.1@, m.2@, m.3@)) == matches_of(*resp, fv.take(i as int)),
        decreases files.len() - i,
    {
        assert(fv.take(i + 1).drop_last() =~= fv.take(i as int));
        assert(fv.take(i + 1).last() == (files@[i as int].0@, files@[i as int].1@));
        let ver = resp.get(files[i].1.as_str());
        let pid = ver.get("project_id").str_or("");
        if pid.unicode_len() != 0 {
            let m = (files[i].0.clone(), pid, ver.get("id").str_or(""), ver.get("version_number").str_or("?"));
            let ghost o = out@;
            out.push(m);
            assert(out@.map_values(|m: (String, String, String, String)| (m.0@, m.1@, m.2@, m.3@)) =~= o.map_values(|m: (String, String, String, String)| (m.0@, m.1@, m.2@, m.3@)).push((m.0@, m.1@, m.2@, m.3@)));
        }
        i += 1;
    }
    assert(fv.take(files.len() as int) =~= fv);
    out
}

/// The record of an identified file: project meta from `project` when it
/// could be fetched, else the file name as title.
pub fn linked_entry(filename: &String, project_id: &String, version_id: &String, version_number: &String, project: Option<&ModDetail>) -> (r: InstalledMod)
    ensures
        r@ == match project {
            Some(p) => (project_id@, p.slug@, p.title@, p.icon_url@, version_id@, version_number@, filename@),
            None => (project_id@, Seq::<char>::empty(), filename@, Seq::<char>::empty(), version_id@, version_number@, filename@),
        },
{
    let (slug, title, icon_url) = match project {
        Some(p) => (p.slug.clone(), p.title.clone(), p.icon_url.clone()),
        None => (String::new(), filename.clone(), String::new()),
    };
    InstalledMod {
        project_id: project_id.clone(),
        slug,
        title,
        icon_url,
        version_id: version_id.clone(),
        version_number: version_number.clone(),
        filename: filename.clone(),
    }
}

pub open spec fn upserted(m: Map<Seq<char>, ModRecord>, entries: Seq<InstalledMod>) -> Map<Seq<char>, ModRecord>
    decreases entries.len(),
{
    if entries.len() == 0 {
        m
    } else {
        upserted(m, entries.drop_last()).insert(entries.last().project_id@, entries.last()@)
    }
}

/// Linking identified files: each record replaces the project's record;
/// the count of linked files is returned.
pub fn link_into(mods: Vec<InstalledMod>, entries: Vec<InstalledMod>) -> (r: (Vec<InstalledMod>, usize))
    requires
        keys_distinct(mods_assoc(mods@)),
    ensures
        keys_distinct(mods_assoc(r.0@)),
        assoc_map(mods_assoc(r.0@)) == upserted(assoc_map(mods_assoc(mods@)), entries@),
        r.1 == entries@.len(),
{
    let ghost start = assoc_map(mods_assoc(mods@));
    let mut out = mods;
    let mut i: usize = 0;
    assert(entries@.take(0) =~= Seq::<InstalledMod>::empty());
    while i < entries.len()
        invariant
            i <= entries.len(),
            keys_distinct(mods_assoc(out@)),
            assoc_map(mods_assoc(out@)) == upserted(start, entries@.take(i as int)),
        decreases entries.len() - i,
    {
        assert(entries@.take(i + 1).drop_last() =~= entries@.take(i as int));
        upsert_mod(&mut out, copy_mod(&entries[i]));
        i += 1;
    }
    assert(entries@.take(entries.len() as int) =~= entries@);
    (out, entries.len())
}

pub open spec fn instance_loader_spec(kind: crate::instances::VersionKind, json: Option<Json>) -> Option<(Seq<char>, Seq<char>)> {
    let loader: Option<Seq<char>> = match kind {
        crate::instances::VersionKind::Fabric => Some("fabric"@),
        crate::instances::VersionKind::NeoForge => Some("neoforge"@),
        crate::instances::VersionKind::Forge => Some("forge"@),
        _ => None,
    };
    match (loader, json) {
        (Some(l), Some(j)) => match as_str(get(j, "inheritsFrom"@)) {
            Some(mc) => Some((mc, l)),
            None => None,
        },
        _ => None,
    }
}

/// Loader context of an installed instance for the store:
/// `(Minecraft version, Modrinth loader)` for Fabric, NeoForge and Forge
/// instances whose json (when it could be read) inherits a vanilla
/// version; nothing otherwise.
pub fn instance_loader(kind: crate::instances::VersionKind, json: Option<&Json>) -> (r: Option<(String, String)>)
    ensures
        match r {
            Some((mc, l)) => instance_loader_spec(kind, match json { Some(j) => Some(*j), None => None }) == Some((mc@, l@)),
            None => instance_loader_spec(kind, match json { Some(j) => Some(*j), None => None }) is None,
        },
{
    let loader = match kind {
        crate::instances::VersionKind::Fabric => "fabric",
        crate::instances::VersionKind::NeoForge => "neoforge",
        crate::instances::VersionKind::Forge => "forge",
        _ => {
            return None;
        },
    };
    match json {
        None => None,
        Some(j) => match j.get("inheritsFrom").as_str() {
            Some(mc) => Some((mc.clone(), loader.to_string())),
            None => None,
        },
    }
}

/// The store context of an instance carries the Modrinth loader of the
/// instance's own kind (Fabric instances search "fabric", NeoForge ones
/// "neoforge", Forge ones "forge", so two kinds never share a loader) and
/// the Minecraft version its json inherits; vanilla and unrecognised modded
/// instances, and instances whose json could not be read, get none.
pub proof fn law_store_loader_of_kind(kind: crate::instances::VersionKind, json: Json, mc: Seq<char>)
    requires
        as_str(get(json, "inheritsFrom"@)) == Some(mc),
    ensures
        kind is Fabric ==> instance_loader_spec(kind, Some(json)) == Some((mc, "fabric"@)),
        kind is NeoForge ==> instance_loader_spec(kind, Some(json)) == Some((mc, "neoforge"@)),
        kind is Forge ==> instance_loader_spec(kind, Some(json)) == Some((mc, "forge"@)),
        kind is Vanilla || kind is UnknownModded ==> instance_loader_spec(kind, Some(json)) is None,
        instance_loader_spec(kind, None) is None,
        "fabric"@ != "forge"@ && "fabric"@ != "neoforge"@ && "neoforge"@ != "forge"@,
{
    reveal_strlit("fabric");
    reveal_strlit("forge");
    reveal_strlit("neoforge");
    assert("fabric"@[1] != "forge"@[1]);
    assert("fabric"@.len() != "neoforge"@.len());
    assert("neoforge"@.len() != "forge"@.len());
}

/// File identification endpoint (hashes to versions).
pub fn identify_url() -> (r: String)
    ensures
        r@ == api_base() + "/version_files"@,
{
    let mut u = text::chars_of("https://api.modrinth.com/v2");
    text::push_str(&mut u, "/version_files");
    text::string_of(&u)
}

} // verus!

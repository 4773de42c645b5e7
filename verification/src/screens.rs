//! Texts the launcher window shows in compact form.
use vstd::prelude::*;
use crate::text;
use crate::text::{join, split_whitespace, replace_char, string_views};

verus! {

pub open spec fn short_desc_spec(s: Seq<char>, max: nat) -> Seq<char> {
    let one_line = join(split_whitespace(replace_char(s, '\n', ' ')), " "@);
    if one_line.len() > max {
        one_line.take(max as int).push('…')
    } else {
        one_line
    }
}

/// A description on one line: whitespace runs become single spaces, and
/// a text longer than `max` characters is cut there and ends with `…`.
pub fn short_desc(s: &str, max: usize) -> (r: String)
    ensures
        r@ == short_desc_spec(s@, max as nat),
{
    let c = text::chars_of(s);
    let one = text::chars_replace(&c, '\n', ' ');
    let words = text::chars_split_whitespace(&one);
    assert(text::views(words@) =~= split_whitespace(one@));
    let line = text::join_chars(&words, " ");
    if line.len() > max {
        let mut t = text::sub_chars(&line, 0, max);
        assert(t@ =~= line@.take(max as int));
        t.push('…');
        text::string_of(&t)
    } else {
        text::string_of(&line)
    }
}

pub open spec fn short_mc_spec(versions: Seq<Seq<char>>) -> Seq<char> {
    let k: int = if versions.len() < 3 {
        versions.len() as int
    } else {
        3
    };
    let s = join(versions.take(k), ", "@);
    let s2 = if versions.len() > 3 {
        s + ", …"@
    } else {
        s
    };
    if s2.len() == 0 {
        seq!['?']
    } else {
        s2
    }
}

/// Game versions of a mod file in short: the first three, `…` when there
/// are more, `?` when there are none to show.
pub fn short_mc(versions: &Vec<String>) -> (r: String)
    ensures
        r@ == short_mc_spec(string_views(versions@)),
{
    let k: usize = if versions.len() < 3 { versions.len() } else { 3 };
    let mut shown: Vec<Vec<char>> = Vec::new();
    let mut i: usize = 0;
    while i < k
        invariant
            i <= k,
            k <= versions.len(),
            text::views(shown@) == string_views(versions@).take(i as int),
        decreases k - i,
    {
        let ghost o = text::views(shown@);
        shown.push(text::chars_of(versions[i].as_str()));
        assert(text::views(shown@) =~= o.push(versions@[i as int]@));
        assert(string_views(versions@).take(i + 1) =~= string_views(versions@).take(i as int).push(versions@[i as int]@));
        i += 1;
    }
    let mut s = text::join_chars(&shown, ", ");
    if versions.len() > 3 {
        text::push_str(&mut s, ", …");
    }
    if s.len() == 0 {
        s.push('?');
        assert(s@ =~= seq!['?']);
    }
    text::string_of(&s)
}

/// What the Java line of an instance's details says.
#[derive(Debug, Clone, PartialEq, Eq)]
pub enum JavaLine {
    /// Automatic Java, which will be this major.
    Auto(u64),
    /// A named Java selection.
    Named(String),
    /// The version json could not be read.
    Unknown,
}

pub open spec fn details_required(id: Seq<char>, v: crate::json::Json) -> u64 {
    let mc_id = crate::downloader::str_or(crate::json::get(v, "inheritsFrom"@), id);
    match crate::json::as_u64(crate::json::get(crate::json::get(v, "javaVersion"@), "majorVersion"@)) {
        Some(m) => m,
        None => crate::launcher::fallback_java_major_spec(mc_id),
    }
}

/// The two lines of an instance's details: its description (or
/// `Minecraft {id}` when there is none), and its Java: the automatic major
/// (from the json, else the table for its vanilla version), the selected
/// name, or unknown when the json could not be read.
pub fn instance_details(id: &str, json: Option<&crate::json::Json>, java_name: &str) -> (r: (String, JavaLine))
    ensures
        r.0@ == ({
            let d = crate::instances::describe_version_spec(id@, match json { Some(j) => Some(*j), None => None });
            if d.len() == 0 { "Minecraft "@ + id@ } else { d }
        }),
        match json {
            Some(v) => if java_name@ == "Automatic"@ || java_name@.len() == 0 {
                r.1 == JavaLine::Auto(details_required(id@, *v))
            } else {
                r.1 matches JavaLine::Named(n) && n@ == java_name@
            },
            None => r.1 == JavaLine::Unknown,
        },
{
    let d = crate::instances::describe_version(id, json);
    let mc_line = if d.unicode_len() == 0 {
        let mut m = text::chars_of("Minecraft ");
        text::push_str(&mut m, id);
        text::string_of(&m)
    } else {
        d
    };
    let java_line = match json {
        Some(v) => {
            let mc_id = v.get("inheritsFrom").str_or(id);
            let required = match v.get("javaVersion").get("majorVersion").as_u64() {
                Some(m) => m,
                None => crate::launcher::fallback_java_major(mc_id.as_str()),
            };
            if text::str_eq(java_name, "Automatic") || java_name.unicode_len() == 0 {
                JavaLine::Auto(required)
            } else {
                JavaLine::Named(java_name.to_string())
            }
        },
        None => JavaLine::Unknown,
    };
    (mc_line, java_line)
}

} // verus!

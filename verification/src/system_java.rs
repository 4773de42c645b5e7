//! Java installations found on the machine: reading the version a `java`
//! binary reports, keeping each binary once, and the order they are
//! listed in.
use vstd::prelude::*;
use crate::text;
use crate::text::{split, lines, parse_u64_spec, str_lt};

verus! {

/// Java installation found on the machine.
#[derive(Clone, Debug)]
pub struct SystemJava {
    /// Full path to the `java` binary.
    pub path: String,
    /// Full version string, e.g. `25.0.1` or `1.8.0_442`.
    pub version: String,
    /// Major version, e.g. `25` or `8`.
    pub major: u64,
}

pub open spec fn java_view(j: SystemJava) -> (u64, Seq<char>, Seq<char>) {
    (j.major, j.path@, j.version@)
}

pub open spec fn java_version_seps() -> Seq<char> {
    seq!['.', '_', '-']
}

pub open spec fn parse_java_major_spec(version: Seq<char>) -> Option<u64> {
    let parts = split(version, java_version_seps());
    match parse_u64_spec(parts[0]) {
        None => None,
        Some(first) => if first == 1 {
            if parts.len() > 1 {
                parse_u64_spec(parts[1])
            } else {
                None
            }
        } else {
            Some(first)
        },
    }
}

/// Java major of a version string: its first number, or the second one
/// for the old `1.x` scheme (`1.8.0_442` is 8).
pub fn parse_java_major(version: &str) -> (r: Option<u64>)
    ensures
        r == parse_java_major_spec(version@),
{
    let c = text::chars_of(version);
    let seps = vec!['.', '_', '-'];
    assert(seps@ =~= java_version_seps());
    let parts = text::chars_split(&c, &seps);
    proof {
        text::lemma_split_nonempty(c@, seps@);
    }
    match text::parse_u64(&parts[0]) {
        None => None,
        Some(first) => if first == 1 {
            if parts.len() > 1 {
                text::parse_u64(&parts[1])
            } else {
                None
            }
        } else {
            Some(first)
        },
    }
}

pub open spec fn quoted_version_spec(output: Seq<char>) -> Option<Seq<char>> {
    let ls = lines(output);
    let first = if ls.len() > 0 {
        ls[0]
    } else {
        Seq::empty()
    };
    let parts = split(first, seq!['"']);
    if parts.len() > 1 {
        Some(parts[1])
    } else {
        None
    }
}

/// The quoted version on the first line of `java -version` output (for
/// example `openjdk version "25.0.1" 2025-09-16`).
pub fn quoted_version(output: &str) -> (r: Option<String>)
    ensures
        match r {
            Some(v) => quoted_version_spec(output@) == Some(v@),
            None => quoted_version_spec(output@) is None,
        },
{
    let c = text::chars_of(output);
    let ls = text::chars_lines(&c);
    let first = if ls.len() > 0 {
        text::chars_copy(&ls[0])
    } else {
        Vec::new()
    };
    let q = vec!['"'];
    assert(q@ =~= seq!['"']);
    let parts = text::chars_split(&first, &q);
    if parts.len() > 1 {
        Some(text::string_of(&parts[1]))
    } else {
        None
    }
}

/// What a probe of a binary found, from its `-version` output: its
/// version and major, when the output names one that can be read.
pub fn probe_result(path: &str, output: &str) -> (r: Option<SystemJava>)
    ensures
        match r {
            Some(j) => quoted_version_spec(output@) == Some(j.version@) && parse_java_major_spec(j.version@) == Some(j.major)
                && j.path@ == path@,
            None => match quoted_version_spec(output@) {
                Some(v) => parse_java_major_spec(v) is None,
                None => true,
            },
        },
{
    match quoted_version(output) {
        None => None,
        Some(v) => match parse_java_major(v.as_str()) {
            None => None,
            Some(major) => Some(SystemJava { path: path.to_string(), version: v, major }),
        },
    }
}

/// File name of the Java binary on a system.
pub fn java_exe_name(os: &str) -> (r: &'static str)
    ensures
        r@ == if os@ == "windows"@ {
            "java.exe"@
        } else {
            "java"@
        },
{
    if text::str_eq(os, "windows") {
        "java.exe"
    } else {
        "java"
    }
}

/// Positions of the first occurrence of each key, in order.
pub open spec fn first_occurrences(keys: Seq<Seq<char>>) -> Seq<int>
    decreases keys.len(),
{
    if keys.len() == 0 {
        Seq::empty()
    } else {
        let r = first_occurrences(keys.drop_last());
        if keys.drop_last().contains(keys.last()) {
            r
        } else {
            r.push(keys.len() - 1)
        }
    }
}

/// Candidates to keep when duplicates (by canonical path) are dropped:
/// the positions of the first candidate of each path.
pub fn unique_candidates(keys: &Vec<String>) -> (r: Vec<usize>)
    ensures
        r@.map_values(|i: usize| i as int) == first_occurrences(text::string_views(keys@)),
{
    let ghost kv = text::string_views(keys@);
    let mut out: Vec<usize> = Vec::new();
    let mut i: usize = 0;
    assert(kv.take(0) =~= Seq::<Seq<char>>::empty());
    assert(out@.map_values(|i: usize| i as int) =~= Seq::<int>::empty());
    while i < keys.len()
        invariant
            i <= keys.len(),
            kv == text::string_views(keys@),
            out@.map_values(|i: usize| i as int) == first_occurrences(kv.take(i as int)),
        decreases keys.len() - i,
    {
        let ghost t = kv.take(i + 1);
        assert(t.drop_last() =~= kv.take(i as int));
        assert(t.last() == keys@[i as int]@);
        let mut seen = false;
        let mut j: usize = 0;
        while j < i
            invariant
                j <= i,
                i < keys.len(),
                kv == text::string_views(keys@),
                seen == exists|m: int| 0 <= m < j && #[trigger] kv[m] == kv[i as int],
            decreases i - j,
        {
            assert(kv[j as int] == keys@[j as int]@ && kv[i as int] == keys@[i as int]@);
            if text::str_eq(keys[j].as_str(), keys[i].as_str()) {
                seen = true;
            }
            j += 1;
        }
        proof {
            if seen {
                let m = choose|m: int| 0 <= m < i && #[trigger] kv[m] == kv[i as int];
                assert(kv.take(i as int)[m] == kv[i as int]);
            }
            if kv.take(i as int).contains(kv[i as int]) {
                let m = choose|m: int| 0 <= m < i && kv.take(i as int)[m] == kv[i as int];
                assert(kv[m] == kv[i as int]);
            }
        }
        if !seen {
            let ghost o = out@;
            out.push(i);
            assert(out@.map_values(|i: usize| i as int) =~= o.map_values(|i: usize| i as int).push(i as int));
        }
        i += 1;
    }
    assert(kv.take(keys.len() as int) =~= kv);
    out
}

/// Listing order: higher major first, then by path.
pub open spec fn java_before(a: (u64, Seq<char>, Seq<char>), b: (u64, Seq<char>, Seq<char>)) -> bool {
    a.0 > b.0 || (a.0 == b.0 && str_lt(a.1, b.1))
}

pub open spec fn javas_sorted(s: Seq<(u64, Seq<char>, Seq<char>)>) -> bool {
    forall|i: int, j: int| 0 <= i < j < s.len() ==> !java_before(#[trigger] s[j], #[trigger] s[i])
}

pub open spec fn javas_view(v: Seq<SystemJava>) -> Seq<(u64, Seq<char>, Seq<char>)> {
    v.map_values(|j: SystemJava| java_view(j))
}

fn copy_java(j: &SystemJava) -> (r: SystemJava)
    ensures
        java_view(r) == java_view(*j),
{
    SystemJava { path: j.path.clone(), version: j.version.clone(), major: j.major }
}

fn java_lt(a: &SystemJava, b: &SystemJava) -> (r: bool)
    ensures
        r == java_before(java_view(*a), java_view(*b)),
{
    a.major > b.major || (a.major == b.major && text::chars_lt(&text::chars_of(a.path.as_str()), &text::chars_of(b.path.as_str())))
}

/// The found installations in listing order (higher major first, then by
/// path), the same installations as found.
pub fn sort_javas(found: Vec<SystemJava>) -> (r: Vec<SystemJava>)
    ensures
        javas_sorted(javas_view(r@)),
        javas_view(r@).to_multiset() == javas_view(found@).to_multiset(),
{
    let mut out: Vec<SystemJava> = Vec::new();
    let mut i: usize = 0;
    assert(javas_view(found@).take(0) =~= Seq::<(u64, Seq<char>, Seq<char>)>::empty());
    assert(javas_view(out@) =~= Seq::<(u64, Seq<char>, Seq<char>)>::empty());
    while i < found.len()
        invariant
            i <= found.len(),
            javas_sorted(javas_view(out@)),
            javas_view(out@).to_multiset() == javas_view(found@).take(i as int).to_multiset(),
        decreases found.len() - i,
    {
        let x = copy_java(&found[i]);
        let ghost xv = java_view(x);
        let ghost o = javas_view(out@);
        let mut k: usize = 0;
        while k < out.len() && !java_lt(&x, &out[k])
            invariant
                k <= out.len(),
                o == javas_view(out@),
                xv == java_view(x),
                forall|m: int| 0 <= m < k ==> !java_before(xv, #[trigger] o[m]),
            decreases out.len() - k,
        {
            k += 1;
        }
        proof {
            assert(k < o.len() ==> java_before(xv, o[k as int]));
            assert forall|a: int, b: int| 0 <= a < b < o.len() + 1 implies !java_before(
                #[trigger] o.insert(k as int, xv)[b],
                #[trigger] o.insert(k as int, xv)[a],
            ) by {
                let n = o.insert(k as int, xv);
                if b < k {
                    assert(n[a] == o[a] && n[b] == o[b]);
                } else if b == k {
                    assert(n[a] == o[a] && n[b] == xv);
                } else if a < k {
                    assert(n[a] == o[a] && n[b] == o[b - 1]);
                } else if a == k {
                    assert(n[a] == xv && n[b] == o[b - 1]);
                    text::lemma_str_lt_total(o[k as int].1, o[b - 1].1);
                    text::lemma_str_lt_trans(xv.1, o[k as int].1, o[b - 1].1);
                    text::lemma_str_lt_asym(xv.1, o[b - 1].1);
                    text::lemma_str_lt_asym(o[b - 1].1, xv.1);
                } else {
                    assert(n[a] == o[a - 1] && n[b] == o[b - 1]);
                }
            }
        }
        out.insert(k, x);
        proof {
            assert(javas_view(out@) =~= o.insert(k as int, xv));
            assert(javas_view(found@).take(i + 1) =~= javas_view(found@).take(i as int).push(java_view(found@[i as int])));
            vstd::seq_lib::to_multiset_insert(o, k as int, xv);
            vstd::seq_lib::to_multiset_build(javas_view(found@).take(i as int), java_view(found@[i as int]));
        }
        i += 1;
    }
    assert(javas_view(found@).take(found.len() as int) =~= javas_view(found@));
    out
}

} // verus!

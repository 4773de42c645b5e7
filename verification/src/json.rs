//! A JSON document as plain values, and the lookups the launcher makes on
//! version profiles, asset indexes, settings and web API answers.
//!
//! Numbers keep their decimal text, exactly as it was written: integers
//! are read from it, and nothing else about a number is ever needed.
use vstd::prelude::*;
use crate::text::{all_digits, char_is_digit, chars_of, is_digit, parse_u64, parse_u64_spec, str_eq};

verus! {

pub enum Json {
    Null,
    Bool(bool),
    Number(String),
    Str(String),
    Array(Vec<Json>),
    Object(Vec<(String, Json)>),
}

/// Value stored under `key`: the first entry with that key.
pub open spec fn lookup(entries: Seq<(String, Json)>, key: Seq<char>) -> Option<Json>
    decreases entries.len(),
{
    if entries.len() == 0 {
        None
    } else if entries[0].0@ == key {
        Some(entries[0].1)
    } else {
        lookup(entries.drop_first(), key)
    }
}

/// The member found for `key` is the entry at the first position with
/// that key.
pub proof fn lemma_lookup_at(entries: Seq<(String, Json)>, i: int, key: Seq<char>)
    requires
        0 <= i < entries.len(),
        entries[i].0@ == key,
        forall|j: int| 0 <= j < i ==> #[trigger] entries[j].0@ != key,
    ensures
        lookup(entries, key) == Some(entries[i].1),
    decreases i,
{
    if i > 0 {
        let rest = entries.drop_first();
        assert forall|j: int| 0 <= j < i - 1 implies #[trigger] rest[j].0@ != key by {
            assert(rest[j] == entries[j + 1]);
        }
        assert(entries[0].0@ != key);
        lemma_lookup_at(rest, i - 1, key);
    }
}

/// Number of members of an object (-1 for anything else).
pub open spec fn members(j: Json) -> int {
    match j {
        Json::Object(e) => e@.len() as int,
        _ => -1,
    }
}

/// `value[key]`: the member, or `Null` when absent or not an object.
pub open spec fn get(j: Json, key: Seq<char>) -> Json {
    match j {
        Json::Object(e) => match lookup(e@, key) {
            Some(v) => v,
            None => Json::Null,
        },
        _ => Json::Null,
    }
}

/// `value[i]`: the element, or `Null` when out of range or not an array.
pub open spec fn at(j: Json, i: int) -> Json {
    match j {
        Json::Array(a) => if 0 <= i < a@.len() {
            a@[i]
        } else {
            Json::Null
        },
        _ => Json::Null,
    }
}

pub open spec fn as_str(j: Json) -> Option<Seq<char>> {
    match j {
        Json::Str(s) => Some(s@),
        _ => None,
    }
}

/// Non-negative integer value of a number.
pub open spec fn as_u64(j: Json) -> Option<u64> {
    match j {
        Json::Number(t) => if t@.len() > 0 && all_digits(t@) {
            parse_u64_spec(t@)
        } else {
            None
        },
        _ => None,
    }
}

pub open spec fn as_bool(j: Json) -> Option<bool> {
    match j {
        Json::Bool(b) => Some(b),
        _ => None,
    }
}

pub open spec fn is_null(j: Json) -> bool {
    j is Null
}

pub open spec fn is_str(j: Json) -> bool {
    j is Str
}

pub open spec fn as_array(j: Json) -> Option<Seq<Json>> {
    match j {
        Json::Array(a) => Some(a@),
        _ => None,
    }
}

pub open spec fn as_object(j: Json) -> Option<Seq<(String, Json)>> {
    match j {
        Json::Object(e) => Some(e@),
        _ => None,
    }
}

/// `value == "text"`.
pub open spec fn is_text(j: Json, t: Seq<char>) -> bool {
    as_str(j) == Some(t)
}

impl Json {
    pub fn get<'a>(&'a self, key: &str) -> (r: &'a Json)
        ensures
            *r == get(*self, key@),
    {
        match self {
            Json::Object(e) => {
                let mut i: usize = 0;
                assert(e@.skip(0) =~= e@);
                while i < e.len()
                    invariant
                        i <= e.len(),
                        *self == Json::Object(*e),
                        lookup(e@, key@) == lookup(e@.skip(i as int), key@),
                    decreases e.len() - i,
                {
                    assert(e@.skip(i as int).drop_first() =~= e@.skip(i + 1));
                    if str_eq(e[i].0.as_str(), key) {
                        let ghost rest = e@.skip(i as int);
                        assert(rest[0] == e@[i as int]);
                        assert(rest[0].0@ == key@);
                        assert(lookup(rest, key@) == Some(rest[0].1));
                        return &e[i].1;
                    }
                    i += 1;
                }
                &Json::Null
            },
            _ => &Json::Null,
        }
    }

    pub fn at<'a>(&'a self, i: usize) -> (r: &'a Json)
        ensures
            *r == at(*self, i as int),
    {
        match self {
            Json::Array(a) => if i < a.len() {
                &a[i]
            } else {
                &Json::Null
            },
            _ => &Json::Null,
        }
    }

    pub fn as_str<'a>(&'a self) -> (r: Option<&'a String>)
        ensures
            match r {
                Some(s) => as_str(*self) == Some(s@),
                None => as_str(*self) is None,
            },
    {
        match self {
            Json::Str(s) => Some(s),
            _ => None,
        }
    }

    /// `value.as_str().unwrap_or(default)`, owned.
    pub fn str_or(&self, default: &str) -> (r: String)
        ensures
            r@ == match as_str(*self) {
                Some(s) => s,
                None => default@,
            },
    {
        match self {
            Json::Str(s) => s.clone(),
            _ => default.to_string(),
        }
    }

    pub fn as_u64(&self) -> (r: Option<u64>)
        ensures
            r == as_u64(*self),
    {
        match self {
            Json::Number(t) => {
                let v = chars_of(t.as_str());
                let mut i: usize = 0;
                while i < v.len()
                    invariant
                        i <= v.len(),
                        v@ == t@,
                        *self == Json::Number(*t),
                        forall|j: int| 0 <= j < i ==> is_digit(#[trigger] v@[j]),
                    decreases v.len() - i,
                {
                    if !char_is_digit(v[i]) {
                        assert(!is_digit(t@[i as int]));
                        return None;
                    }
                    i += 1;
                }
                if v.len() == 0 {
                    return None;
                }
                assert(all_digits(t@));
                parse_u64(&v)
            },
            _ => None,
        }
    }

    pub fn as_bool(&self) -> (r: Option<bool>)
        ensures
            r == as_bool(*self),
    {
        match self {
            Json::Bool(b) => Some(*b),
            _ => None,
        }
    }

    pub fn is_null(&self) -> (r: bool)
        ensures
            r == is_null(*self),
    {
        match self {
            Json::Null => true,
            _ => false,
        }
    }

    pub fn is_str(&self) -> (r: bool)
        ensures
            r == is_str(*self),
    {
        match self {
            Json::Str(_) => true,
            _ => false,
        }
    }

    pub fn as_array<'a>(&'a self) -> (r: Option<&'a Vec<Json>>)
        ensures
            match r {
                Some(a) => as_array(*self) == Some(a@),
                None => as_array(*self) is None,
            },
    {
        match self {
            Json::Array(a) => Some(a),
            _ => None,
        }
    }

    pub fn as_object<'a>(&'a self) -> (r: Option<&'a Vec<(String, Json)>>)
        ensures
            match r {
                Some(e) => as_object(*self) == Some(e@),
                None => as_object(*self) is None,
            },
    {
        match self {
            Json::Object(e) => Some(e),
            _ => None,
        }
    }

    /// `value == t` against a string.
    pub fn is_text(&self, t: &str) -> (r: bool)
        ensures
            r == is_text(*self, t@),
    {
        match self {
            Json::Str(s) => str_eq(s.as_str(), t),
            _ => false,
        }
    }
}


/// Writing into an object entry whose key is `key` leaves the lookups of
/// every other key unchanged.
pub proof fn lemma_lookup_update_other(entries: Seq<(String, Json)>, k: int, e: (String, Json), key: Seq<char>)
    requires
        0 <= k < entries.len(),
        entries[k].0@ == e.0@,
        key != e.0@,
    ensures
        lookup(entries.update(k, e), key) == lookup(entries, key),
    decreases entries.len(),
{
    if entries.len() > 0 && k > 0 {
        assert(entries.update(k, e).drop_first() =~= entries.drop_first().update(k - 1, e));
        lemma_lookup_update_other(entries.drop_first(), k - 1, e, key);
    } else if k == 0 {
        assert(entries.update(k, e).drop_first() =~= entries.drop_first());
    }
}

/// Appending an entry leaves the lookups of keys already present
/// unchanged, and of other keys it adds nothing.
pub proof fn lemma_lookup_push_other(entries: Seq<(String, Json)>, e: (String, Json), key: Seq<char>)
    requires
        key != e.0@,
    ensures
        lookup(entries.push(e), key) == lookup(entries, key),
    decreases entries.len(),
{
    if entries.len() > 0 {
        assert(entries.push(e).drop_first() =~= entries.drop_first().push(e));
        assert(entries.push(e)[0] == entries[0]);
        lemma_lookup_push_other(entries.drop_first(), e, key);
    } else {
        assert(entries.push(e).drop_first() =~= Seq::<(String, Json)>::empty());
        assert(entries.push(e)[0] == e);
        assert(lookup(Seq::<(String, Json)>::empty(), key) is None);
    }
}

pub proof fn lemma_lookup_none(entries: Seq<(String, Json)>, key: Seq<char>)
    requires
        forall|j: int| 0 <= j < entries.len() ==> #[trigger] entries[j].0@ != key,
    ensures
        lookup(entries, key) is None,
    decreases entries.len(),
{
    if entries.len() > 0 {
        assert forall|j: int| 0 <= j < entries.drop_first().len() implies #[trigger] entries.drop_first()[j].0@ != key by {
            assert(entries.drop_first()[j] == entries[j + 1]);
        }
        assert(entries[0].0@ != key);
        lemma_lookup_none(entries.drop_first(), key);
    }
}

pub open spec fn is_object_or_null(j: Json) -> bool {
    j is Object || j is Null
}

impl Json {
    /// `value[key] = v`: the member is replaced (or added at the end; a
    /// `Null` value becomes an object holding just it). Only objects and
    /// `Null` can take a member.
    pub fn with_member(self, key: &str, v: Json) -> (r: Json)
        requires
            is_object_or_null(self),
        ensures
            r is Object,
            get(r, key@) == v,
            has_member(r, key@),
            forall|k: Seq<char>| k != key@ ==> #[trigger] get(r, k) == get(self, k),
            forall|k: Seq<char>| k != key@ ==> #[trigger] has_member(r, k) == has_member(self, k),
    {
        match self {
            Json::Object(mut e) => {
                let ghost o = e@;
                let mut k: usize = 0;
                while k < e.len() && !str_eq(e[k].0.as_str(), key)
                    invariant
                        k <= e.len(),
                        o == e@,
                        forall|j: int| 0 <= j < k ==> #[trigger] o[j].0@ != key@,
                    decreases e.len() - k,
                {
                    k += 1;
                }
                let entry = (key.to_string(), v);
                if k < e.len() {
                    e.set(k, entry);
                    proof {
                        lemma_lookup_at(e@, k as int, key@);
                        assert forall|kk: Seq<char>| kk != key@ implies lookup(e@, kk) == lookup(o, kk) by {
                            lemma_lookup_update_other(o, k as int, entry, kk);
                            assert(e@ == o.update(k as int, entry));
                        }
                    }
                } else {
                    e.push(entry);
                    proof {
                        lemma_lookup_at(e@, k as int, key@);
                        assert forall|kk: Seq<char>| kk != key@ implies lookup(e@, kk) == lookup(o, kk) by {
                            lemma_lookup_push_other(o, entry, kk);
                            assert(e@ == o.push(entry));
                        }
                    }
                }
                Json::Object(e)
            },
            _ => {
                let mut e: Vec<(String, Json)> = Vec::new();
                e.push((key.to_string(), v));
                proof {
                    lemma_lookup_at(e@, 0, key@);
                    assert forall|kk: Seq<char>| kk != key@ implies lookup(e@, kk) is None by {
                        lemma_lookup_none(e@, kk);
                    }
                }
                Json::Object(e)
            },
        }
    }
}


/// Whether an object has a member named `key` (whatever its value).
pub open spec fn has_member(j: Json, key: Seq<char>) -> bool {
    match j {
        Json::Object(e) => lookup(e@, key) is Some,
        _ => false,
    }
}

impl Json {
    pub fn has_key(&self, key: &str) -> (r: bool)
        ensures
            r == has_member(*self, key@),
    {
        match self {
            Json::Object(e) => {
                let mut i: usize = 0;
                assert(e@.skip(0) =~= e@);
                while i < e.len()
                    invariant
                        i <= e.len(),
                        *self == Json::Object(*e),
                        lookup(e@, key@) == lookup(e@.skip(i as int), key@),
                    decreases e.len() - i,
                {
                    assert(e@.skip(i as int).drop_first() =~= e@.skip(i + 1));
                    if str_eq(e[i].0.as_str(), key) {
                        assert(e@.skip(i as int)[0] == e@[i as int]);
                        return true;
                    }
                    i += 1;
                }
                assert(e@.skip(i as int) =~= Seq::<(String, Json)>::empty());
                false
            },
            _ => false,
        }
    }
}

} // verus!

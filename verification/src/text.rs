//! Character-level text model shared by every module: the string
//! operations the launcher needs (split, trim, prefix tests, decimal
//! parsing), each stated over `Seq<char>` and implemented over `Vec<char>`.
use vstd::prelude::*;

verus! {

// ---------------------------------------------------------------------
// Specifications
// ---------------------------------------------------------------------

/// Unicode `White_Space`, the set that `str::trim` and
/// `str::split_whitespace` use.
pub open spec fn is_ws(c: char) -> bool {
    ||| c == '\t' || c == '\n' || c == '\u{0B}' || c == '\u{0C}' || c == '\r' || c == ' '
    ||| c == '\u{85}' || c == '\u{A0}' || c == '\u{1680}'
    ||| ('\u{2000}' <= c && c <= '\u{200A}')
    ||| c == '\u{2028}' || c == '\u{2029}' || c == '\u{202F}' || c == '\u{205F}'
    ||| c == '\u{3000}'
}

pub open spec fn is_digit(c: char) -> bool {
    '0' <= c && c <= '9'
}

pub open spec fn digit_val(c: char) -> int {
    (c as int) - ('0' as int)
}

pub open spec fn all_digits(s: Seq<char>) -> bool {
    forall|i: int| 0 <= i < s.len() ==> is_digit(#[trigger] s[i])
}

/// Decimal value of a digit string (most significant digit first).
pub open spec fn digits_value(s: Seq<char>) -> nat
    decreases s.len(),
{
    if s.len() == 0 {
        0
    } else {
        (digits_value(s.drop_last()) * 10 + digit_val(s.last())) as nat
    }
}

/// `str::parse::<u64>`: an optional `+`, then one or more ASCII digits
/// whose value fits in 64 bits.
pub open spec fn parse_u64_spec(s: Seq<char>) -> Option<u64> {
    let d = if s.len() > 0 && s[0] == '+' { s.drop_first() } else { s };
    if d.len() == 0 || !all_digits(d) || digits_value(d) > u64::MAX {
        None
    } else {
        Some(digits_value(d) as u64)
    }
}

/// `str::parse::<i32>`: an optional sign, then one or more ASCII digits
/// whose signed value fits in 32 bits.
pub open spec fn parse_i32_spec(s: Seq<char>) -> Option<i32> {
    let neg = s.len() > 0 && s[0] == '-';
    let d = if s.len() > 0 && (s[0] == '+' || s[0] == '-') { s.drop_first() } else { s };
    if d.len() == 0 || !all_digits(d) {
        None
    } else if neg {
        if digits_value(d) > 0x8000_0000 {
            None
        } else {
            Some((0 - digits_value(d)) as i32)
        }
    } else {
        if digits_value(d) > 0x7fff_ffff {
            None
        } else {
            Some(digits_value(d) as i32)
        }
    }
}

pub open spec fn starts_with(s: Seq<char>, p: Seq<char>) -> bool {
    p.len() <= s.len() && s.take(p.len() as int) == p
}

pub open spec fn ends_with(s: Seq<char>, p: Seq<char>) -> bool {
    p.len() <= s.len() && s.skip(s.len() - p.len()) == p
}

pub open spec fn occurs_at(s: Seq<char>, p: Seq<char>, i: int) -> bool {
    0 <= i && i + p.len() <= s.len() && s.subrange(i, i + p.len()) == p
}

pub open spec fn contains_sub(s: Seq<char>, p: Seq<char>) -> bool {
    exists|i: int| occurs_at(s, p, i)
}

pub open spec fn trim_start(s: Seq<char>) -> Seq<char>
    decreases s.len(),
{
    if s.len() > 0 && is_ws(s[0]) {
        trim_start(s.drop_first())
    } else {
        s
    }
}

pub open spec fn trim_end(s: Seq<char>) -> Seq<char>
    decreases s.len(),
{
    if s.len() > 0 && is_ws(s.last()) {
        trim_end(s.drop_last())
    } else {
        s
    }
}

/// `str::trim`.
pub open spec fn trim(s: Seq<char>) -> Seq<char> {
    trim_start(trim_end(s))
}

/// `str::trim_start_matches(c)` for a single character.
pub open spec fn trim_start_char(s: Seq<char>, c: char) -> Seq<char>
    decreases s.len(),
{
    if s.len() > 0 && s[0] == c {
        trim_start_char(s.drop_first(), c)
    } else {
        s
    }
}

/// `str::split` on any character of `seps`: the pieces between
/// separators, empty pieces included (so the result is never empty).
pub open spec fn split(s: Seq<char>, seps: Seq<char>) -> Seq<Seq<char>>
    decreases s.len(),
{
    if s.len() == 0 {
        seq![Seq::<char>::empty()]
    } else {
        let r = split(s.drop_last(), seps);
        if seps.contains(s.last()) {
            r.push(Seq::<char>::empty())
        } else {
            r.update(r.len() - 1, r.last().push(s.last()))
        }
    }
}

/// Pieces of `split` on whitespace that are not empty
/// (`str::split_whitespace`).
pub open spec fn nonempty(p: Seq<char>) -> bool {
    p.len() > 0
}

pub open spec fn ws_chars() -> Seq<char> {
    seq![
        '\t', '\n', '\u{0B}', '\u{0C}', '\r', ' ', '\u{85}', '\u{A0}', '\u{1680}', '\u{2000}',
        '\u{2001}', '\u{2002}', '\u{2003}', '\u{2004}', '\u{2005}', '\u{2006}', '\u{2007}',
        '\u{2008}', '\u{2009}', '\u{200A}', '\u{2028}', '\u{2029}', '\u{202F}', '\u{205F}',
        '\u{3000}',
    ]
}

pub open spec fn split_whitespace(s: Seq<char>) -> Seq<Seq<char>> {
    split_ws_raw(s).filter(|p: Seq<char>| nonempty(p))
}

/// `split` on whitespace, stated with the `is_ws` predicate.
pub open spec fn split_ws_raw(s: Seq<char>) -> Seq<Seq<char>>
    decreases s.len(),
{
    if s.len() == 0 {
        seq![Seq::<char>::empty()]
    } else {
        let r = split_ws_raw(s.drop_last());
        if is_ws(s.last()) {
            r.push(Seq::<char>::empty())
        } else {
            r.update(r.len() - 1, r.last().push(s.last()))
        }
    }
}

/// Join pieces with a separator.
pub open spec fn join(parts: Seq<Seq<char>>, sep: Seq<char>) -> Seq<char>
    decreases parts.len(),
{
    if parts.len() == 0 {
        Seq::<char>::empty()
    } else if parts.len() == 1 {
        parts[0]
    } else {
        join(parts.drop_last(), sep) + sep + parts.last()
    }
}

/// Drop one trailing carriage return.
pub open spec fn strip_cr(p: Seq<char>) -> Seq<char> {
    if p.len() > 0 && p.last() == '\r' {
        p.drop_last()
    } else {
        p
    }
}

/// `str::lines`: pieces between `\n`, a `\r` before each `\n` removed,
/// and no empty piece after a final `\n`.
pub open spec fn lines(s: Seq<char>) -> Seq<Seq<char>> {
    let parts = split(s, seq!['\n']);
    if s.len() == 0 || s.last() == '\n' {
        parts.drop_last().map_values(|p: Seq<char>| strip_cr(p))
    } else {
        parts.drop_last().map_values(|p: Seq<char>| strip_cr(p)).push(parts.last())
    }
}

/// Replace every `from` character by `to`.
pub open spec fn replace_char(s: Seq<char>, from: char, to: char) -> Seq<char> {
    s.map_values(|c: char| if c == from { to } else { c })
}

// ---------------------------------------------------------------------
// Lemmas
// ---------------------------------------------------------------------

pub proof fn lemma_split_nonempty(s: Seq<char>, seps: Seq<char>)
    ensures
        split(s, seps).len() >= 1,
    decreases s.len(),
{
    if s.len() > 0 {
        lemma_split_nonempty(s.drop_last(), seps);
    }
}

pub proof fn lemma_split_ws_nonempty(s: Seq<char>)
    ensures
        split_ws_raw(s).len() >= 1,
    decreases s.len(),
{
    if s.len() > 0 {
        lemma_split_ws_nonempty(s.drop_last());
    }
}

pub proof fn lemma_digits_value_mono(s: Seq<char>, k: int)
    requires
        0 <= k <= s.len(),
        all_digits(s),
    ensures
        digits_value(s.take(k)) <= digits_value(s),
    decreases s.len() - k,
{
    if k < s.len() {
        lemma_digits_value_mono(s, k + 1);
        assert(s.take(k + 1).drop_last() =~= s.take(k));
        assert(s.take(k + 1).last() == s[k]);
        assert(is_digit(s[k]));
        assert(digits_value(s.take(k + 1)) >= digits_value(s.take(k))) by (nonlinear_arith)
            requires
                digits_value(s.take(k + 1)) == digits_value(s.take(k)) * 10 + digit_val(s[k]),
                digit_val(s[k]) >= 0,
        ;
    } else {
        assert(s.take(k) =~= s);
    }
}

// ---------------------------------------------------------------------
// Executable helpers
// ---------------------------------------------------------------------

/// Build a `String` from characters (`FromIterator<&char> for String`).
#[verifier::external_body]
pub(crate) fn string_of(v: &Vec<char>) -> (s: String)
    ensures
        s@ == v@,
{
    v.iter().collect()
}

/// Characters of a string slice.
pub fn chars_of(s: &str) -> (v: Vec<char>)
    ensures
        v@ == s@,
{
    let mut v: Vec<char> = Vec::new();
    for c in it: s.chars()
        invariant
            v@ == it.seq().take(it.index() as int),
            it.seq() == s@,
    {
        v.push(c);
    }
    v
}

pub fn char_is_ws(c: char) -> (r: bool)
    ensures
        r == is_ws(c),
{
    c == '\t' || c == '\n' || c == '\u{0B}' || c == '\u{0C}' || c == '\r' || c == ' ' || c
        == '\u{85}' || c == '\u{A0}' || c == '\u{1680}' || ('\u{2000}' <= c && c <= '\u{200A}')
        || c == '\u{2028}' || c == '\u{2029}' || c == '\u{202F}' || c == '\u{205F}' || c
        == '\u{3000}'
}

pub fn char_is_digit(c: char) -> (r: bool)
    ensures
        r == is_digit(c),
{
    '0' <= c && c <= '9'
}

/// Copy of a character range.
pub fn sub_chars(s: &Vec<char>, from: usize, to: usize) -> (r: Vec<char>)
    requires
        from <= to <= s.len(),
    ensures
        r@ == s@.subrange(from as int, to as int),
{
    let mut r: Vec<char> = Vec::new();
    let mut i: usize = from;
    while i < to
        invariant
            from <= i <= to <= s.len(),
            r@ == s@.subrange(from as int, i as int),
        decreases to - i,
    {
        r.push(s[i]);
        i += 1;
    }
    r
}

pub fn chars_eq(a: &Vec<char>, b: &Vec<char>) -> (r: bool)
    ensures
        r == (a@ == b@),
{
    if a.len() != b.len() {
        return false;
    }
    let mut i: usize = 0;
    while i < a.len()
        invariant
            a.len() == b.len(),
            i <= a.len(),
            forall|j: int| 0 <= j < i ==> a@[j] == b@[j],
        decreases a.len() - i,
    {
        if a[i] != b[i] {
            return false;
        }
        i += 1;
    }
    assert(a@ =~= b@);
    true
}

/// Equality of two string slices.
pub fn str_eq(a: &str, b: &str) -> (r: bool)
    ensures
        r == (a@ == b@),
{
    let va = chars_of(a);
    let vb = chars_of(b);
    chars_eq(&va, &vb)
}

pub fn chars_starts_with(s: &Vec<char>, p: &Vec<char>) -> (r: bool)
    ensures
        r == starts_with(s@, p@),
{
    if p.len() > s.len() {
        return false;
    }
    let mut i: usize = 0;
    while i < p.len()
        invariant
            p.len() <= s.len(),
            i <= p.len(),
            forall|j: int| 0 <= j < i ==> s@[j] == p@[j],
        decreases p.len() - i,
    {
        if s[i] != p[i] {
            assert(s@.take(p.len() as int)[i as int] != p@[i as int]);
            return false;
        }
        i += 1;
    }
    assert(s@.take(p.len() as int) =~= p@);
    true
}

pub fn chars_ends_with(s: &Vec<char>, p: &Vec<char>) -> (r: bool)
    ensures
        r == ends_with(s@, p@),
{
    if p.len() > s.len() {
        return false;
    }
    let off: usize = s.len() - p.len();
    let mut i: usize = 0;
    while i < p.len()
        invariant
            p.len() <= s.len(),
            off == s.len() - p.len(),
            i <= p.len(),
            forall|j: int| 0 <= j < i ==> s@[off + j] == p@[j],
        decreases p.len() - i,
    {
        if s[off + i] != p[i] {
            assert(s@.skip(off as int)[i as int] != p@[i as int]);
            return false;
        }
        i += 1;
    }
    assert(s@.skip(off as int) =~= p@);
    true
}

/// Whether `p` occurs in `s` at position `i`.
pub fn chars_occurs_at(s: &Vec<char>, p: &Vec<char>, i: usize) -> (r: bool)
    ensures
        r == occurs_at(s@, p@, i as int),
{
    if i > s.len() || p.len() > s.len() - i {
        return false;
    }
    let mut k: usize = 0;
    while k < p.len()
        invariant
            i + p.len() <= s.len(),
            k <= p.len(),
            forall|j: int| 0 <= j < k ==> s@[i + j] == p@[j],
        decreases p.len() - k,
    {
        if s[i + k] != p[k] {
            assert(s@.subrange(i as int, i + p.len())[k as int] != p@[k as int]);
            return false;
        }
        k += 1;
    }
    assert(s@.subrange(i as int, i + p.len()) =~= p@);
    true
}

/// First position of `p` in `s`, if any.
pub fn chars_find(s: &Vec<char>, p: &Vec<char>) -> (r: Option<usize>)
    ensures
        match r {
            Some(i) => occurs_at(s@, p@, i as int) && forall|j: int|
                0 <= j < i ==> !occurs_at(s@, p@, j),
            None => !contains_sub(s@, p@),
        },
{
    if p.len() == 0 {
        assert(s@.subrange(0, 0) =~= p@);
        return Some(0);
    }
    let mut i: usize = 0;
    while i < s.len()
        invariant
            i <= s.len(),
            forall|j: int| 0 <= j < i ==> !occurs_at(s@, p@, j),
        decreases s.len() - i,
    {
        if chars_occurs_at(s, p, i) {
            return Some(i);
        }
        i += 1;
    }
    assert forall|j: int| !occurs_at(s@, p@, j) by {
        if 0 <= j < i {
        } else {
        }
    }
    None
}

pub fn chars_contains(s: &Vec<char>, p: &Vec<char>) -> (r: bool)
    ensures
        r == contains_sub(s@, p@),
{
    match chars_find(s, p) {
        Some(_) => true,
        None => false,
    }
}

pub fn chars_contains_char(s: &Vec<char>, c: char) -> (r: bool)
    ensures
        r == s@.contains(c),
{
    let mut i: usize = 0;
    while i < s.len()
        invariant
            i <= s.len(),
            forall|j: int| 0 <= j < i ==> s@[j] != c,
        decreases s.len() - i,
    {
        if s[i] == c {
            return true;
        }
        i += 1;
    }
    false
}

pub fn chars_trim_start(s: &Vec<char>) -> (r: Vec<char>)
    ensures
        r@ == trim_start(s@),
{
    let mut i: usize = 0;
    assert(s@.skip(0) =~= s@);
    while i < s.len() && char_is_ws(s[i])
        invariant
            i <= s.len(),
            trim_start(s@) == trim_start(s@.skip(i as int)),
        decreases s.len() - i,
    {
        assert(s@.skip(i as int).drop_first() =~= s@.skip(i + 1));
        i += 1;
    }
    sub_chars(s, i, s.len())
}

pub fn chars_trim_end(s: &Vec<char>) -> (r: Vec<char>)
    ensures
        r@ == trim_end(s@),
{
    let mut j: usize = s.len();
    assert(s@.take(s.len() as int) =~= s@);
    while j > 0 && char_is_ws(s[j - 1])
        invariant
            j <= s.len(),
            trim_end(s@) == trim_end(s@.take(j as int)),
        decreases j,
    {
        assert(s@.take(j as int).drop_last() =~= s@.take(j - 1));
        j -= 1;
    }
    assert(s@.take(j as int) =~= s@.subrange(0, j as int));
    sub_chars(s, 0, j)
}

pub fn chars_trim(s: &Vec<char>) -> (r: Vec<char>)
    ensures
        r@ == trim(s@),
{
    let e = chars_trim_end(s);
    chars_trim_start(&e)
}

pub fn chars_trim_start_char(s: &Vec<char>, c: char) -> (r: Vec<char>)
    ensures
        r@ == trim_start_char(s@, c),
{
    let mut i: usize = 0;
    assert(s@.skip(0) =~= s@);
    while i < s.len() && s[i] == c
        invariant
            i <= s.len(),
            trim_start_char(s@, c) == trim_start_char(s@.skip(i as int), c),
        decreases s.len() - i,
    {
        assert(s@.skip(i as int).drop_first() =~= s@.skip(i + 1));
        i += 1;
    }
    sub_chars(s, i, s.len())
}

/// `str::split` on any character of `seps`.
pub fn chars_split(s: &Vec<char>, seps: &Vec<char>) -> (r: Vec<Vec<char>>)
    ensures
        r@.len() == split(s@, seps@).len(),
        forall|k: int| 0 <= k < r@.len() ==> #[trigger] r@[k]@ == split(s@, seps@)[k],
{
    let mut out: Vec<Vec<char>> = Vec::new();
    let mut cur: Vec<char> = Vec::new();
    let mut i: usize = 0;
    while i < s.len()
        invariant
            i <= s.len(),
            out@.len() + 1 == split(s@.take(i as int), seps@).len(),
            forall|k: int|
                0 <= k < out@.len() ==> #[trigger] out@[k]@ == split(s@.take(i as int), seps@)[k],
            cur@ == split(s@.take(i as int), seps@).last(),
        decreases s.len() - i,
    {
        proof {
            lemma_split_nonempty(s@.take(i as int), seps@);
            assert(s@.take(i + 1).drop_last() =~= s@.take(i as int));
        }
        let c = s[i];
        if chars_contains_char(seps, c) {
            let done = cur;
            out.push(done);
            cur = Vec::new();
        } else {
            cur.push(c);
        }
        i += 1;
    }
    proof {
        assert(s@.take(s.len() as int) =~= s@);
    }
    out.push(cur);
    out
}

/// Pieces of `s` between whitespace characters, empty pieces dropped.
pub fn chars_split_whitespace(s: &Vec<char>) -> (r: Vec<Vec<char>>)
    ensures
        r@.len() == split_whitespace(s@).len(),
        forall|k: int| 0 <= k < r@.len() ==> #[trigger] r@[k]@ == split_whitespace(s@)[k],
{
    let mut out: Vec<Vec<char>> = Vec::new();
    let mut cur: Vec<char> = Vec::new();
    let mut i: usize = 0;
    let ghost pred = |p: Seq<char>| nonempty(p);
    while i < s.len()
        invariant
            i <= s.len(),
            pred == (|p: Seq<char>| nonempty(p)),
            out@.len() == split_ws_raw(s@.take(i as int)).drop_last().filter(pred).len(),
            forall|k: int|
                0 <= k < out@.len() ==> #[trigger] out@[k]@ == split_ws_raw(
                    s@.take(i as int),
                ).drop_last().filter(pred)[k],
            cur@ == split_ws_raw(s@.take(i as int)).last(),
        decreases s.len() - i,
    {
        let ghost before = split_ws_raw(s@.take(i as int));
        proof {
            lemma_split_ws_nonempty(s@.take(i as int));
            assert(s@.take(i + 1).drop_last() =~= s@.take(i as int));
        }
        let c = s[i];
        if char_is_ws(c) {
            proof {
                let after = split_ws_raw(s@.take(i + 1));
                assert(after == before.push(Seq::<char>::empty()));
                assert(after.drop_last() =~= before);
                assert(before =~= before.drop_last().push(before.last()));
                reveal(Seq::filter);
                assert(before.drop_last().push(before.last()).filter(pred) == if pred(
                    before.last(),
                ) {
                    before.drop_last().filter(pred).push(before.last())
                } else {
                    before.drop_last().filter(pred)
                });
            }
            if cur.len() > 0 {
                let done = cur;
                out.push(done);
            }
            cur = Vec::new();
            proof {
                let after = split_ws_raw(s@.take(i + 1));
                assert(after.drop_last() =~= before);
                assert(before =~= before.drop_last().push(before.last()));
            }
        } else {
            cur.push(c);
            proof {
                let after = split_ws_raw(s@.take(i + 1));
                assert(after.drop_last() =~= before.drop_last());
            }
        }
        i += 1;
    }
    proof {
        assert(s@.take(s.len() as int) =~= s@);
        let all = split_ws_raw(s@);
        lemma_split_ws_nonempty(s@);
        assert(all =~= all.drop_last().push(all.last()));
        reveal(Seq::filter);
        assert(all.drop_last().push(all.last()).filter(pred) == if pred(all.last()) {
            all.drop_last().filter(pred).push(all.last())
        } else {
            all.drop_last().filter(pred)
        });
    }
    if cur.len() > 0 {
        out.push(cur);
    }
    out
}

/// `str::parse::<u64>`.
pub fn parse_u64(s: &Vec<char>) -> (r: Option<u64>)
    ensures
        r == parse_u64_spec(s@),
{
    let start: usize = if s.len() > 0 && s[0] == '+' { 1 } else { 0 };
    let ghost d = if s@.len() > 0 && s@[0] == '+' { s@.drop_first() } else { s@ };
    assert(d =~= s@.skip(start as int));
    if start >= s.len() {
        assert(d.len() == 0);
        return None;
    }
    let mut acc: u64 = 0;
    let mut i: usize = start;
    while i < s.len()
        invariant
            start <= i <= s.len(),
            d == s@.skip(start as int),
            d == (if s@.len() > 0 && s@[0] == '+' { s@.drop_first() } else { s@ }),
            all_digits(s@.subrange(start as int, i as int)),
            acc == digits_value(s@.subrange(start as int, i as int)),
        decreases s.len() - i,
    {
        let c = s[i];
        assert(s@.subrange(start as int, i + 1).drop_last() =~= s@.subrange(
            start as int,
            i as int,
        ));
        if !char_is_digit(c) {
            assert(d[i - start] == c);
            assert(!all_digits(d));
            assert(parse_u64_spec(s@) is None);
            return None;
        }
        let dv = (c as u32 - '0' as u32) as u64;
        let ghost pre = s@.subrange(start as int, i + 1);
        proof {
            assert(pre.drop_last() =~= s@.subrange(start as int, i as int));
            assert(pre.last() == c);
            assert(digits_value(pre) == acc * 10 + dv);
            if all_digits(d) {
                assert(d.take(i + 1 - start) =~= pre);
                lemma_digits_value_mono(d, i + 1 - start);
            }
        }
        if acc > 1844674407370955161 || (acc == 1844674407370955161 && dv > 5) {
            assert(digits_value(pre) > u64::MAX);
            assert(parse_u64_spec(s@) is None);
            return None;
        }
        acc = acc * 10 + dv;
        assert(all_digits(pre));
        i += 1;
    }
    assert(s@.subrange(start as int, s.len() as int) =~= d);
    Some(acc)
}


/// Append characters.
pub fn push_chars(out: &mut Vec<char>, v: &Vec<char>)
    ensures
        final(out)@ == old(out)@ + v@,
{
    let mut i: usize = 0;
    while i < v.len()
        invariant
            i <= v.len(),
            out@ == old(out)@ + v@.take(i as int),
        decreases v.len() - i,
    {
        out.push(v[i]);
        i += 1;
        assert(out@ =~= old(out)@ + v@.take(i as int));
    }
    assert(v@.take(v.len() as int) =~= v@);
}

/// Append the characters of a string slice.
pub fn push_str(out: &mut Vec<char>, s: &str)
    ensures
        final(out)@ == old(out)@ + s@,
{
    let v = chars_of(s);
    push_chars(out, &v);
}

/// Views of a list of character vectors.
pub open spec fn views(v: Seq<Vec<char>>) -> Seq<Seq<char>> {
    v.map_values(|p: Vec<char>| p@)
}

/// Pieces joined by a separator.
pub fn join_chars(parts: &Vec<Vec<char>>, sep: &str) -> (r: Vec<char>)
    ensures
        r@ == join(views(parts@), sep@),
{
    let mut out: Vec<char> = Vec::new();
    let mut i: usize = 0;
    while i < parts.len()
        invariant
            i <= parts.len(),
            out@ == join(views(parts@).take(i as int), sep@),
        decreases parts.len() - i,
    {
        let ghost before = views(parts@).take(i as int);
        proof {
            assert(views(parts@).take(i + 1).drop_last() =~= before);
            assert(views(parts@).take(i + 1).last() == parts@[i as int]@);
        }
        if i > 0 {
            push_str(&mut out, sep);
        } else {
            assert(views(parts@).take(1) =~= seq![parts@[0]@]);
        }
        push_chars(&mut out, &parts[i]);
        i += 1;
    }
    assert(views(parts@).take(parts.len() as int) =~= views(parts@));
    out
}

/// Every `from` character replaced by `to`.
pub fn chars_replace(s: &Vec<char>, from: char, to: char) -> (r: Vec<char>)
    ensures
        r@ == replace_char(s@, from, to),
{
    let mut out: Vec<char> = Vec::new();
    let mut i: usize = 0;
    while i < s.len()
        invariant
            i <= s.len(),
            out@ == replace_char(s@.take(i as int), from, to),
        decreases s.len() - i,
    {
        if s[i] == from {
            out.push(to);
        } else {
            out.push(s[i]);
        }
        i += 1;
        assert(out@ =~= replace_char(s@.take(i as int), from, to));
    }
    assert(s@.take(s.len() as int) =~= s@);
    out
}

/// Copy of a character vector.
pub fn chars_copy(s: &Vec<char>) -> (r: Vec<char>)
    ensures
        r@ == s@,
{
    sub_chars(s, 0, s.len())
}

/// Decimal digits of a number, as `u64::to_string` writes them.
pub open spec fn decimal(n: nat) -> Seq<char>
    decreases n,
{
    if n < 10 {
        seq![digit_char(n)]
    } else {
        decimal(n / 10).push(digit_char(n % 10))
    }
}

pub open spec fn digit_char(d: nat) -> char {
    if d == 0 {
        '0'
    } else if d == 1 {
        '1'
    } else if d == 2 {
        '2'
    } else if d == 3 {
        '3'
    } else if d == 4 {
        '4'
    } else if d == 5 {
        '5'
    } else if d == 6 {
        '6'
    } else if d == 7 {
        '7'
    } else if d == 8 {
        '8'
    } else {
        '9'
    }
}

fn digit_to_char(d: u64) -> (c: char)
    requires
        d < 10,
    ensures
        c == digit_char(d as nat),
{
    if d == 0 {
        '0'
    } else if d == 1 {
        '1'
    } else if d == 2 {
        '2'
    } else if d == 3 {
        '3'
    } else if d == 4 {
        '4'
    } else if d == 5 {
        '5'
    } else if d == 6 {
        '6'
    } else if d == 7 {
        '7'
    } else if d == 8 {
        '8'
    } else {
        '9'
    }
}

/// Decimal digits of `n`.
pub fn decimal_chars(n: u64) -> (r: Vec<char>)
    ensures
        r@ == decimal(n as nat),
    decreases n,
{
    if n < 10 {
        let mut v: Vec<char> = Vec::new();
        v.push(digit_to_char(n));
        v
    } else {
        let mut v = decimal_chars(n / 10);
        v.push(digit_to_char(n % 10));
        v
    }
}

/// First position of `p` in `s` at or after `k`.
pub open spec fn find_from(s: Seq<char>, p: Seq<char>, k: int) -> Option<int>
    decreases s.len() + 1 - k,
{
    if k < 0 || k + p.len() > s.len() {
        None
    } else if occurs_at(s, p, k) {
        Some(k)
    } else {
        find_from(s, p, k + 1)
    }
}

/// First position of `p` in `s` (`str::find`).
pub open spec fn find(s: Seq<char>, p: Seq<char>) -> Option<int> {
    find_from(s, p, 0)
}

pub proof fn lemma_find_from_some(s: Seq<char>, p: Seq<char>, k: int, i: int)
    requires
        0 <= k <= i,
        occurs_at(s, p, i),
        forall|j: int| k <= j < i ==> !occurs_at(s, p, j),
    ensures
        find_from(s, p, k) == Some(i),
    decreases i - k,
{
    if k < i {
        lemma_find_from_some(s, p, k + 1, i);
    }
}

pub proof fn lemma_find_from_none(s: Seq<char>, p: Seq<char>, k: int)
    requires
        0 <= k,
        !contains_sub(s, p),
    ensures
        find_from(s, p, k) is None,
    decreases s.len() + 1 - k,
{
    if k + p.len() <= s.len() {
        assert(!occurs_at(s, p, k));
        lemma_find_from_none(s, p, k + 1);
    }
}

pub proof fn lemma_find_bounds(s: Seq<char>, p: Seq<char>, k: int)
    ensures
        find_from(s, p, k) matches Some(i) ==> k <= i && i + p.len() <= s.len() && occurs_at(s, p, i),
    decreases s.len() + 1 - k,
{
    if k >= 0 && k + p.len() <= s.len() && !occurs_at(s, p, k) {
        lemma_find_bounds(s, p, k + 1);
    }
}

/// `str::find`.
pub fn chars_find_first(s: &Vec<char>, p: &Vec<char>) -> (r: Option<usize>)
    ensures
        match r {
            Some(i) => find(s@, p@) == Some(i as int),
            None => find(s@, p@) is None,
        },
{
    let r = chars_find(s, p);
    proof {
        match r {
            Some(i) => lemma_find_from_some(s@, p@, 0, i as int),
            None => lemma_find_from_none(s@, p@, 0),
        }
    }
    r
}

pub open spec fn string_views(v: Seq<String>) -> Seq<Seq<char>> {
    v.map_values(|s: String| s@)
}

pub open spec fn pair_views(v: Seq<(String, String)>) -> Seq<(Seq<char>, Seq<char>)> {
    v.map_values(|p: (String, String)| (p.0@, p.1@))
}

/// `str::parse::<i32>`.
pub fn parse_i32(s: &Vec<char>) -> (r: Option<i32>)
    ensures
        r == parse_i32_spec(s@),
{
    let neg = s.len() > 0 && s[0] == '-';
    let start: usize = if s.len() > 0 && (s[0] == '+' || s[0] == '-') { 1 } else { 0 };
    let ghost d = if s@.len() > 0 && (s@[0] == '+' || s@[0] == '-') { s@.drop_first() } else { s@ };
    assert(d =~= s@.skip(start as int));
    if start >= s.len() {
        assert(d.len() == 0);
        return None;
    }
    let limit: u64 = if neg { 0x8000_0000 } else { 0x7fff_ffff };
    let mut acc: u64 = 0;
    let mut i: usize = start;
    let mut over = false;
    while i < s.len()
        invariant
            start <= i <= s.len(),
            d == s@.skip(start as int),
            d == (if s@.len() > 0 && (s@[0] == '+' || s@[0] == '-') { s@.drop_first() } else { s@ }),
            all_digits(s@.subrange(start as int, i as int)),
            !over ==> acc == digits_value(s@.subrange(start as int, i as int)),
            acc <= limit,
            limit == (if neg { 0x8000_0000u64 } else { 0x7fff_ffffu64 }),
            neg == (s@.len() > 0 && s@[0] == '-'),
            over ==> digits_value(s@.subrange(start as int, i as int)) > limit,
        decreases s.len() - i,
    {
        let c = s[i];
        let ghost pre = s@.subrange(start as int, i + 1);
        assert(pre.drop_last() =~= s@.subrange(start as int, i as int));
        if !char_is_digit(c) {
            assert(d[i - start] == c);
            assert(!all_digits(d));
            return None;
        }
        let dv = (c as u32 - '0' as u32) as u64;
        assert(pre.last() == c);
        if !over {
            assert(digits_value(pre) == acc * 10 + dv);
            if acc * 10 + dv > limit {
                over = true;
            } else {
                acc = acc * 10 + dv;
            }
        } else {
            assert(digits_value(pre) >= digits_value(s@.subrange(start as int, i as int))) by (nonlinear_arith)
                requires
                    digits_value(pre) == digits_value(s@.subrange(start as int, i as int)) * 10 + dv,
            ;
        }
        assert(all_digits(pre));
        i += 1;
    }
    assert(s@.subrange(start as int, s.len() as int) =~= d);
    if over {
        return None;
    }
    if neg {
        Some((0 - (acc as i64)) as i32)
    } else {
        Some(acc as i32)
    }
}

/// `str::replace` of every non-overlapping occurrence, left to right.
pub open spec fn replace_all(s: Seq<char>, pat: Seq<char>, to: Seq<char>) -> Seq<char>
    decreases s.len(),
{
    if pat.len() == 0 {
        s
    } else {
        match find(s, pat) {
            None => s,
            Some(i) => if 0 <= i && i + pat.len() <= s.len() {
                s.take(i) + to + replace_all(s.skip(i + pat.len()), pat, to)
            } else {
                s
            },
        }
    }
}

/// Replace every occurrence of a non-empty pattern.
pub fn chars_replace_all(s: &Vec<char>, pat: &Vec<char>, to: &Vec<char>) -> (r: Vec<char>)
    requires
        pat@.len() > 0,
    ensures
        r@ == replace_all(s@, pat@, to@),
{
    let mut out: Vec<char> = Vec::new();
    let mut rest = chars_copy(s);
    assert(out@ + replace_all(rest@, pat@, to@) =~= replace_all(s@, pat@, to@));
    loop
        invariant
            pat@.len() > 0,
            out@ + replace_all(rest@, pat@, to@) == replace_all(s@, pat@, to@),
        decreases rest@.len(),
    {
        proof {
            lemma_find_bounds(rest@, pat@, 0);
        }
        match chars_find_first(&rest, pat) {
            None => {
                let ghost o = out@;
                push_chars(&mut out, &rest);
                assert(out@ =~= replace_all(s@, pat@, to@));
                return out;
            },
            Some(i) => {
                assert(find(rest@, pat@) == Some(i as int));
                assert(i + pat.len() <= rest.len());
                let head = sub_chars(&rest, 0, i);
                let tail = sub_chars(&rest, i + pat.len(), rest.len());
                assert(head@ =~= rest@.take(i as int));
                assert(tail@ =~= rest@.skip(i + pat@.len()));
                let ghost o = out@;
                push_chars(&mut out, &head);
                push_chars(&mut out, to);
                assert(replace_all(rest@, pat@, to@) == rest@.take(i as int) + to@ + replace_all(
                    tail@,
                    pat@,
                    to@,
                ));
                assert(out@ + replace_all(tail@, pat@, to@) =~= o + replace_all(rest@, pat@, to@));
                rest = tail;
            },
        }
    }
}

/// `str::lines` (see `lines`).
pub fn chars_lines(s: &Vec<char>) -> (r: Vec<Vec<char>>)
    ensures
        views(r@) == lines(s@),
{
    let nl = vec!['\n'];
    let parts = chars_split(s, &nl);
    proof {
        lemma_split_nonempty(s@, nl@);
    }
    let ghost sp = split(s@, nl@);
    let n = parts.len();
    let mut out: Vec<Vec<char>> = Vec::new();
    let mut i: usize = 0;
    while i + 1 < n
        invariant
            n == parts@.len(),
            n == sp.len(),
            n >= 1,
            i + 1 <= n,
            forall|k: int| 0 <= k < n ==> #[trigger] parts@[k]@ == sp[k],
            views(out@) == sp.drop_last().take(i as int).map_values(|p: Seq<char>| strip_cr(p)),
        decreases n - i,
    {
        let part = &parts[i];
        let piece = if part.len() > 0 && part[part.len() - 1] == '\r' {
            sub_chars(part, 0, part.len() - 1)
        } else {
            chars_copy(part)
        };
        let ghost o = views(out@);
        out.push(piece);
        assert(views(out@) =~= o.push(piece@));
        assert(piece@ == strip_cr(sp[i as int])) by {
            if part@.len() > 0 && part@.last() == '\r' {
                assert(piece@ =~= part@.drop_last());
            }
        }
        assert(sp.drop_last().take(i + 1) =~= sp.drop_last().take(i as int).push(sp[i as int]));
        i += 1;
        assert(views(out@) =~= sp.drop_last().take(i as int).map_values(|p: Seq<char>| strip_cr(p)));
    }
    assert(sp.drop_last().take(i as int) =~= sp.drop_last());
    assert(nl@ =~= seq!['\n']);
    if !(s.len() == 0 || s[s.len() - 1] == '\n') {
        let last = chars_copy(&parts[n - 1]);
        let ghost o = views(out@);
        out.push(last);
        assert(views(out@) =~= o.push(last@));
        assert(last@ == sp.last());
        assert(views(out@) =~= lines(s@));
    } else {
        assert(views(out@) =~= lines(s@));
    }
    out
}

pub open spec fn free_of(s: Seq<char>, seps: Seq<char>) -> bool {
    forall|i: int| 0 <= i < s.len() ==> !seps.contains(#[trigger] s[i])
}

/// The last piece of a split holds no separator.
pub proof fn lemma_split_last_free(s: Seq<char>, seps: Seq<char>)
    ensures
        free_of(split(s, seps).last(), seps),
    decreases s.len(),
{
    lemma_split_nonempty(s, seps);
    if s.len() > 0 {
        lemma_split_last_free(s.drop_last(), seps);
        lemma_split_nonempty(s.drop_last(), seps);
        let r = split(s.drop_last(), seps);
        if !seps.contains(s.last()) {
            let p = r.last().push(s.last());
            assert(split(s, seps).last() == p);
            assert forall|i: int| 0 <= i < p.len() implies !seps.contains(#[trigger] p[i]) by {
                if i < p.len() - 1 {
                    assert(p[i] == r.last()[i]);
                }
            }
        }
    }
}

/// Text without separators splits into itself alone.
pub proof fn lemma_split_free(s: Seq<char>, seps: Seq<char>)
    requires
        free_of(s, seps),
    ensures
        split(s, seps) == seq![s],
    decreases s.len(),
{
    if s.len() > 0 {
        assert(free_of(s.drop_last(), seps)) by {
            assert forall|i: int| 0 <= i < s.drop_last().len() implies !seps.contains(#[trigger] s.drop_last()[i]) by {
                assert(s.drop_last()[i] == s[i]);
            }
        }
        lemma_split_free(s.drop_last(), seps);
        assert(!seps.contains(s[s.len() - 1]));
        assert(s.drop_last().push(s.last()) =~= s);
        assert(split(s, seps) =~= seq![s]);
    } else {
        assert(s =~= Seq::<char>::empty());
    }
}

/// Every piece of a split is free of separators.
pub proof fn lemma_split_pieces_free(s: Seq<char>, seps: Seq<char>)
    ensures
        forall|k: int| 0 <= k < split(s, seps).len() ==> free_of(#[trigger] split(s, seps)[k], seps),
    decreases s.len(),
{
    lemma_split_nonempty(s, seps);
    if s.len() > 0 {
        lemma_split_pieces_free(s.drop_last(), seps);
        lemma_split_last_free(s, seps);
        let r = split(s.drop_last(), seps);
        let t = split(s, seps);
        lemma_split_nonempty(s.drop_last(), seps);
        if seps.contains(s.last()) {
            assert(t == r.push(Seq::<char>::empty()));
        } else {
            assert(t == r.update(r.len() - 1, r.last().push(s.last())));
        }
        assert forall|k: int| 0 <= k < t.len() implies free_of(#[trigger] t[k], seps) by {
            if k < t.len() - 1 {
                assert(t[k] == r[k]);
                assert(free_of(r[k], seps));
            } else {
                assert(t[k] == t.last());
            }
        }
    }
}

/// Appending separator-free text extends the last piece.
pub proof fn lemma_split_append_free(a: Seq<char>, b: Seq<char>, seps: Seq<char>)
    requires
        free_of(b, seps),
    ensures
        split(a + b, seps) == split(a, seps).update(split(a, seps).len() - 1, split(a, seps).last() + b),
    decreases b.len(),
{
    lemma_split_nonempty(a, seps);
    let r = split(a, seps);
    if b.len() == 0 {
        assert(a + b =~= a);
        assert(r.last() + b =~= r.last());
        assert(r.update(r.len() - 1, r.last()) =~= r);
    } else {
        let b1 = b.drop_last();
        assert(free_of(b1, seps)) by {
            assert forall|i: int| 0 <= i < b1.len() implies !seps.contains(#[trigger] b1[i]) by {
                assert(b1[i] == b[i]);
            }
        }
        lemma_split_append_free(a, b1, seps);
        assert((a + b).drop_last() =~= a + b1);
        assert((a + b).last() == b.last());
        assert(!seps.contains(b[b.len() - 1]));
        let r1 = split(a + b1, seps);
        assert(r1 == r.update(r.len() - 1, r.last() + b1));
        assert(r1.last() == r.last() + b1);
        assert(r1.last().push(b.last()) =~= r.last() + b);
        assert(split(a + b, seps) =~= r.update(r.len() - 1, r.last() + b));
    }
}

/// Joining the pieces of a split with its separator gives the text back.
#[verifier::spinoff_prover]
pub proof fn lemma_split_free_join(s: Seq<char>, c: char)
    ensures
        join(split(s, seq![c]), seq![c]) == s,
    decreases s.len(),
{
    let seps = seq![c];
    if s.len() == 0 {
        assert(split(s, seps) == seq![Seq::<char>::empty()]);
        assert(s =~= Seq::<char>::empty());
    } else {
        let t = s.drop_last();
        let x = s.last();
        lemma_split_free_join(t, c);
        lemma_split_nonempty(t, seps);
        let r = split(t, seps);
        if seps.contains(x) {
            assert(x == c) by {
                let k = choose|k: int| 0 <= k < seps.len() && seps[k] == x;
            }
            let r2 = r.push(Seq::<char>::empty());
            assert(r2.drop_last() =~= r);
            assert(join(r2, seps) == join(r, seps) + seps + Seq::<char>::empty());
            assert(join(r2, seps) =~= s);
        } else {
            let r2 = r.update(r.len() - 1, r.last().push(x));
            if r.len() == 1 {
                assert(join(r, seps) == r[0]);
                assert(join(r2, seps) == r2[0]);
                assert(r2[0] == r[0].push(x));
                assert(t.push(x) =~= s);
            } else {
                assert(r2.drop_last() =~= r.drop_last());
                assert(r2.last() == r.last().push(x));
                let pre = join(r.drop_last(), seps) + seps;
                assert(join(r, seps) == pre + r.last());
                assert(join(r2, seps) == pre + r.last().push(x));
                assert(pre + r.last().push(x) =~= (pre + r.last()).push(x));
                assert(t.push(x) =~= s);
            }
        }
    }
}

/// Splitting joined separator-free pieces gives the pieces back.
#[verifier::spinoff_prover]
pub proof fn lemma_split_join(ps: Seq<Seq<char>>, sep: char)
    requires
        ps.len() >= 1,
        forall|k: int| 0 <= k < ps.len() ==> free_of(#[trigger] ps[k], seq![sep]),
    ensures
        split(join(ps, seq![sep]), seq![sep]) == ps,
    decreases ps.len(),
{
    let seps = seq![sep];
    if ps.len() == 1 {
        lemma_split_free(ps[0], seps);
        assert(seq![ps[0]] =~= ps);
    } else {
        let d = ps.drop_last();
        assert forall|k: int| 0 <= k < d.len() implies free_of(#[trigger] d[k], seps) by {
            assert(d[k] == ps[k]);
        }
        lemma_split_join(d, sep);
        let j = join(d, seps);
        assert(join(ps, seps) == j + seps + ps.last());
        assert(j + seps + ps.last() =~= j.push(sep) + ps.last());
        assert(seps.contains(sep)) by {
            assert(seps[0] == sep);
        }
        assert(j.push(sep).drop_last() =~= j);
        assert(split(j.push(sep), seps) == d.push(Seq::<char>::empty()));
        assert(free_of(ps.last(), seps));
        lemma_split_append_free(j.push(sep), ps.last(), seps);
        assert(Seq::<char>::empty() + ps.last() =~= ps.last());
        assert(d.push(Seq::<char>::empty()).update(d.len() as int, ps.last()) =~= ps);
    }
}

pub proof fn lemma_trim_start_suffix(s: Seq<char>)
    ensures
        trim_start(s).len() <= s.len(),
        trim_start(s) == s.skip(s.len() - trim_start(s).len()),
        trim_start(s).len() > 0 ==> !is_ws(trim_start(s)[0]),
    decreases s.len(),
{
    if s.len() > 0 && is_ws(s[0]) {
        lemma_trim_start_suffix(s.drop_first());
        assert(s.drop_first().skip(s.drop_first().len() - trim_start(s).len()) =~= s.skip(s.len() - trim_start(s).len()));
    } else {
        assert(s.skip(0) =~= s);
    }
}

pub proof fn lemma_trim_end_prefix(s: Seq<char>)
    ensures
        trim_end(s).len() <= s.len(),
        trim_end(s) == s.take(trim_end(s).len() as int),
        trim_end(s).len() > 0 ==> !is_ws(trim_end(s).last()),
    decreases s.len(),
{
    if s.len() > 0 && is_ws(s.last()) {
        lemma_trim_end_prefix(s.drop_last());
        assert(s.drop_last().take(trim_end(s).len() as int) =~= s.take(trim_end(s).len() as int));
    } else {
        assert(s.take(s.len() as int) =~= s);
    }
}

/// Trimming twice is trimming once.
pub proof fn law_trim_idempotent(s: Seq<char>)
    ensures
        trim(trim(s)) == trim(s),
{
    let e = trim_end(s);
    let u = trim_start(e);
    lemma_trim_end_prefix(s);
    lemma_trim_start_suffix(e);
    if u.len() > 0 {
        assert(u.last() == e.last());
        assert(trim_end(u) == u);
        lemma_trim_start_suffix(u);
    } else {
        assert(trim_end(u) == u);
    }
    assert(trim_start(u) == u);
}

/// Trimming keeps a text free of separators.
pub proof fn lemma_trim_free(s: Seq<char>, seps: Seq<char>)
    requires
        free_of(s, seps),
    ensures
        free_of(trim(s), seps),
{
    let e = trim_end(s);
    lemma_trim_end_prefix(s);
    lemma_trim_start_suffix(e);
    let u = trim(s);
    assert forall|i: int| 0 <= i < u.len() implies !seps.contains(#[trigger] u[i]) by {
        let j = e.len() - u.len() + i;
        assert(u[i] == e[j]);
        assert(e[j] == s[j]);
    }
}

/// Strict lexicographic order of character sequences (the order of their
/// UTF-8 bytes, which is the order of `str`).
pub open spec fn str_lt(a: Seq<char>, b: Seq<char>) -> bool
    decreases a.len(),
{
    if a.len() == 0 {
        b.len() > 0
    } else if b.len() == 0 {
        false
    } else if a[0] < b[0] {
        true
    } else if a[0] > b[0] {
        false
    } else {
        str_lt(a.drop_first(), b.drop_first())
    }
}

pub proof fn lemma_str_lt_irrefl(a: Seq<char>)
    ensures
        !str_lt(a, a),
    decreases a.len(),
{
    if a.len() > 0 {
        lemma_str_lt_irrefl(a.drop_first());
    }
}

pub proof fn lemma_str_lt_asym(a: Seq<char>, b: Seq<char>)
    ensures
        str_lt(a, b) ==> !str_lt(b, a),
    decreases a.len(),
{
    if a.len() > 0 && b.len() > 0 && a[0] == b[0] {
        lemma_str_lt_asym(a.drop_first(), b.drop_first());
    }
}

pub proof fn lemma_str_lt_trans(a: Seq<char>, b: Seq<char>, c: Seq<char>)
    ensures
        str_lt(a, b) && str_lt(b, c) ==> str_lt(a, c),
    decreases a.len(),
{
    if a.len() > 0 && b.len() > 0 && c.len() > 0 {
        lemma_str_lt_trans(a.drop_first(), b.drop_first(), c.drop_first());
    }
}

pub proof fn lemma_str_lt_total(a: Seq<char>, b: Seq<char>)
    ensures
        a != b ==> str_lt(a, b) || str_lt(b, a),
    decreases a.len(),
{
    if a.len() > 0 && b.len() > 0 && a[0] == b[0] {
        lemma_str_lt_total(a.drop_first(), b.drop_first());
        if a.drop_first() == b.drop_first() {
            assert(a =~= seq![a[0]] + a.drop_first());
            assert(b =~= seq![b[0]] + b.drop_first());
        }
    } else if a.len() == 0 && b.len() == 0 {
        assert(a =~= b);
    }
}

/// Ascending order: no later element is smaller than an earlier one.
pub open spec fn sorted_strs(s: Seq<Seq<char>>) -> bool {
    forall|i: int, j: int| 0 <= i < j < s.len() ==> !str_lt(#[trigger] s[j], #[trigger] s[i])
}

/// `a < b` for strings.
pub fn chars_lt(a: &Vec<char>, b: &Vec<char>) -> (r: bool)
    ensures
        r == str_lt(a@, b@),
{
    let mut i: usize = 0;
    assert(a@.skip(0) =~= a@);
    assert(b@.skip(0) =~= b@);
    while i < a.len() && i < b.len() && a[i] == b[i]
        invariant
            i <= a.len(),
            i <= b.len(),
            str_lt(a@, b@) == str_lt(a@.skip(i as int), b@.skip(i as int)),
        decreases a.len() - i,
    {
        assert(a@.skip(i as int).drop_first() =~= a@.skip(i + 1));
        assert(b@.skip(i as int).drop_first() =~= b@.skip(i + 1));
        i += 1;
    }
    if i == a.len() {
        i < b.len()
    } else if i == b.len() {
        false
    } else {
        a[i] < b[i]
    }
}

/// The strings in ascending order (`slice::sort` on `String`).
pub fn sort_strings(v: Vec<String>) -> (r: Vec<String>)
    ensures
        sorted_strs(string_views(r@)),
        string_views(r@).to_multiset() == string_views(v@).to_multiset(),
{
    let mut out: Vec<String> = Vec::new();
    let mut i: usize = 0;
    assert(string_views(v@).take(0) =~= Seq::<Seq<char>>::empty());
    assert(string_views(out@) =~= Seq::<Seq<char>>::empty());
    while i < v.len()
        invariant
            i <= v.len(),
            sorted_strs(string_views(out@)),
            string_views(out@).to_multiset() == string_views(v@).take(i as int).to_multiset(),
        decreases v.len() - i,
    {
        let x = v[i].clone();
        let xc = chars_of(x.as_str());
        let ghost o = string_views(out@);
        let mut k: usize = 0;
        while k < out.len() && !chars_lt(&xc, &chars_of(out[k].as_str()))
            invariant
                k <= out.len(),
                o == string_views(out@),
                xc@ == x@,
                forall|m: int| 0 <= m < k ==> !str_lt(x@, #[trigger] o[m]),
            decreases out.len() - k,
        {
            k += 1;
        }
        proof {
            assert(k < o.len() ==> str_lt(x@, o[k as int]));
            assert forall|a: int, b: int| 0 <= a < b < o.len() + 1 implies !str_lt(
                #[trigger] o.insert(k as int, x@)[b],
                #[trigger] o.insert(k as int, x@)[a],
            ) by {
                let n = o.insert(k as int, x@);
                if b < k {
                    assert(n[a] == o[a] && n[b] == o[b]);
                } else if b == k {
                    assert(n[a] == o[a] && n[b] == x@);
                } else if a < k {
                    assert(n[a] == o[a] && n[b] == o[b - 1]);
                } else if a == k {
                    assert(n[a] == x@ && n[b] == o[b - 1]);
                    lemma_str_lt_total(o[k as int], o[b - 1]);
                    lemma_str_lt_trans(x@, o[k as int], o[b - 1]);
                    lemma_str_lt_asym(x@, o[b - 1]);
                } else {
                    assert(n[a] == o[a - 1] && n[b] == o[b - 1]);
                }
            }
        }
        out.insert(k, x);
        proof {
            assert(string_views(out@) =~= o.insert(k as int, x@));
            assert(string_views(v@).take(i + 1) =~= string_views(v@).take(i as int).push(v@[i as int]@));
            vstd::seq_lib::to_multiset_insert(o, k as int, x@);
            vstd::seq_lib::to_multiset_build(string_views(v@).take(i as int), v@[i as int]@);
        }
        i += 1;
    }
    assert(string_views(v@).take(v.len() as int) =~= string_views(v@));
    out
}

/// Lower-case form of a string, as `str::to_lowercase` gives it.
pub uninterp spec fn lowercase(s: Seq<char>) -> Seq<char>;

/// Every character is ASCII.
pub open spec fn all_ascii(s: Seq<char>) -> bool {
    forall|i: int| 0 <= i < s.len() ==> (#[trigger] s[i] as u32) < 128
}

/// ASCII lower case of one character: `A`..`Z` become `a`..`z`.
pub open spec fn ascii_lower_char(c: char) -> char {
    if 65 <= (c as u32) && (c as u32) <= 90 {
        ((c as u32) + 32) as char
    } else {
        c
    }
}

pub open spec fn ascii_lower(s: Seq<char>) -> Seq<char> {
    Seq::new(s.len(), |i: int| ascii_lower_char(s[i]))
}

/// `str::to_lowercase`. The contract names the result and, for an
/// all-ASCII string, says it is the ASCII lower case (the standard
/// library documents lowercasing by the Unicode Lowercase property, which
/// on ASCII maps only `A`..`Z`); it says nothing more of Unicode case
/// mapping.
#[verifier::external_body]
pub(crate) fn to_lowercase(s: &str) -> (r: String)
    ensures
        r@ == lowercase(s@),
        all_ascii(s@) ==> r@ == ascii_lower(s@),
{
    s.to_lowercase()
}

} // verus!

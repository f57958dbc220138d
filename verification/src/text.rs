//! Text as sequences of characters: searching, trimming, comparing, numbers.

use vstd::prelude::*;

verus! {

/// `String::push` appends one character to the end of the string.
pub assume_specification[ String::push ](s: &mut String, c: char)
    ensures
        final(s)@ == old(s)@.push(c),
;

// ── conversions ─────────────────────────────────────────────────────────────

/// The characters of `s`, in order.
pub fn chars_of(s: &str) -> (r: Vec<char>)
    ensures
        r@ == s@,
{
    let mut r: Vec<char> = Vec::new();
    for c in it: s.chars()
        invariant
            r@ == it.seq().take(it.index()),
            it.seq() == s@,
    {
        r.push(c);
    }
    r
}

/// The string made of the characters of `v`.
pub fn string_of(v: &[char]) -> (r: String)
    ensures
        r@ == v@,
{
    let mut r = String::new();
    let mut i: usize = 0;
    while i < v.len()
        invariant
            i <= v.len(),
            r@ == v@.take(i as int),
        decreases v.len() - i,
    {
        r.push(v[i]);
        i = i + 1;
    }
    r
}

/// The characters of `v` from `from` up to, not including, `to`.
pub fn slice_of(v: &[char], from: usize, to: usize) -> (r: Vec<char>)
    requires
        from <= to <= v.len(),
    ensures
        r@ == v@.subrange(from as int, to as int),
{
    vstd::slice::slice_to_vec(vstd::slice::slice_subrange(v, from, to))
}

/// `a` followed by `b`.
pub fn joined(a: &[char], b: &[char]) -> (r: Vec<char>)
    ensures
        r@ == a@ + b@,
{
    let mut r: Vec<char> = vstd::slice::slice_to_vec(a);
    let mut tail: Vec<char> = vstd::slice::slice_to_vec(b);
    r.append(&mut tail);
    r
}

/// The string `a` followed by the string `b`.
pub fn text_pair(a: &str, b: &str) -> (r: String)
    ensures
        r@ == a@ + b@,
{
    string_of(&joined(&chars_of(a), &chars_of(b)))
}

/// Whether `a` and `b` hold the same characters.
pub fn same_text(a: &[char], b: &[char]) -> (r: bool)
    ensures
        r == (a@ == b@),
{
    if a.len() != b.len() {
        return false;
    }
    let mut i: usize = 0;
    while i < a.len()
        invariant
            i <= a.len(),
            a.len() == b.len(),
            forall|k: int| 0 <= k < i ==> a@[k] == b@[k],
        decreases a.len() - i,
    {
        if a[i] != b[i] {
            return false;
        }
        i = i + 1;
    }
    assert(a@ =~= b@);
    true
}

/// Whether the strings `a` and `b` hold the same characters.
pub fn same_str(a: &str, b: &str) -> (r: bool)
    ensures
        r == (a@ == b@),
{
    same_text(&chars_of(a), &chars_of(b))
}

// ── searching ───────────────────────────────────────────────────────────────

/// `pat` stands in `hay` at index `i`.
pub open spec fn occurs_at(hay: Seq<char>, pat: Seq<char>, i: int) -> bool {
    0 <= i && i + pat.len() <= hay.len() && hay.subrange(i, i + pat.len()) == pat
}

/// The least index, `from` or later, at which `pat` stands in `hay`.
pub open spec fn first_from(hay: Seq<char>, pat: Seq<char>, from: int) -> Option<int>
    decreases hay.len() - from,
{
    if from < 0 || from > hay.len() {
        None
    } else if occurs_at(hay, pat, from) {
        Some(from)
    } else if from == hay.len() {
        None
    } else {
        first_from(hay, pat, from + 1)
    }
}

/// The greatest index, `from` or later, at which `s` holds `c`.
pub open spec fn last_from(s: Seq<char>, c: char, from: int) -> Option<int>
    decreases s.len(),
{
    if s.len() == 0 || s.len() <= from {
        None
    } else if s.last() == c {
        Some(s.len() - 1)
    } else {
        last_from(s.drop_last(), c, from)
    }
}

/// An index or its absence, over the integers.
pub open spec fn index_view(r: Option<usize>) -> Option<int> {
    match r {
        Some(i) => Some(i as int),
        None => None,
    }
}

/// What `first_from` finds lies in range, is an occurrence, and is the first one.
pub proof fn lemma_first_from(hay: Seq<char>, pat: Seq<char>, from: int)
    requires
        0 <= from,
    ensures
        match first_from(hay, pat, from) {
            Some(p) => from <= p && occurs_at(hay, pat, p) && forall|q: int|
                from <= q < p ==> !occurs_at(hay, pat, q),
            None => forall|q: int| from <= q ==> !occurs_at(hay, pat, q),
        },
    decreases hay.len() - from,
{
    if from < hay.len() && !occurs_at(hay, pat, from) {
        lemma_first_from(hay, pat, from + 1);
    }
}

/// What `last_from` finds lies in range, holds the character, and is the last such place.
pub proof fn lemma_last_from(s: Seq<char>, c: char, from: int)
    requires
        0 <= from,
    ensures
        match last_from(s, c, from) {
            Some(p) => from <= p < s.len() && s[p] == c && forall|q: int|
                p < q < s.len() ==> s[q] != c,
            None => forall|q: int| from <= q < s.len() ==> s[q] != c,
        },
    decreases s.len(),
{
    if s.len() > from && s.last() != c {
        lemma_last_from(s.drop_last(), c, from);
        assert forall|q: int| 0 <= q < s.len() - 1 implies s[q] == s.drop_last()[q] by {}
    }
}

/// Whether `pat` stands in `hay` at `i`.
pub fn is_at(hay: &[char], pat: &[char], i: usize) -> (r: bool)
    ensures
        r == occurs_at(hay@, pat@, i as int),
{
    if hay.len() < pat.len() || hay.len() - pat.len() < i {
        return false;
    }
    let mut k: usize = 0;
    while k < pat.len()
        invariant
            k <= pat.len(),
            i + pat.len() <= hay.len(),
            forall|j: int| 0 <= j < k ==> hay@[i + j] == pat@[j],
        decreases pat.len() - k,
    {
        if hay[i + k] != pat[k] {
            assert(hay@.subrange(i as int, i + pat.len())[k as int] != pat@[k as int]);
            return false;
        }
        k = k + 1;
    }
    assert(hay@.subrange(i as int, i + pat.len()) =~= pat@);
    true
}

/// The least index, `from` or later, at which `pat` stands in `hay`.
pub fn find_from(hay: &[char], pat: &[char], from: usize) -> (r: Option<usize>)
    requires
        from <= hay.len(),
    ensures
        index_view(r) == first_from(hay@, pat@, from as int),
        r matches Some(p) ==> from <= p && occurs_at(hay@, pat@, p as int),
{
    let mut i: usize = from;
    while i <= hay.len()
        invariant
            from <= i <= hay.len(),
            first_from(hay@, pat@, from as int) == first_from(hay@, pat@, i as int),
        decreases hay.len() - i,
    {
        if is_at(hay, pat, i) {
            return Some(i);
        }
        if i == hay.len() {
            return None;
        }
        i = i + 1;
    }
    None
}

/// The greatest index, `from` or later, at which `s` holds `c`.
pub fn rfind_from(s: &[char], c: char, from: usize) -> (r: Option<usize>)
    ensures
        index_view(r) == last_from(s@, c, from as int),
        r matches Some(p) ==> from <= p < s.len() && s@[p as int] == c,
{
    let mut n: usize = s.len();
    assert(s@.take(n as int) =~= s@);
    while n > from
        invariant
            n <= s.len(),
            last_from(s@, c, from as int) == last_from(s@.take(n as int), c, from as int),
        decreases n,
    {
        if s[n - 1] == c {
            return Some(n - 1);
        }
        assert(s@.take(n as int).drop_last() =~= s@.take(n - 1));
        n = n - 1;
    }
    None
}

/// `s` begins with `p`.
pub open spec fn has_prefix(s: Seq<char>, p: Seq<char>) -> bool {
    occurs_at(s, p, 0)
}

/// Whether the string `s` begins with `p`.
pub fn starts_with(s: &[char], p: &str) -> (r: bool)
    ensures
        r == has_prefix(s@, p@),
{
    is_at(s, &chars_of(p), 0)
}

/// `s` holds `pat` somewhere.
pub open spec fn holds_text(s: Seq<char>, pat: Seq<char>) -> bool {
    first_from(s, pat, 0) is Some
}

/// Whether `s` holds `pat` somewhere.
pub fn contains(s: &[char], pat: &str) -> (r: bool)
    ensures
        r == holds_text(s@, pat@),
{
    find_from(s, &chars_of(pat), 0).is_some()
}

// ── trimming ────────────────────────────────────────────────────────────────

/// `s` without the run of `c` at its end.
pub open spec fn trimmed_end(s: Seq<char>, c: char) -> Seq<char>
    decreases s.len(),
{
    if s.len() > 0 && s.last() == c {
        trimmed_end(s.drop_last(), c)
    } else {
        s
    }
}

/// `s` without the run of `c` at its end.
pub fn trim_end(s: &[char], c: char) -> (r: Vec<char>)
    ensures
        r@ == trimmed_end(s@, c),
{
    let mut n: usize = s.len();
    assert(s@.take(n as int) =~= s@);
    while n > 0 && s[n - 1] == c
        invariant
            n <= s.len(),
            trimmed_end(s@, c) == trimmed_end(s@.take(n as int), c),
        decreases n,
    {
        assert(s@.take(n as int).drop_last() =~= s@.take(n - 1));
        n = n - 1;
    }
    slice_of(s, 0, n)
}

/// Trimming yields a prefix that does not end in the trimmed character.
pub proof fn lemma_trimmed_end(s: Seq<char>, c: char)
    ensures
        trimmed_end(s, c).len() <= s.len(),
        trimmed_end(s, c) == s.take(trimmed_end(s, c).len() as int),
        trimmed_end(s, c).len() > 0 ==> trimmed_end(s, c).last() != c,
        forall|k: int| trimmed_end(s, c).len() <= k < s.len() ==> s[k] == c,
    decreases s.len(),
{
    if s.len() > 0 && s.last() == c {
        let d = s.drop_last();
        lemma_trimmed_end(d, c);
        assert(d.take(trimmed_end(d, c).len() as int) =~= s.take(trimmed_end(d, c).len() as int));
        assert forall|k: int| trimmed_end(s, c).len() <= k < s.len() implies s[k] == c by {
            if k < s.len() - 1 {
                assert(d[k] == c);
            }
        }
    } else {
        assert(s.take(s.len() as int) =~= s);
    }
}

/// A character with the Unicode property White_Space.
pub open spec fn is_blank(c: char) -> bool {
    ||| 0x09 <= c as u32 <= 0x0d
    ||| c as u32 == 0x20
    ||| c as u32 == 0x85
    ||| c as u32 == 0xa0
    ||| c as u32 == 0x1680
    ||| 0x2000 <= c as u32 <= 0x200a
    ||| c as u32 == 0x2028
    ||| c as u32 == 0x2029
    ||| c as u32 == 0x202f
    ||| c as u32 == 0x205f
    ||| c as u32 == 0x3000
}

/// Whether `c` has the Unicode property White_Space.
pub fn is_white_space(c: char) -> (r: bool)
    ensures
        r == is_blank(c),
{
    let u: u32 = c as u32;
    (0x09 <= u && u <= 0x0d) || u == 0x20 || u == 0x85 || u == 0xa0 || u == 0x1680
        || (0x2000 <= u && u <= 0x200a) || u == 0x2028 || u == 0x2029 || u == 0x202f
        || u == 0x205f || u == 0x3000
}

/// `s` without the white space at its beginning.
pub open spec fn without_leading_blanks(s: Seq<char>) -> Seq<char>
    decreases s.len(),
{
    if s.len() > 0 && is_blank(s[0]) {
        without_leading_blanks(s.drop_first())
    } else {
        s
    }
}

/// `s` without the white space at its end.
pub open spec fn without_trailing_blanks(s: Seq<char>) -> Seq<char>
    decreases s.len(),
{
    if s.len() > 0 && is_blank(s.last()) {
        without_trailing_blanks(s.drop_last())
    } else {
        s
    }
}

/// `s` without the white space at either end.
pub open spec fn trimmed(s: Seq<char>) -> Seq<char> {
    without_trailing_blanks(without_leading_blanks(s))
}

/// `s` without the white space at either end.
pub fn trim(s: &[char]) -> (r: Vec<char>)
    ensures
        r@ == trimmed(s@),
{
    let mut from: usize = 0;
    assert(s@.skip(0) =~= s@);
    while from < s.len() && is_white_space(s[from])
        invariant
            from <= s.len(),
            without_leading_blanks(s@) == without_leading_blanks(s@.skip(from as int)),
        decreases s.len() - from,
    {
        assert(s@.skip(from as int).drop_first() =~= s@.skip(from + 1));
        from = from + 1;
    }
    let ghost body = without_leading_blanks(s@);
    assert(body == s@.skip(from as int));
    let mut to: usize = s.len();
    assert(s@.subrange(from as int, to as int) =~= body);
    while to > from && is_white_space(s[to - 1])
        invariant
            from <= to <= s.len(),
            without_trailing_blanks(body) == without_trailing_blanks(
                s@.subrange(from as int, to as int),
            ),
        decreases to,
    {
        assert(s@.subrange(from as int, to as int).drop_last() =~= s@.subrange(
            from as int,
            to - 1,
        ));
        to = to - 1;
    }
    slice_of(s, from, to)
}

// ── letter case ─────────────────────────────────────────────────────────────

/// `c`, or its lower-case form where it is one of the letters A to Z.
pub open spec fn ascii_lower_char(c: char) -> char {
    if 'A' <= c && c <= 'Z' {
        (c as u32 + 32) as u8 as char
    } else {
        c
    }
}

/// `s` with the letters A to Z in lower case.
pub open spec fn ascii_lower(s: Seq<char>) -> Seq<char> {
    Seq::new(s.len(), |i: int| ascii_lower_char(s[i]))
}

/// `c`, or its lower-case form where it is one of the letters A to Z.
pub fn lower_char(c: char) -> (r: char)
    ensures
        r == ascii_lower_char(c),
{
    if 'A' <= c && c <= 'Z' {
        (c as u32 + 32) as u8 as char
    } else {
        c
    }
}

/// `s` with the letters A to Z in lower case.
pub fn to_ascii_lowercase(s: &[char]) -> (r: Vec<char>)
    ensures
        r@ == ascii_lower(s@),
{
    let mut r: Vec<char> = Vec::new();
    let mut i: usize = 0;
    while i < s.len()
        invariant
            i <= s.len(),
            r@ == ascii_lower(s@).take(i as int),
        decreases s.len() - i,
    {
        r.push(lower_char(s[i]));
        i = i + 1;
    }
    assert(ascii_lower(s@).take(s.len() as int) =~= ascii_lower(s@));
    r
}

/// Whether `a` and `b` differ at most in the case of the letters A to Z.
pub fn eq_ignore_ascii_case(a: &[char], b: &str) -> (r: bool)
    ensures
        r == (ascii_lower(a@) == ascii_lower(b@)),
{
    same_text(&to_ascii_lowercase(a), &to_ascii_lowercase(&chars_of(b)))
}

// ── order ───────────────────────────────────────────────────────────────────

/// `a` comes before `b` in the lexicographic order of code points.
pub open spec fn text_before(a: Seq<char>, b: Seq<char>) -> bool
    decreases a.len(),
{
    if b.len() == 0 {
        false
    } else if a.len() == 0 {
        true
    } else if a[0] != b[0] {
        a[0] < b[0]
    } else {
        text_before(a.drop_first(), b.drop_first())
    }
}

/// Nothing comes before itself.
pub proof fn law_text_before_irreflexive(a: Seq<char>)
    ensures
        !text_before(a, a),
    decreases a.len(),
{
    if a.len() > 0 {
        law_text_before_irreflexive(a.drop_first());
    }
}

/// The order is transitive.
pub proof fn law_text_before_transitive(a: Seq<char>, b: Seq<char>, c: Seq<char>)
    requires
        text_before(a, b),
        text_before(b, c),
    ensures
        text_before(a, c),
    decreases a.len(),
{
    if a.len() > 0 && a[0] == b[0] && b[0] == c[0] {
        law_text_before_transitive(a.drop_first(), b.drop_first(), c.drop_first());
    }
}

/// Of two different texts, one comes before the other.
pub proof fn law_text_before_total(a: Seq<char>, b: Seq<char>)
    ensures
        a == b || text_before(a, b) || text_before(b, a),
    decreases a.len(),
{
    if a.len() == 0 || b.len() == 0 {
        assert(a.len() == 0 && b.len() == 0 ==> a =~= b);
    } else if a[0] == b[0] {
        law_text_before_total(a.drop_first(), b.drop_first());
        if a.drop_first() == b.drop_first() {
            assert(a =~= seq![a[0]] + a.drop_first());
            assert(b =~= seq![b[0]] + b.drop_first());
        }
    }
}

/// Whether `a` comes before `b`.
pub fn comes_before(a: &[char], b: &[char]) -> (r: bool)
    ensures
        r == text_before(a@, b@),
{
    let mut i: usize = 0;
    assert(a@.skip(0) =~= a@);
    assert(b@.skip(0) =~= b@);
    while i < a.len() && i < b.len() && a[i] == b[i]
        invariant
            i <= a.len(),
            i <= b.len(),
            text_before(a@, b@) == text_before(a@.skip(i as int), b@.skip(i as int)),
        decreases a.len() - i,
    {
        assert(a@.skip(i as int).drop_first() =~= a@.skip(i + 1));
        assert(b@.skip(i as int).drop_first() =~= b@.skip(i + 1));
        i = i + 1;
    }
    if i == b.len() {
        false
    } else if i == a.len() {
        true
    } else {
        a[i] < b[i]
    }
}

// ── laws ────────────────────────────────────────────────────────────────────

/// A text stands where it was put.
pub proof fn law_text_occurs_where_it_was_put(before: Seq<char>, pat: Seq<char>, after: Seq<char>)
    ensures
        occurs_at(before + pat + after, pat, before.len() as int),
        has_prefix(pat + after, pat),
        holds_text(before + pat + after, pat),
{
    let hay = before + pat + after;
    assert(hay.subrange(before.len() as int, before.len() as int + pat.len()) =~= pat);
    assert((pat + after).subrange(0, pat.len() as int) =~= pat);
    lemma_first_from(hay, pat, 0);
}

/// A place that is the first is found.
pub proof fn lemma_first_is(hay: Seq<char>, pat: Seq<char>, from: int, p: int)
    requires
        0 <= from <= p,
        occurs_at(hay, pat, p),
        forall|q: int| from <= q < p ==> !occurs_at(hay, pat, q),
    ensures
        first_from(hay, pat, from) == Some(p),
{
    lemma_first_from(hay, pat, from);
    if let Some(q) = first_from(hay, pat, from) {
        if q < p {
            assert(!occurs_at(hay, pat, q));
        }
    }
}

/// A place that is the last is found.
pub proof fn lemma_last_is(s: Seq<char>, c: char, from: int, p: int)
    requires
        0 <= from <= p < s.len(),
        s[p] == c,
        forall|q: int| p < q < s.len() ==> s[q] != c,
    ensures
        last_from(s, c, from) == Some(p),
{
    lemma_last_from(s, c, from);
    if let Some(q) = last_from(s, c, from) {
        if q < p {
            assert(s[p] != c);
        }
    }
}

/// Texts go by the first character in which they differ, and a text comes before every text that
/// it begins.
pub proof fn law_texts_go_by_the_first_difference(
    common: Seq<char>,
    x: char,
    y: char,
    a: Seq<char>,
    b: Seq<char>,
)
    requires
        x < y,
    ensures
        text_before(common + seq![x] + a, common + seq![y] + b),
        !text_before(common + seq![y] + b, common + seq![x] + a),
        text_before(common, common + seq![x] + a),
        !text_before(common + seq![x] + a, common),
    decreases common.len(),
{
    let l = common + seq![x] + a;
    let r = common + seq![y] + b;
    if common.len() > 0 {
        let rest = common.drop_first();
        law_texts_go_by_the_first_difference(rest, x, y, a, b);
        assert(l.drop_first() =~= rest + seq![x] + a);
        assert(r.drop_first() =~= rest + seq![y] + b);
        assert(l[0] == common[0] && r[0] == common[0]);
    } else {
        assert(l[0] == x && r[0] == y);
    }
}

/// The letters from A to Z become those from a to z, and every other character stays.
pub proof fn law_lower_case(c: char, k: int)
    requires
        0 <= k < 26,
    ensures
        c as int == 'A' as int + k ==> ascii_lower_char(c) as int == 'a' as int + k,
        c < 'A' || c > 'Z' ==> ascii_lower_char(c) == c,
{
}

/// Lower case goes character by character, and is reached at once.
pub proof fn law_lower_case_of_texts(s: Seq<char>, t: Seq<char>, i: int)
    ensures
        ascii_lower(s).len() == s.len(),
        0 <= i < s.len() ==> ascii_lower(s)[i] == ascii_lower_char(s[i]),
        ascii_lower(ascii_lower(s)) == ascii_lower(s),
        ascii_lower(s + t) == ascii_lower(s) + ascii_lower(t),
{
    assert(ascii_lower(ascii_lower(s)) =~= ascii_lower(s));
    assert(ascii_lower(s + t) =~= ascii_lower(s) + ascii_lower(t));
}

/// Of the ASCII characters the space and the controls from tab to carriage return are white space.
pub proof fn law_ascii_white_space(c: char)
    requires
        c as u32 <= 0x7f,
    ensures
        is_blank(c) <==> c == ' ' || c == '\t' || c == '\n' || c == '\r' || c as u32 == 0x0b || c
            as u32 == 0x0c,
{
}

/// Trimming takes away the white space at both ends and nothing else.
pub proof fn law_trimming_leaves_the_core(before: Seq<char>, core: Seq<char>, after: Seq<char>)
    requires
        forall|i: int| 0 <= i < before.len() ==> is_blank(#[trigger] before[i]),
        forall|i: int| 0 <= i < after.len() ==> is_blank(#[trigger] after[i]),
        core.len() > 0,
        !is_blank(core[0]),
        !is_blank(core.last()),
    ensures
        trimmed(before + core + after) == core,
{
    lemma_leading(before, core + after);
    assert(before + core + after =~= before + (core + after));
    assert((core + after)[0] == core[0]);
    lemma_trailing(core, after);
}

proof fn lemma_leading(before: Seq<char>, rest: Seq<char>)
    requires
        forall|i: int| 0 <= i < before.len() ==> is_blank(#[trigger] before[i]),
        rest.len() > 0,
        !is_blank(rest[0]),
    ensures
        without_leading_blanks(before + rest) == rest,
    decreases before.len(),
{
    if before.len() > 0 {
        lemma_leading(before.drop_first(), rest);
        assert((before + rest).drop_first() =~= before.drop_first() + rest);
        assert((before + rest)[0] == before[0]);
    } else {
        assert(before + rest =~= rest);
    }
}

proof fn lemma_trailing(core: Seq<char>, after: Seq<char>)
    requires
        forall|i: int| 0 <= i < after.len() ==> is_blank(#[trigger] after[i]),
        core.len() > 0,
        !is_blank(core.last()),
    ensures
        without_trailing_blanks(core + after) == core,
    decreases after.len(),
{
    if after.len() > 0 {
        lemma_trailing(core, after.drop_last());
        assert((core + after).drop_last() =~= core + after.drop_last());
        assert((core + after).last() == after.last());
        assert(is_blank(after[after.len() - 1]));
    } else {
        assert(core + after =~= core);
    }
}

/// What is trimmed off at the end is the run of the character, whatever its length.
pub proof fn law_trimmed_end_has_no_run(core: Seq<char>, c: char, n: nat)
    requires
        core.len() == 0 || core.last() != c,
    ensures
        trimmed_end(core + Seq::new(n, |i: int| c), c) == core,
    decreases n,
{
    let s = core + Seq::new(n, |i: int| c);
    if n > 0 {
        law_trimmed_end_has_no_run(core, c, (n - 1) as nat);
        assert(s.drop_last() =~= core + Seq::new((n - 1) as nat, |i: int| c));
        assert(s.last() == c);
    } else {
        assert(s =~= core);
    }
}

} // verus!

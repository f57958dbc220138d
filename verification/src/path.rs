//! Paths as text: parents, file names and equality, by the rules of each platform.
//!
//! A path is a sequence of parts: an optional prefix (Windows only), an optional root, and the
//! pieces between separators. Empty pieces and `.` say nothing and are passed over, except for
//! a `.` that a relative path begins with and for every `.` of a verbatim (`\\?\`) path.

pub mod laws;

use vstd::prelude::*;

use crate::text::{chars_of, rfind_from, same_text, slice_of, string_of};

verus! {

/// The operating system whose paths are meant.
#[derive(Clone, Copy, PartialEq, Eq, Structural, Debug)]
pub enum Platform {
    Windows,
    MacOs,
    Unix,
}

// ── prefixes ────────────────────────────────────────────────────────────────

/// What a Windows path may begin with.
#[verifier::ext_equal]
pub enum PrefixView {
    /// `\\?\name`
    Verbatim(Seq<char>),
    /// `\\?\UNC\server\share`
    VerbatimUnc(Seq<char>, Seq<char>),
    /// `\\?\C:`
    VerbatimDisk(char),
    /// `\\.\name`
    DeviceNs(Seq<char>),
    /// `\\server\share`
    Unc(Seq<char>, Seq<char>),
    /// `C:`
    Disk(char),
}

/// What a Windows path may begin with.
pub enum Prefix {
    Verbatim(Vec<char>),
    VerbatimUnc(Vec<char>, Vec<char>),
    VerbatimDisk(char),
    DeviceNs(Vec<char>),
    Unc(Vec<char>, Vec<char>),
    Disk(char),
}

impl View for Prefix {
    type V = PrefixView;

    open spec fn view(&self) -> PrefixView {
        match self {
            Prefix::Verbatim(x) => PrefixView::Verbatim(x@),
            Prefix::VerbatimUnc(x, y) => PrefixView::VerbatimUnc(x@, y@),
            Prefix::VerbatimDisk(c) => PrefixView::VerbatimDisk(*c),
            Prefix::DeviceNs(x) => PrefixView::DeviceNs(x@),
            Prefix::Unc(x, y) => PrefixView::Unc(x@, y@),
            Prefix::Disk(c) => PrefixView::Disk(*c),
        }
    }
}

/// The view of an optional prefix.
pub open spec fn prefix_view(p: Option<Prefix>) -> Option<PrefixView> {
    match p {
        Some(p) => Some(p@),
        None => None,
    }
}

/// Length of a server and a share, with the separator between them where there is a share.
pub open spec fn share_len(server: Seq<char>, share: Seq<char>) -> nat {
    server.len() + if share.len() > 0 {
        1 + share.len()
    } else {
        0
    }
}

impl PrefixView {
    /// Characters that the prefix takes up.
    pub open spec fn len(self) -> nat {
        match self {
            PrefixView::Verbatim(x) => 4 + x.len(),
            PrefixView::VerbatimUnc(x, y) => 8 + share_len(x, y),
            PrefixView::VerbatimDisk(_) => 6,
            PrefixView::DeviceNs(x) => 4 + x.len(),
            PrefixView::Unc(x, y) => 2 + share_len(x, y),
            PrefixView::Disk(_) => 2,
        }
    }

    /// A path with this prefix is taken as it is: only `\` separates, and `.` is a name.
    pub open spec fn is_verbatim(self) -> bool {
        self is Verbatim || self is VerbatimUnc || self is VerbatimDisk
    }
}

/// Either separator of Windows.
pub open spec fn is_slash(c: char) -> bool {
    c == '/' || c == '\\'
}

/// An ASCII letter.
pub open spec fn is_letter(c: char) -> bool {
    ('a' <= c && c <= 'z') || ('A' <= c && c <= 'Z')
}

/// `c` in upper case if it is an ASCII letter.
pub open spec fn ascii_upper_char(c: char) -> char {
    if 'a' <= c && c <= 'z' {
        ((c as u32 - 0x20) as u32) as char
    } else {
        c
    }
}

/// A drive stands at `at`: a letter and a colon.
pub open spec fn drive_at(s: Seq<char>, at: int) -> bool {
    at + 2 <= s.len() && is_letter(s[at]) && s[at + 1] == ':'
}

/// Where the name that starts at `at` ends: at the next separator or the end.
pub open spec fn name_end(s: Seq<char>, at: int, verbatim: bool) -> int
    decreases s.len() - at,
{
    if at >= s.len() || s[at] == '\\' || (s[at] == '/' && !verbatim) {
        at
    } else {
        name_end(s, at + 1, verbatim)
    }
}

/// The name that starts at `at`.
pub open spec fn name_at(s: Seq<char>, at: int, verbatim: bool) -> Seq<char> {
    if at >= s.len() {
        Seq::empty()
    } else {
        s.subrange(at, name_end(s, at, verbatim))
    }
}

/// The name behind the one that starts at `at`.
pub open spec fn next_name(s: Seq<char>, at: int, verbatim: bool) -> Seq<char> {
    name_at(s, name_end(s, at, verbatim) + 1, verbatim)
}

/// `\\?\` with backslashes only.
pub open spec fn begins_verbatim(s: Seq<char>) -> bool {
    s.len() >= 4 && s[0] == '\\' && s[1] == '\\' && s[2] == '?' && s[3] == '\\'
}

/// `\\.\` with either separator.
pub open spec fn begins_device(s: Seq<char>) -> bool {
    s.len() >= 4 && is_slash(s[0]) && is_slash(s[1]) && s[2] == '.' && is_slash(s[3])
}

/// `UNC\` at position 4, with either separator.
pub open spec fn unc_follows(s: Seq<char>) -> bool {
    s.len() >= 8 && s[4] == 'U' && s[5] == 'N' && s[6] == 'C' && is_slash(s[7])
}

/// The prefix that a Windows path begins with.
pub open spec fn windows_prefix(s: Seq<char>) -> Option<PrefixView> {
    if begins_verbatim(s) {
        if unc_follows(s) {
            Some(PrefixView::VerbatimUnc(name_at(s, 8, true), next_name(s, 8, true)))
        } else if drive_at(s, 4) && (s.len() == 6 || is_slash(s[6])) {
            Some(PrefixView::VerbatimDisk(ascii_upper_char(s[4])))
        } else {
            Some(PrefixView::Verbatim(name_at(s, 4, true)))
        }
    } else if begins_device(s) {
        Some(PrefixView::DeviceNs(name_at(s, 4, false)))
    } else if s.len() >= 2 && is_slash(s[0]) && is_slash(s[1]) {
        if name_at(s, 2, false).len() > 0 && next_name(s, 2, false).len() > 0 {
            Some(PrefixView::Unc(name_at(s, 2, false), next_name(s, 2, false)))
        } else {
            None
        }
    } else if drive_at(s, 0) {
        Some(PrefixView::Disk(ascii_upper_char(s[0])))
    } else {
        None
    }
}

/// The prefix that a path begins with.
pub open spec fn prefix_of(platform: Platform, s: Seq<char>) -> Option<PrefixView> {
    if platform == Platform::Windows {
        windows_prefix(s)
    } else {
        None
    }
}

pub proof fn lemma_name_end(s: Seq<char>, at: int, verbatim: bool)
    requires
        0 <= at <= s.len(),
    ensures
        at <= name_end(s, at, verbatim) <= s.len(),
    decreases s.len() - at,
{
    if at < s.len() && s[at] != '\\' && (s[at] != '/' || verbatim) {
        lemma_name_end(s, at + 1, verbatim);
    }
}

/// Where the name that starts at `at` ends.
fn find_name_end(s: &[char], at: usize, verbatim: bool) -> (r: usize)
    requires
        at <= s@.len(),
    ensures
        r == name_end(s@, at as int, verbatim),
        at <= r <= s@.len(),
{
    let mut i: usize = at;
    while i < s.len() && s[i] != '\\' && (s[i] != '/' || verbatim)
        invariant
            at <= i <= s@.len(),
            name_end(s@, at as int, verbatim) == name_end(s@, i as int, verbatim),
        decreases s@.len() - i,
    {
        i = i + 1;
    }
    i
}

/// The name that starts at `at`, and the one behind it.
fn two_names(s: &[char], at: usize, verbatim: bool) -> (r: (Vec<char>, Vec<char>))
    requires
        at <= s@.len(),
    ensures
        r.0@ == name_at(s@, at as int, verbatim),
        r.1@ == next_name(s@, at as int, verbatim),
{
    let end = find_name_end(s, at, verbatim);
    let first = slice_of(s, at, end);
    assert(first@ =~= name_at(s@, at as int, verbatim));
    if end >= s.len() {
        return (first, Vec::new());
    }
    let next_end = find_name_end(s, end + 1, verbatim);
    let second = slice_of(s, end + 1, next_end);
    assert(second@ =~= next_name(s@, at as int, verbatim));
    (first, second)
}

/// Either separator of Windows.
fn slash(c: char) -> (r: bool)
    ensures
        r == is_slash(c),
{
    c == '/' || c == '\\'
}

/// A drive stands at `at`.
fn has_drive(s: &[char], at: usize) -> (r: bool)
    requires
        at <= s@.len(),
    ensures
        r == drive_at(s@, at as int),
{
    s.len() - at >= 2 && (('a' <= s[at] && s[at] <= 'z') || ('A' <= s[at] && s[at] <= 'Z')) && s[at
        + 1] == ':'
}

/// `c` in upper case if it is an ASCII letter.
fn upper_char(c: char) -> (r: char)
    ensures
        r == ascii_upper_char(c),
{
    if 'a' <= c && c <= 'z' {
        (c as u8 - 0x20) as char
    } else {
        c
    }
}

/// The prefix that a path begins with.
pub fn find_prefix(platform: Platform, s: &[char]) -> (r: Option<Prefix>)
    ensures
        prefix_view(r) == prefix_of(platform, s@),
{
    if platform != Platform::Windows {
        return None;
    }
    if s.len() >= 4 && s[0] == '\\' && s[1] == '\\' && s[2] == '?' && s[3] == '\\' {
        if s.len() >= 8 && s[4] == 'U' && s[5] == 'N' && s[6] == 'C' && slash(s[7]) {
            let (server, share) = two_names(s, 8, true);
            Some(Prefix::VerbatimUnc(server, share))
        } else if has_drive(s, 4) && (s.len() == 6 || slash(s[6])) {
            Some(Prefix::VerbatimDisk(upper_char(s[4])))
        } else {
            let (name, _) = two_names(s, 4, true);
            Some(Prefix::Verbatim(name))
        }
    } else if s.len() >= 4 && slash(s[0]) && slash(s[1]) && s[2] == '.' && slash(s[3]) {
        let (name, _) = two_names(s, 4, false);
        Some(Prefix::DeviceNs(name))
    } else if s.len() >= 2 && slash(s[0]) && slash(s[1]) {
        let (server, share) = two_names(s, 2, false);
        if server.len() > 0 && share.len() > 0 {
            Some(Prefix::Unc(server, share))
        } else {
            None
        }
    } else if has_drive(s, 0) {
        Some(Prefix::Disk(upper_char(s[0])))
    } else {
        None
    }
}

// ── pieces ──────────────────────────────────────────────────────────────────

/// Whether `c` separates pieces.
pub open spec fn separates(platform: Platform, verbatim: bool, c: char) -> bool {
    if platform == Platform::Windows {
        c == '\\' || (c == '/' && !verbatim)
    } else {
        c == '/'
    }
}

/// The path is verbatim.
pub open spec fn is_verbatim(platform: Platform, s: Seq<char>) -> bool {
    prefix_of(platform, s) matches Some(p) && p.is_verbatim()
}

/// Characters that the prefix of a path takes up.
pub open spec fn prefix_len(platform: Platform, s: Seq<char>) -> int {
    match prefix_of(platform, s) {
        Some(p) => p.len() as int,
        None => 0,
    }
}

/// A separator stands where the root is written.
pub open spec fn shows_root(platform: Platform, s: Seq<char>) -> bool {
    prefix_len(platform, s) < s.len() && separates(platform, false, s[prefix_len(platform, s)])
}

/// The prefix stands for a root even where none is written.
pub open spec fn implies_root(platform: Platform, s: Seq<char>) -> bool {
    prefix_of(platform, s) matches Some(p) && !(p is Disk)
}

/// A relative path begins with `.`.
pub open spec fn begins_with_dot(platform: Platform, s: Seq<char>) -> bool {
    let at = prefix_len(platform, s);
    &&& !shows_root(platform, s)
    &&& !implies_root(platform, s)
    &&& at < s.len()
    &&& s[at] == '.'
    &&& at + 1 == s.len() || separates(platform, false, s[at + 1])
}

/// Where the pieces of a path begin.
pub open spec fn body_start(platform: Platform, s: Seq<char>) -> int {
    prefix_len(platform, s) + if shows_root(platform, s) || begins_with_dot(platform, s) {
        1int
    } else {
        0
    }
}

/// Whether `s[a..b]` says anything as a piece: it is not empty, and not `.` unless the path is
/// verbatim.
pub open spec fn counts(verbatim: bool, s: Seq<char>, a: int, b: int) -> bool {
    a < b && (verbatim || a + 1 < b || s[a] != '.')
}

/// Where the last piece of `s[from..to]` starts, whether or not it counts.
pub open spec fn piece_start(
    platform: Platform,
    verbatim: bool,
    s: Seq<char>,
    from: int,
    to: int,
) -> int
    decreases to - from,
{
    if to <= from {
        from
    } else if separates(platform, verbatim, s[to - 1]) {
        to
    } else {
        piece_start(platform, verbatim, s, from, to - 1)
    }
}

pub proof fn lemma_piece_start(
    platform: Platform,
    verbatim: bool,
    s: Seq<char>,
    from: int,
    to: int,
)
    requires
        from <= to,
    ensures
        from <= piece_start(platform, verbatim, s, from, to) <= to,
    decreases to - from,
{
    if from < to && !separates(platform, verbatim, s[to - 1]) {
        lemma_piece_start(platform, verbatim, s, from, to - 1);
    }
}

/// Start and end of the last piece of `s[from..to]` that counts.
pub open spec fn last_piece(
    platform: Platform,
    verbatim: bool,
    s: Seq<char>,
    from: int,
    to: int,
) -> Option<(int, int)>
    decreases to - from,
{
    proof {
        if from <= to {
            lemma_piece_start(platform, verbatim, s, from, to);
        }
    }
    let start = piece_start(platform, verbatim, s, from, to);
    if to <= from {
        None
    } else if counts(verbatim, s, start, to) {
        Some((start, to))
    } else if start > from {
        last_piece(platform, verbatim, s, from, start - 1)
    } else {
        None
    }
}

pub proof fn lemma_last_piece(
    platform: Platform,
    verbatim: bool,
    s: Seq<char>,
    from: int,
    to: int,
)
    ensures
        last_piece(platform, verbatim, s, from, to) matches Some((a, b)) ==> from <= a < b <= to
            && a == piece_start(platform, verbatim, s, from, b) && counts(
            verbatim,
            s,
            a,
            b,
        ),
    decreases to - from,
{
    if from < to {
        lemma_piece_start(platform, verbatim, s, from, to);
        let start = piece_start(platform, verbatim, s, from, to);
        if !counts(verbatim, s, start, to) {
            if start > from {
                lemma_last_piece(platform, verbatim, s, from, start - 1);
            }
        }
    }
}

/// The pieces of `s[from..to]` that count, in order.
pub open spec fn pieces(
    platform: Platform,
    verbatim: bool,
    s: Seq<char>,
    from: int,
    to: int,
) -> Seq<Seq<char>>
    decreases to - from,
{
    proof {
        lemma_last_piece(platform, verbatim, s, from, to);
    }
    match last_piece(platform, verbatim, s, from, to) {
        None => Seq::empty(),
        Some((a, b)) => pieces(platform, verbatim, s, from, a).push(s.subrange(a, b)),
    }
}

/// The parts of a path; two paths are the same where their parts are.
#[verifier::ext_equal]
pub struct PathParts {
    pub prefix: Option<PrefixView>,
    pub has_root: bool,
    pub begins_with_dot: bool,
    pub pieces: Seq<Seq<char>>,
}

/// The parts of a path.
pub open spec fn parts_of(platform: Platform, s: Seq<char>) -> PathParts {
    PathParts {
        prefix: prefix_of(platform, s),
        has_root: shows_root(platform, s) || (implies_root(platform, s) && !is_verbatim(
            platform,
            s,
        )),
        begins_with_dot: prefix_of(platform, s) is None && begins_with_dot(platform, s),
        pieces: pieces(
            platform,
            is_verbatim(platform, s),
            s,
            body_start(platform, s),
            s.len() as int,
        ),
    }
}

/// The path without its last piece, as text: cut behind the piece before it, or in front of all
/// pieces. None for a root, a prefix alone and the empty path.
pub open spec fn parent_of(platform: Platform, s: Seq<char>) -> Option<Seq<char>> {
    let v = is_verbatim(platform, s);
    let from = body_start(platform, s);
    match last_piece(platform, v, s, from, s.len() as int) {
        Some((a, _)) => match last_piece(platform, v, s, from, a) {
            Some((_, b)) => Some(s.take(b)),
            None => Some(s.take(from)),
        },
        None => if prefix_of(platform, s) is None && begins_with_dot(platform, s) {
            Some(Seq::empty())
        } else {
            None
        },
    }
}

/// The last piece of a path, unless it is `..` or `.`.
pub open spec fn file_name_of(platform: Platform, s: Seq<char>) -> Option<Seq<char>> {
    match last_piece(
        platform,
        is_verbatim(platform, s),
        s,
        body_start(platform, s),
        s.len() as int,
    ) {
        Some((a, b)) => if s.subrange(a, b) == seq!['.', '.'] || s.subrange(a, b) == seq!['.'] {
            None
        } else {
            Some(s.subrange(a, b))
        },
        None => None,
    }
}

/// The dot in front of the extension of a file name; a dot that the name begins with is none.
pub open spec fn extension_dot(name: Seq<char>) -> Option<int> {
    crate::text::last_from(name, '.', 1)
}

/// The file name of a path without its extension.
pub open spec fn file_stem_of(platform: Platform, s: Seq<char>) -> Option<Seq<char>> {
    match file_name_of(platform, s) {
        Some(name) => match extension_dot(name) {
            Some(d) => Some(name.take(d)),
            None => Some(name),
        },
        None => None,
    }
}

/// The extension of the file name of a path.
pub open spec fn extension_of(platform: Platform, s: Seq<char>) -> Option<Seq<char>> {
    match file_name_of(platform, s) {
        Some(name) => match extension_dot(name) {
            Some(d) => Some(name.skip(d + 1)),
            None => None,
        },
        None => None,
    }
}

// ── reading paths ───────────────────────────────────────────────────────────

/// Where the parts of a path lie.
struct Layout {
    prefix: Option<Prefix>,
    verbatim: bool,
    has_root: bool,
    begins_with_dot: bool,
    body: usize,
}

pub proof fn lemma_prefix_fits(platform: Platform, s: Seq<char>)
    ensures
        0 <= prefix_len(platform, s) <= body_start(platform, s) <= s.len(),
{
    if platform == Platform::Windows {
        if begins_verbatim(s) {
            lemma_name_end(s, 4, true);
            if unc_follows(s) {
                lemma_name_end(s, 8, true);
                let end = name_end(s, 8, true);
                if end < s.len() {
                    lemma_name_end(s, end + 1, true);
                }
            }
        } else if begins_device(s) {
            lemma_name_end(s, 4, false);
        } else if s.len() >= 2 {
            lemma_name_end(s, 2, false);
            let end = name_end(s, 2, false);
            if end < s.len() {
                lemma_name_end(s, end + 1, false);
            }
        }
    }
}

fn prefix_size(prefix: &Option<Prefix>) -> (r: usize)
    requires
        match prefix_view(*prefix) {
            Some(p) => p.len() <= usize::MAX,
            None => true,
        },
    ensures
        r == match prefix_view(*prefix) {
            Some(p) => p.len() as int,
            None => 0,
        },
{
    match prefix {
        None => 0,
        Some(Prefix::Verbatim(x)) => 4 + x.len(),
        Some(Prefix::VerbatimUnc(x, y)) => if y.len() > 0 {
            8 + x.len() + 1 + y.len()
        } else {
            8 + x.len()
        },
        Some(Prefix::VerbatimDisk(_)) => 6,
        Some(Prefix::DeviceNs(x)) => 4 + x.len(),
        Some(Prefix::Unc(x, y)) => if y.len() > 0 {
            2 + x.len() + 1 + y.len()
        } else {
            2 + x.len()
        },
        Some(Prefix::Disk(_)) => 2,
    }
}

fn is_separator(platform: Platform, verbatim: bool, c: char) -> (r: bool)
    ensures
        r == separates(platform, verbatim, c),
{
    if platform == Platform::Windows {
        c == '\\' || (c == '/' && !verbatim)
    } else {
        c == '/'
    }
}

fn layout(platform: Platform, s: &[char]) -> (r: Layout)
    ensures
        prefix_view(r.prefix) == prefix_of(platform, s@),
        r.verbatim == is_verbatim(platform, s@),
        r.has_root == parts_of(platform, s@).has_root,
        r.begins_with_dot == parts_of(platform, s@).begins_with_dot,
        r.body == body_start(platform, s@),
        r.body <= s@.len(),
{
    proof {
        lemma_prefix_fits(platform, s@);
    }
    let prefix = find_prefix(platform, s);
    assert(s.len() <= usize::MAX);
    let at: usize = prefix_size(&prefix);
    let verbatim = match &prefix {
        Some(Prefix::Verbatim(_)) => true,
        Some(Prefix::VerbatimUnc(_, _)) => true,
        Some(Prefix::VerbatimDisk(_)) => true,
        _ => false,
    };
    let implies = match &prefix {
        None => false,
        Some(Prefix::Disk(_)) => false,
        Some(_) => true,
    };
    let shows = at < s.len() && is_separator(platform, false, s[at]);
    let dot = !shows && !implies && at < s.len() && s[at] == '.' && (at + 1 == s.len()
        || is_separator(platform, false, s[at + 1]));
    let body: usize = if shows || dot {
        at + 1
    } else {
        at
    };
    let without_prefix = match &prefix {
        None => true,
        Some(_) => false,
    };
    Layout {
        prefix,
        verbatim,
        has_root: shows || (implies && !verbatim),
        begins_with_dot: without_prefix && dot,
        body,
    }
}

/// Start and end of the last piece of `s[from..to]` that counts.
fn find_last_piece(platform: Platform, verbatim: bool, s: &[char], from: usize, to: usize) -> (r:
    Option<(usize, usize)>)
    requires
        from <= to <= s@.len(),
    ensures
        match r {
            Some((a, b)) => last_piece(platform, verbatim, s@, from as int, to as int) == Some(
                (a as int, b as int),
            ) && from <= a < b <= to,
            None => last_piece(platform, verbatim, s@, from as int, to as int) is None,
        },
{
    let mut end: usize = to;
    while from < end
        invariant
            from <= end <= to <= s@.len(),
            last_piece(platform, verbatim, s@, from as int, to as int) == last_piece(
                platform,
                verbatim,
                s@,
                from as int,
                end as int,
            ),
        decreases end,
    {
        let mut start: usize = end;
        while from < start && !is_separator(platform, verbatim, s[start - 1])
            invariant
                from <= start <= end <= s@.len(),
                piece_start(platform, verbatim, s@, from as int, end as int) == piece_start(
                    platform,
                    verbatim,
                    s@,
                    from as int,
                    start as int,
                ),
            decreases start,
        {
            start = start - 1;
        }
        assert(start == piece_start(platform, verbatim, s@, from as int, end as int));
        if start < end && (verbatim || end - start > 1 || s[start] != '.') {
            return Some((start, end));
        }
        if start == from {
            return None;
        }
        end = start - 1;
    }
    None
}

/// The path without its last piece.
pub fn parent(platform: Platform, path: &str) -> (r: Option<String>)
    ensures
        r is Some <==> parent_of(platform, path@) is Some,
        r matches Some(p) ==> Some(p@) == parent_of(platform, path@),
{
    let s = chars_of(path);
    let l = layout(platform, &s);
    match find_last_piece(platform, l.verbatim, &s, l.body, s.len()) {
        Some((a, _)) => {
            let cut: usize = match find_last_piece(platform, l.verbatim, &s, l.body, a) {
                Some((_, b)) => b,
                None => l.body,
            };
            let text = slice_of(&s, 0, cut);
            assert(text@ =~= s@.take(cut as int));
            Some(string_of(&text))
        },
        None => if l.begins_with_dot {
            let none: Vec<char> = Vec::new();
            Some(string_of(&none))
        } else {
            None
        },
    }
}

/// The last piece of a path, unless it is `..` or `.`.
pub fn file_name(platform: Platform, path: &str) -> (r: Option<Vec<char>>)
    ensures
        r is Some <==> file_name_of(platform, path@) is Some,
        r matches Some(p) ==> Some(p@) == file_name_of(platform, path@),
{
    let s = chars_of(path);
    let l = layout(platform, &s);
    match find_last_piece(platform, l.verbatim, &s, l.body, s.len()) {
        Some((a, b)) => {
            let name = slice_of(&s, a, b);
            let is_dots = (name.len() == 1 && name[0] == '.') || (name.len() == 2 && name[0] == '.'
                && name[1] == '.');
            assert(is_dots <==> name@ =~= seq!['.', '.'] || name@ =~= seq!['.']);
            if is_dots {
                None
            } else {
                Some(name)
            }
        },
        None => None,
    }
}

/// The file name of a path without its extension.
pub fn file_stem(platform: Platform, path: &str) -> (r: Option<Vec<char>>)
    ensures
        r is Some <==> file_stem_of(platform, path@) is Some,
        r matches Some(p) ==> Some(p@) == file_stem_of(platform, path@),
{
    match file_name(platform, path) {
        Some(name) => match rfind_from(&name, '.', 1) {
            Some(d) => {
                let stem = slice_of(&name, 0, d);
                assert(stem@ =~= name@.take(d as int));
                Some(stem)
            },
            None => Some(name),
        },
        None => None,
    }
}

/// The extension of the file name of a path.
pub fn extension(platform: Platform, path: &str) -> (r: Option<Vec<char>>)
    ensures
        r is Some <==> extension_of(platform, path@) is Some,
        r matches Some(p) ==> Some(p@) == extension_of(platform, path@),
{
    match file_name(platform, path) {
        Some(name) => match rfind_from(&name, '.', 1) {
            Some(d) => {
                let ext = slice_of(&name, d + 1, name.len());
                assert(ext@ =~= name@.skip(d + 1));
                Some(ext)
            },
            None => None,
        },
        None => None,
    }
}

/// The texts of a list of pieces.
pub open spec fn piece_views(v: Seq<Vec<char>>) -> Seq<Seq<char>> {
    v.map_values(|p: Vec<char>| p@)
}

/// The pieces of a path, in order.
pub fn pieces_of(platform: Platform, path: &str) -> (r: Vec<Vec<char>>)
    ensures
        piece_views(r@) == parts_of(platform, path@).pieces,
{
    let s = chars_of(path);
    let l = layout(platform, &s);
    let mut out: Vec<Vec<char>> = Vec::new();
    let mut end: usize = s.len();
    let ghost all = parts_of(platform, path@).pieces;
    assert(piece_views(out@) =~= Seq::empty());
    assert(all =~= pieces(platform, l.verbatim, s@, l.body as int, end as int) + piece_views(out@));
    loop
        invariant
            l.body <= end <= s@.len(),
            all == pieces(platform, l.verbatim, s@, l.body as int, end as int) + piece_views(out@),
        ensures
            all == piece_views(out@),
        decreases end,
    {
        let found = find_last_piece(platform, l.verbatim, &s, l.body, end);
        match found {
            None => {
                assert(all =~= piece_views(out@));
                break;
            },
            Some((a, b)) => {
                let piece = slice_of(&s, a, b);
                let ghost before = out@;
                out.insert(0, piece);
                assert(piece_views(out@) =~= seq![piece@] + piece_views(before));
                assert(all =~= pieces(platform, l.verbatim, s@, l.body as int, a as int)
                    + piece_views(out@));
                end = a;
            },
        }
    }
    out
}

fn same_prefix(a: &Option<Prefix>, b: &Option<Prefix>) -> (r: bool)
    ensures
        r == (prefix_view(*a) == prefix_view(*b)),
{
    match (a, b) {
        (None, None) => true,
        (Some(Prefix::Verbatim(x)), Some(Prefix::Verbatim(y))) => same_text(x, y),
        (Some(Prefix::VerbatimUnc(x, v)), Some(Prefix::VerbatimUnc(y, w))) => same_text(x, y)
            && same_text(v, w),
        (Some(Prefix::VerbatimDisk(x)), Some(Prefix::VerbatimDisk(y))) => *x == *y,
        (Some(Prefix::DeviceNs(x)), Some(Prefix::DeviceNs(y))) => same_text(x, y),
        (Some(Prefix::Unc(x, v)), Some(Prefix::Unc(y, w))) => same_text(x, y) && same_text(v, w),
        (Some(Prefix::Disk(x)), Some(Prefix::Disk(y))) => *x == *y,
        _ => false,
    }
}

fn same_pieces(a: &Vec<Vec<char>>, b: &Vec<Vec<char>>) -> (r: bool)
    ensures
        r == (piece_views(a@) == piece_views(b@)),
{
    if a.len() != b.len() {
        assert(piece_views(a@).len() != piece_views(b@).len());
        return false;
    }
    let mut i: usize = 0;
    while i < a.len()
        invariant
            i <= a@.len(),
            a@.len() == b@.len(),
            forall|j: int| 0 <= j < i ==> a@[j]@ == b@[j]@,
        decreases a@.len() - i,
    {
        if !same_text(&a[i], &b[i]) {
            assert(piece_views(a@)[i as int] != piece_views(b@)[i as int]);
            return false;
        }
        i = i + 1;
    }
    assert(piece_views(a@) =~= piece_views(b@));
    true
}

/// Whether two paths have the same parts.
pub fn same_path(platform: Platform, a: &str, b: &str) -> (r: bool)
    ensures
        r == (parts_of(platform, a@) == parts_of(platform, b@)),
{
    let s = chars_of(a);
    let t = chars_of(b);
    let l = layout(platform, &s);
    let m = layout(platform, &t);
    let same = same_prefix(&l.prefix, &m.prefix) && l.has_root == m.has_root && l.begins_with_dot
        == m.begins_with_dot;
    if !same {
        return false;
    }
    same_pieces(&pieces_of(platform, a), &pieces_of(platform, b))
}

} // verus!

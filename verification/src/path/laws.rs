//! What holds of paths, their parents and their names.

use vstd::prelude::*;

use crate::path::Platform;

verus! {

/// A parent is the beginning of its path, and shorter.
pub proof fn law_parent_is_shorter(platform: Platform, s: Seq<char>)
    ensures
        crate::path::parent_of(platform, s) matches Some(p) ==> p.len() < s.len() && p == s.take(
            p.len() as int,
        ),
{
    let v = crate::path::is_verbatim(platform, s);
    let from = crate::path::body_start(platform, s);
    crate::path::lemma_prefix_fits(platform, s);
    crate::path::lemma_last_piece(platform, v, s, from, s.len() as int);
    match crate::path::last_piece(platform, v, s, from, s.len() as int) {
        Some((a, _)) => {
            crate::path::lemma_last_piece(platform, v, s, from, a);
        },
        None => {
            assert(s.take(0) =~= Seq::empty());
        },
    }
}

/// The end of a name in the beginning of a text.
proof fn lemma_name_end_of_start(s: Seq<char>, n: int, at: int, verbatim: bool)
    requires
        0 <= at <= n <= s.len(),
    ensures
        crate::path::name_end(s.take(n), at, verbatim) == if crate::path::name_end(
            s,
            at,
            verbatim,
        ) < n {
            crate::path::name_end(s, at, verbatim)
        } else {
            n
        },
    decreases n - at,
{
    let t = s.take(n);
    if at < n {
        assert(t[at] == s[at]);
        if s[at] != '\\' && (s[at] != '/' || verbatim) {
            lemma_name_end_of_start(s, n, at + 1, verbatim);
        }
    } else {
        crate::path::lemma_name_end(s, at, verbatim);
    }
}

/// What begins with a whole prefix has that prefix.
pub proof fn lemma_prefix_of_start(platform: Platform, s: Seq<char>, n: int)
    requires
        crate::path::prefix_len(platform, s) <= n <= s.len(),
    ensures
        crate::path::prefix_of(platform, s.take(n)) == crate::path::prefix_of(platform, s),
{
    let t = s.take(n);
    crate::path::lemma_prefix_fits(platform, s);
    if platform == Platform::Windows {
        if crate::path::begins_verbatim(s) {
            crate::path::lemma_name_end(s, 4, true);
            assert(crate::path::begins_verbatim(t));
            if crate::path::unc_follows(s) {
                crate::path::lemma_name_end(s, 8, true);
                lemma_names_of_start(s, n, 8, true);
                assert(crate::path::unc_follows(t));
            } else if crate::path::drive_at(s, 4) && (s.len() == 6 || crate::path::is_slash(s[6])) {
                assert(crate::path::drive_at(t, 4));
            } else {
                lemma_name_end_of_start(s, n, 4, true);
                let end = crate::path::name_end(s, 4, true);
                assert(crate::path::name_at(t, 4, true) =~= crate::path::name_at(s, 4, true));
                if crate::path::drive_at(t, 4) {
                    assert(s[4] == t[4] && s[5] == t[5]);
                    assert(end == crate::path::name_end(s, 6, true)) by {
                        reveal_with_fuel(crate::path::name_end, 3);
                    }
                    crate::path::lemma_name_end(s, 6, true);
                    if n == 6 {
                        assert(crate::path::prefix_len(platform, s) == end);
                        if s.len() > 6 {
                            crate::path::lemma_name_end(s, 7, true);
                        }
                        assert(s.len() == 6 || s[6] == '\\');
                    } else {
                        assert(t[6] == s[6]);
                    }
                }
                if crate::path::unc_follows(t) {
                    assert(crate::path::unc_follows(s));
                }
            }
        } else if crate::path::begins_device(s) {
            crate::path::lemma_name_end(s, 4, false);
            lemma_name_end_of_start(s, n, 4, false);
            assert(crate::path::name_at(t, 4, false) =~= crate::path::name_at(s, 4, false));
            assert(crate::path::begins_device(t));
        } else if s.len() >= 2 && crate::path::is_slash(s[0]) && crate::path::is_slash(s[1]) {
            crate::path::lemma_name_end(s, 2, false);
            if n >= 2 {
                lemma_names_of_start(s, n, 2, false);
            }
            assert(!crate::path::begins_verbatim(t));
            assert(!crate::path::begins_device(t));
        } else {
            assert(!crate::path::begins_verbatim(t));
            assert(!crate::path::begins_device(t));
        }
    }
}

/// Two names in the beginning of a text that reaches over both; or, where one of them is empty,
/// over any part of them.
proof fn lemma_names_of_start(s: Seq<char>, n: int, at: int, verbatim: bool)
    requires
        0 <= at <= n <= s.len(),
    ensures
        ({
            let x = crate::path::name_at(s, at, verbatim);
            let y = crate::path::next_name(s, at, verbatim);
            let t = s.take(n);
            &&& at + crate::path::share_len(x, y) <= n ==> crate::path::name_at(t, at, verbatim)
                == x && crate::path::next_name(t, at, verbatim) == y
            &&& x.len() == 0 || y.len() == 0 ==> crate::path::name_at(t, at, verbatim).len() == 0
                || crate::path::next_name(t, at, verbatim).len() == 0
        }),
{
    let t = s.take(n);
    let end = crate::path::name_end(s, at, verbatim);
    crate::path::lemma_name_end(s, at, verbatim);
    lemma_name_end_of_start(s, n, at, verbatim);
    let t_end = crate::path::name_end(t, at, verbatim);
    if end <= n {
        assert(crate::path::name_at(t, at, verbatim) =~= crate::path::name_at(s, at, verbatim));
    }
    if end < s.len() {
        crate::path::lemma_name_end(s, end + 1, verbatim);
        if end + 1 <= n {
            lemma_name_end_of_start(s, n, end + 1, verbatim);
            if crate::path::name_end(s, end + 1, verbatim) <= n {
                assert(crate::path::next_name(t, at, verbatim) =~= crate::path::next_name(
                    s,
                    at,
                    verbatim,
                ));
            }
        } else {
            assert(crate::path::next_name(t, at, verbatim) =~= Seq::empty());
        }
    } else {
        assert(crate::path::next_name(t, at, verbatim) =~= Seq::empty());
        assert(crate::path::next_name(s, at, verbatim) =~= Seq::empty());
    }
}

/// The last piece in the beginning of a text.
proof fn lemma_last_piece_of_start(
    platform: Platform,
    verbatim: bool,
    s: Seq<char>,
    n: int,
    from: int,
    to: int,
)
    requires
        0 <= from,
        to <= n <= s.len(),
    ensures
        crate::path::piece_start(platform, verbatim, s.take(n), from, to)
            == crate::path::piece_start(platform, verbatim, s, from, to),
        crate::path::last_piece(platform, verbatim, s.take(n), from, to)
            == crate::path::last_piece(platform, verbatim, s, from, to),
    decreases to - from, 1int,
{
    lemma_piece_start_of_start(platform, verbatim, s, n, from, to);
    if from < to {
        crate::path::lemma_piece_start(platform, verbatim, s, from, to);
        let start = crate::path::piece_start(platform, verbatim, s, from, to);
        if start < to {
            assert(s.take(n)[start] == s[start]);
        }
        if start > from {
            lemma_last_piece_of_start(platform, verbatim, s, n, from, start - 1);
        }
    }
}

proof fn lemma_piece_start_of_start(
    platform: Platform,
    verbatim: bool,
    s: Seq<char>,
    n: int,
    from: int,
    to: int,
)
    requires
        0 <= from,
        to <= n <= s.len(),
    ensures
        crate::path::piece_start(platform, verbatim, s.take(n), from, to)
            == crate::path::piece_start(platform, verbatim, s, from, to),
    decreases to - from,
{
    if from < to {
        assert(s.take(n)[to - 1] == s[to - 1]);
        lemma_piece_start_of_start(platform, verbatim, s, n, from, to - 1);
    }
}

/// The pieces in the beginning of a text.
proof fn lemma_pieces_of_start(
    platform: Platform,
    verbatim: bool,
    s: Seq<char>,
    n: int,
    from: int,
    to: int,
)
    requires
        0 <= from,
        to <= n <= s.len(),
    ensures
        crate::path::pieces(platform, verbatim, s.take(n), from, to) == crate::path::pieces(
            platform,
            verbatim,
            s,
            from,
            to,
        ),
    decreases to - from,
{
    lemma_last_piece_of_start(platform, verbatim, s, n, from, to);
    crate::path::lemma_last_piece(platform, verbatim, s, from, to);
    match crate::path::last_piece(platform, verbatim, s, from, to) {
        Some((a, b)) => {
            lemma_pieces_of_start(platform, verbatim, s, n, from, a);
            assert(s.take(n).subrange(a, b) =~= s.subrange(a, b));
        },
        None => {},
    }
}

/// The parent of a path that has pieces has all of its parts but the last piece.
pub proof fn law_parent_drops_the_last_piece(platform: Platform, s: Seq<char>)
    requires
        crate::path::parts_of(platform, s).pieces.len() > 0,
    ensures
        crate::path::parent_of(platform, s) matches Some(p) && crate::path::parts_of(platform, p)
            == (crate::path::PathParts {
            pieces: crate::path::parts_of(platform, s).pieces.drop_last(),
            ..crate::path::parts_of(platform, s)
        }),
{
    let v = crate::path::is_verbatim(platform, s);
    let from = crate::path::body_start(platform, s);
    let len = s.len() as int;
    crate::path::lemma_prefix_fits(platform, s);
    crate::path::lemma_last_piece(platform, v, s, from, len);
    let (a, b) = crate::path::last_piece(platform, v, s, from, len)->0;
    crate::path::lemma_last_piece(platform, v, s, from, a);
    let cut = match crate::path::last_piece(platform, v, s, from, a) {
        Some((_, c)) => c,
        None => from,
    };
    let p = s.take(cut);
    lemma_prefix_of_start(platform, s, cut);
    lemma_pieces_of_start(platform, v, s, cut, from, cut);
    let at = crate::path::prefix_len(platform, s);
    if at < cut {
        assert(p[at] == s[at]);
    }
    if at + 1 < cut {
        assert(p[at + 1] == s[at + 1]);
    }
    assert(crate::path::shows_root(platform, p) == crate::path::shows_root(platform, s));
    assert(crate::path::begins_with_dot(platform, p) == crate::path::begins_with_dot(platform, s));
    assert(crate::path::pieces(platform, v, s, from, cut) == crate::path::pieces(
        platform,
        v,
        s,
        from,
        a,
    ));
    assert(crate::path::parts_of(platform, s).pieces.drop_last() =~= crate::path::pieces(
        platform,
        v,
        s,
        from,
        a,
    ));
}

/// A path without pieces has no parent, unless it is `.`, whose parent is the empty path.
pub proof fn law_no_parent_without_pieces(platform: Platform, s: Seq<char>)
    requires
        crate::path::parts_of(platform, s).pieces.len() == 0,
    ensures
        crate::path::parent_of(platform, s) == if crate::path::parts_of(
            platform,
            s,
        ).begins_with_dot {
            Some(Seq::<char>::empty())
        } else {
            None
        },
{
    crate::path::lemma_last_piece(
        platform,
        crate::path::is_verbatim(platform, s),
        s,
        crate::path::body_start(platform, s),
        s.len() as int,
    );
}

/// A file name is its stem, or its stem, a dot and its extension.
pub proof fn law_name_is_stem_and_extension(platform: Platform, s: Seq<char>)
    ensures
        match (
            crate::path::file_name_of(platform, s),
            crate::path::file_stem_of(platform, s),
            crate::path::extension_of(platform, s),
        ) {
            (Some(name), Some(stem), Some(ext)) => name == stem + seq!['.'] + ext,
            (Some(name), Some(stem), None) => name == stem,
            (None, None, None) => true,
            _ => false,
        },
{
    match crate::path::file_name_of(platform, s) {
        Some(name) => {
            crate::text::lemma_last_from(name, '.', 1);
            match crate::path::extension_dot(name) {
                Some(d) => {
                    assert(name =~= name.take(d) + seq!['.'] + name.skip(d + 1));
                },
                None => {},
            }
        },
        None => {},
    }
}

/// Between the start of a last piece and its end there is no separator.
proof fn lemma_no_separator_in_piece(
    platform: Platform,
    verbatim: bool,
    s: Seq<char>,
    from: int,
    to: int,
)
    requires
        from <= to,
    ensures
        forall|i: int|
            crate::path::piece_start(platform, verbatim, s, from, to) <= i < to
                ==> !crate::path::separates(platform, verbatim, #[trigger] s[i]),
    decreases to - from,
{
    if from < to && !crate::path::separates(platform, verbatim, s[to - 1]) {
        lemma_no_separator_in_piece(platform, verbatim, s, from, to - 1);
    }
}

/// What a piece of a path is: not empty, not `.` unless the path is verbatim, and without a
/// separator.
pub open spec fn is_plain_piece(platform: Platform, verbatim: bool, piece: Seq<char>) -> bool {
    &&& piece.len() > 0
    &&& verbatim || piece != seq!['.']
    &&& forall|i: int|
        0 <= i < piece.len() ==> !crate::path::separates(platform, verbatim, #[trigger] piece[i])
}

proof fn lemma_pieces_are_plain(
    platform: Platform,
    verbatim: bool,
    s: Seq<char>,
    from: int,
    to: int,
    k: int,
)
    requires
        0 <= from,
        to <= s.len(),
        0 <= k < crate::path::pieces(platform, verbatim, s, from, to).len(),
    ensures
        is_plain_piece(
            platform,
            verbatim,
            crate::path::pieces(platform, verbatim, s, from, to)[k],
        ),
    decreases to - from,
{
    crate::path::lemma_last_piece(platform, verbatim, s, from, to);
    let (a, b) = crate::path::last_piece(platform, verbatim, s, from, to)->0;
    let all = crate::path::pieces(platform, verbatim, s, from, to);
    if k < all.len() - 1 {
        lemma_pieces_are_plain(platform, verbatim, s, from, a, k);
    } else {
        lemma_no_separator_in_piece(platform, verbatim, s, from, b);
        let piece = s.subrange(a, b);
        assert(all[k] == piece);
        assert forall|i: int| 0 <= i < piece.len() implies !crate::path::separates(
            platform,
            verbatim,
            #[trigger] piece[i],
        ) by {
            assert(piece[i] == s[a + i]);
        }
        if piece == seq!['.'] {
            assert(piece[0] == '.');
            assert(b - a == 1);
        }
    }
}

/// No piece of a path is empty, is `.` (unless the path is verbatim), or holds a separator.
pub proof fn law_pieces_are_plain(platform: Platform, s: Seq<char>, k: int)
    requires
        0 <= k < crate::path::parts_of(platform, s).pieces.len(),
    ensures
        is_plain_piece(
            platform,
            crate::path::is_verbatim(platform, s),
            crate::path::parts_of(platform, s).pieces[k],
        ),
{
    crate::path::lemma_prefix_fits(platform, s);
    lemma_pieces_are_plain(
        platform,
        crate::path::is_verbatim(platform, s),
        s,
        crate::path::body_start(platform, s),
        s.len() as int,
        k,
    );
}

/// Where a piece without a separator ends the text, it starts behind the separator before it.
pub proof fn lemma_piece_start_behind(
    platform: Platform,
    verbatim: bool,
    s: Seq<char>,
    from: int,
    start: int,
    to: int,
)
    requires
        from <= start <= to,
        start == from || crate::path::separates(platform, verbatim, s[start - 1]),
        forall|i: int|
            start <= i < to ==> !crate::path::separates(platform, verbatim, #[trigger] s[i]),
    ensures
        crate::path::piece_start(platform, verbatim, s, from, to) == start,
    decreases to - start,
{
    if start < to {
        assert(!crate::path::separates(platform, verbatim, s[to - 1]));
        lemma_piece_start_behind(platform, verbatim, s, from, start, to - 1);
    }
}

// ── names ───────────────────────────────────────────────────────────────────

/// Pieces are separated by a slash; on Windows by a backslash too, and in a verbatim path by the
/// backslash only.
pub proof fn law_separators(platform: Platform, verbatim: bool, c: char)
    ensures
        platform != Platform::Windows ==> (crate::path::separates(platform, verbatim, c) <==> c
            == '/'),
        platform == Platform::Windows && !verbatim ==> (crate::path::separates(
            platform,
            verbatim,
            c,
        ) <==> c == '/' || c == '\\'),
        platform == Platform::Windows && verbatim ==> (crate::path::separates(platform, verbatim, c)
            <==> c == '\\'),
{
}

/// The name of a file is what follows the last separator of its path.
pub proof fn law_file_name_follows_the_last_separator(
    platform: Platform,
    dir: Seq<char>,
    sep: char,
    name: Seq<char>,
)
    requires
        ({
            let s = dir + seq![sep] + name;
            let v = crate::path::is_verbatim(platform, s);
            &&& crate::path::separates(platform, v, sep)
            &&& crate::path::body_start(platform, s) <= dir.len() + 1
            &&& is_plain_piece(platform, v, name)
        }),
        name != seq!['.'],
        name != seq!['.', '.'],
    ensures
        crate::path::file_name_of(platform, dir + seq![sep] + name) == Some(name),
{
    let s = dir + seq![sep] + name;
    let v = crate::path::is_verbatim(platform, s);
    let from = crate::path::body_start(platform, s);
    let start = dir.len() as int + 1;
    let len = s.len() as int;
    crate::path::lemma_prefix_fits(platform, s);
    assert(s[start - 1] == sep);
    assert forall|i: int| start <= i < len implies !crate::path::separates(
        platform,
        v,
        #[trigger] s[i],
    ) by {
        assert(s[i] == name[i - start]);
    }
    lemma_piece_start_behind(platform, v, s, from, start, len);
    if name.len() == 1 {
        assert(name =~= seq![s[start]]);
    }
    assert(s.subrange(start, len) =~= name);
}

/// On systems without prefixes the name of a file is what follows the last slash of its path,
/// wherever it lies.
pub proof fn law_file_name_follows_the_last_slash(
    platform: Platform,
    dir: Seq<char>,
    name: Seq<char>,
)
    requires
        platform != Platform::Windows,
        name.len() > 0,
        !name.contains('/'),
        name != seq!['.'],
        name != seq!['.', '.'],
    ensures
        crate::path::file_name_of(platform, dir + seq!['/'] + name) == Some(name),
{
    assert(is_plain_piece(platform, false, name)) by {
        assert forall|i: int| 0 <= i < name.len() implies !crate::path::separates(
            platform,
            false,
            #[trigger] name[i],
        ) by {
            assert(name.contains(name[i]));
        }
    }
    law_file_name_follows_the_last_separator(platform, dir, '/', name);
}

/// A file on a Windows drive is named by what follows the last separator of its path.
pub proof fn law_file_name_on_a_drive(letter: char, dirs: Seq<char>, sep: char, name: Seq<char>)
    requires
        crate::path::is_letter(letter),
        sep == '/' || sep == '\\',
        name.len() > 0,
        !name.contains('/'),
        !name.contains('\\'),
        name != seq!['.'],
        name != seq!['.', '.'],
    ensures
        crate::path::file_name_of(
            Platform::Windows,
            seq![letter, ':'] + dirs + seq![sep] + name,
        ) == Some(name),
{
    let dir = seq![letter, ':'] + dirs;
    let s = dir + seq![sep] + name;
    assert(s[0] == letter && s[1] == ':');
    assert(crate::path::prefix_of(Platform::Windows, s) is Some);
    assert(crate::path::prefix_of(Platform::Windows, s)->0 is Disk);
    assert(is_plain_piece(Platform::Windows, false, name)) by {
        assert forall|i: int| 0 <= i < name.len() implies !crate::path::separates(
            Platform::Windows,
            false,
            #[trigger] name[i],
        ) by {
            assert(name.contains(name[i]));
        }
    }
    law_file_name_follows_the_last_separator(Platform::Windows, dir, sep, name);
}

/// The extension of a file name follows its last dot, and the stem stands before it; a dot at the
/// beginning of a name is no such dot.
pub proof fn law_extension_follows_the_last_dot(
    platform: Platform,
    s: Seq<char>,
    stem: Seq<char>,
    ext: Seq<char>,
)
    requires
        !ext.contains('.'),
        stem.len() > 0,
        crate::path::file_name_of(platform, s) == Some(stem + seq!['.'] + ext),
    ensures
        crate::path::extension_of(platform, s) == Some(ext),
        crate::path::file_stem_of(platform, s) == Some(stem),
{
    let name = stem + seq!['.'] + ext;
    let d = stem.len() as int;
    assert forall|q: int| d < q < name.len() implies name[q] != '.' by {
        assert(name[q] == ext[q - d - 1]);
        assert(ext.contains(ext[q - d - 1]));
    }
    crate::text::lemma_last_is(name, '.', 1, d);
    assert(name.skip(d + 1) =~= ext);
    assert(name.take(d) =~= stem);
}

/// A name without a dot behind its first character has no extension, and is all stem.
pub proof fn law_names_without_extension(platform: Platform, s: Seq<char>, first: char, rest: Seq<char>)
    requires
        !rest.contains('.'),
        crate::path::file_name_of(platform, s) == Some(seq![first] + rest),
    ensures
        crate::path::extension_of(platform, s) is None,
        crate::path::file_stem_of(platform, s) == Some(seq![first] + rest),
{
    let name = seq![first] + rest;
    crate::text::lemma_last_from(name, '.', 1);
    if let Some(q) = crate::path::extension_dot(name) {
        assert(name[q] == rest[q - 1]);
        assert(rest.contains(rest[q - 1]));
    }
}

// ── prefixes ────────────────────────────────────────────────────────────────

/// A Windows path that begins with a letter and a colon is on that drive, in whatever case; the
/// same behind `\\?\`.
pub proof fn law_drives_are_read(letter: char, rest: Seq<char>)
    requires
        crate::path::is_letter(letter),
    ensures
        crate::path::prefix_of(Platform::Windows, seq![letter, ':'] + rest) == Some(
            crate::path::PrefixView::Disk(crate::path::ascii_upper_char(letter)),
        ),
        rest.len() == 0 || rest[0] == '\\' ==> crate::path::prefix_of(
            Platform::Windows,
            seq!['\\', '\\', '?', '\\', letter, ':'] + rest,
        ) == Some(crate::path::PrefixView::VerbatimDisk(crate::path::ascii_upper_char(letter))),
{
    let s = seq![letter, ':'] + rest;
    assert(s[0] == letter && s[1] == ':');
    let t = seq!['\\', '\\', '?', '\\', letter, ':'] + rest;
    assert(t[0] == '\\' && t[1] == '\\' && t[2] == '?' && t[3] == '\\' && t[4] == letter && t[5]
        == ':');
    if rest.len() > 0 {
        assert(t[6] == rest[0]);
    }
}

/// Upper case is that of the letters from a to z; every other character stays.
pub proof fn law_upper_case(c: char, k: int)
    requires
        0 <= k < 26,
    ensures
        c as int == 'a' as int + k ==> crate::path::ascii_upper_char(c) as int == 'A' as int + k,
        c < 'a' || c > 'z' ==> crate::path::ascii_upper_char(c) == c,
        crate::path::is_letter(c) <==> ('a' <= c && c <= 'z') || ('A' <= c && c <= 'Z'),
{
}

/// Two separators and two names are a share of a server.
pub proof fn law_shares_are_read(server: Seq<char>, share: Seq<char>, rest: Seq<char>)
    requires
        server.len() > 0,
        share.len() > 0,
        !server.contains('\\') && !server.contains('/'),
        !share.contains('\\') && !share.contains('/'),
        server[0] != '?' && server[0] != '.',
        rest.len() == 0 || rest[0] == '\\' || rest[0] == '/',
    ensures
        crate::path::prefix_of(
            Platform::Windows,
            seq!['\\', '\\'] + server + seq!['\\'] + share + rest,
        ) == Some(crate::path::PrefixView::Unc(server, share)),
{
    let s = seq!['\\', '\\'] + server + seq!['\\'] + share + rest;
    let a = 2 + server.len() as int;
    let b = a + 1 + share.len();
    assert(s[0] == '\\' && s[1] == '\\' && s[2] == server[0] && s[a] == '\\');
    assert forall|i: int| 2 <= i < a implies s[i] != '\\' && s[i] != '/' by {
        assert(s[i] == server[i - 2]);
        assert(server.contains(server[i - 2]));
    }
    assert forall|i: int| a + 1 <= i < b implies s[i] != '\\' && s[i] != '/' by {
        assert(s[i] == share[i - a - 1]);
        assert(share.contains(share[i - a - 1]));
    }
    if rest.len() > 0 {
        assert(s[b] == rest[0]);
    }
    lemma_name_ends(s, 2, a);
    lemma_name_ends(s, a + 1, b);
    assert(s.subrange(2, a) =~= server);
    assert(s.subrange(a + 1, b) =~= share);
}

proof fn lemma_name_ends(s: Seq<char>, at: int, end: int)
    requires
        0 <= at <= end <= s.len(),
        end == s.len() || s[end] == '\\' || s[end] == '/',
        forall|i: int| at <= i < end ==> #[trigger] s[i] != '\\' && s[i] != '/',
    ensures
        crate::path::name_end(s, at, false) == end,
    decreases end - at,
{
    if at < end {
        lemma_name_ends(s, at + 1, end);
    }
}

/// Only Windows paths have a prefix; a path is absolute elsewhere where it begins with a slash.
pub proof fn law_roots_elsewhere(platform: Platform, s: Seq<char>)
    requires
        platform != Platform::Windows,
    ensures
        crate::path::prefix_of(platform, s) is None,
        crate::path::parts_of(platform, s).has_root <==> s.len() > 0 && s[0] == '/',
{
}

// ── pieces ──────────────────────────────────────────────────────────────────

/// A name that is joined to a path becomes its last piece, and its parent is that path's place.
pub proof fn law_joined_name_is_the_last_piece(
    platform: Platform,
    dir: Seq<char>,
    sep: char,
    name: Seq<char>,
)
    requires
        ({
            let s = dir + seq![sep] + name;
            let v = crate::path::is_verbatim(platform, s);
            &&& crate::path::separates(platform, v, sep)
            &&& crate::path::is_verbatim(platform, dir) == v
            &&& crate::path::body_start(platform, s) == crate::path::body_start(platform, dir)
            &&& is_plain_piece(platform, v, name)
        }),
    ensures
        crate::path::parts_of(platform, dir + seq![sep] + name).pieces == crate::path::parts_of(
            platform,
            dir,
        ).pieces.push(name),
{
    let s = dir + seq![sep] + name;
    let v = crate::path::is_verbatim(platform, s);
    let from = crate::path::body_start(platform, s);
    let n = dir.len() as int;
    let start = n + 1;
    let len = s.len() as int;
    crate::path::lemma_prefix_fits(platform, dir);
    assert(s[n] == sep);
    assert forall|i: int| start <= i < len implies !crate::path::separates(
        platform,
        v,
        #[trigger] s[i],
    ) by {
        assert(s[i] == name[i - start]);
    }
    lemma_piece_start_behind(platform, v, s, from, start, len);
    if name.len() == 1 {
        assert(name =~= seq![s[start]]);
    }
    assert(s.subrange(start, len) =~= name);
    assert(crate::path::last_piece(platform, v, s, from, len) == Some((start, len)));
    // the piece between the separators behind the path is empty
    lemma_piece_start_behind(platform, v, s, from, start, start);
    assert(crate::path::last_piece(platform, v, s, from, start) == crate::path::last_piece(
        platform,
        v,
        s,
        from,
        n,
    ));
    assert(crate::path::pieces(platform, v, s, from, start) == crate::path::pieces(
        platform,
        v,
        s,
        from,
        n,
    ));
    assert(s.take(n) =~= dir);
    lemma_pieces_of_start(platform, v, s, n, from, n);
}

/// The parent of what lies in a folder is the folder, as it was written, up to its last name.
pub proof fn law_parent_is_the_folder(
    platform: Platform,
    above: Seq<char>,
    folder: Seq<char>,
    name: Seq<char>,
)
    requires
        platform != Platform::Windows,
        is_plain_piece(platform, false, folder),
        is_plain_piece(platform, false, name),
        above.len() == 0 || above.last() == '/',
    ensures
        crate::path::parent_of(platform, above + folder + seq!['/'] + name) == Some(above + folder),
        crate::path::parent_of(platform, seq!['/'] + name) == Some(seq!['/']),
        crate::path::parent_of(platform, name) == Some(Seq::<char>::empty()),
{
    let s = above + folder + seq!['/'] + name;
    let from = crate::path::body_start(platform, s);
    let start = above.len() as int;
    let cut = start + folder.len();
    let len = s.len() as int;
    assert(s[cut] == '/');
    if start > 0 {
        assert(s[start - 1] == above.last());
        assert(s[0] == above[0]);
    } else {
        assert(s[0] == folder[0]);
        assert(!crate::path::separates(platform, false, folder[0]));
        if folder.len() > 1 {
            assert(s[1] == folder[1]);
            assert(!crate::path::separates(platform, false, folder[1]));
        } else {
            assert(folder =~= seq![folder[0]]);
        }
    }
    assert(from <= start);
    assert forall|i: int| start <= i < cut implies !crate::path::separates(
        platform,
        false,
        #[trigger] s[i],
    ) by {
        assert(s[i] == folder[i - start]);
    }
    assert forall|i: int| cut + 1 <= i < len implies !crate::path::separates(
        platform,
        false,
        #[trigger] s[i],
    ) by {
        assert(s[i] == name[i - cut - 1]);
    }
    lemma_piece_start_behind(platform, false, s, from, cut + 1, len);
    lemma_piece_start_behind(platform, false, s, from, start, cut);
    assert(s[cut + 1] == name[0]);
    assert(s[start] == folder[0]);
    if name.len() == 1 {
        assert(name =~= seq![name[0]]);
    }
    if folder.len() == 1 {
        assert(folder =~= seq![folder[0]]);
    }
    assert(crate::path::last_piece(platform, false, s, from, len) == Some((cut + 1, len)));
    assert(crate::path::piece_start(platform, false, s, from, cut + 1) == cut + 1);
    assert(crate::path::last_piece(platform, false, s, from, cut) == Some((start, cut)));
    assert(crate::path::last_piece(platform, false, s, from, cut + 1) == Some((start, cut)));
    assert(s.take(cut) =~= above + folder);
    let t = seq!['/'] + name;
    let end = t.len() as int;
    assert(t[0] == '/');
    assert forall|i: int| 1 <= i < end implies !crate::path::separates(
        platform,
        false,
        #[trigger] t[i],
    ) by {
        assert(t[i] == name[i - 1]);
    }
    lemma_piece_start_behind(platform, false, t, 1, 1, end);
    assert(t[1] == name[0]);
    assert(crate::path::last_piece(platform, false, t, 1, end) == Some((1int, end)));
    assert(t.take(1) =~= seq!['/']);
    let n = name.len() as int;
    assert(!crate::path::separates(platform, false, name[0]));
    if n > 1 {
        assert(!crate::path::separates(platform, false, name[1]));
    }
    lemma_piece_start_behind(platform, false, name, 0, 0, n);
    assert(crate::path::last_piece(platform, false, name, 0, n) == Some((0int, n)));
    assert(name.take(0) =~= Seq::empty());
}

proof fn lemma_verbatim_name_ends(s: Seq<char>, at: int, end: int)
    requires
        0 <= at <= end <= s.len(),
        end == s.len() || s[end] == '\\',
        forall|i: int| at <= i < end ==> #[trigger] s[i] != '\\',
    ensures
        crate::path::name_end(s, at, true) == end,
    decreases end - at,
{
    if at < end {
        lemma_verbatim_name_ends(s, at + 1, end);
    }
}

/// Behind `\\?\UNC\` a server and a share follow, which only a backslash ends.
pub proof fn law_verbatim_shares_are_read(server: Seq<char>, share: Seq<char>, rest: Seq<char>)
    requires
        !server.contains('\\'),
        !share.contains('\\'),
        share.len() > 0,
        rest.len() == 0 || rest[0] == '\\',
    ensures
        crate::path::prefix_of(
            Platform::Windows,
            seq!['\\', '\\', '?', '\\', 'U', 'N', 'C', '\\'] + server + seq!['\\'] + share + rest,
        ) == Some(crate::path::PrefixView::VerbatimUnc(server, share)),
        crate::path::prefix_len(
            Platform::Windows,
            seq!['\\', '\\', '?', '\\', 'U', 'N', 'C', '\\'] + server + seq!['\\'] + share + rest,
        ) == 9 + server.len() + share.len(),
        crate::path::prefix_of(
            Platform::Windows,
            seq!['\\', '\\', '?', '\\', 'U', 'N', 'C', '\\'],
        ) == Some(crate::path::PrefixView::VerbatimUnc(Seq::empty(), Seq::empty())),
{
    let lead = seq!['\\', '\\', '?', '\\', 'U', 'N', 'C', '\\'];
    let s = lead + server + seq!['\\'] + share + rest;
    let a = 8 + server.len() as int;
    let b = a + 1 + share.len();
    assert forall|i: int| 0 <= i < 8 implies s[i] == lead[i] by {}
    assert(s[0] == lead[0] && s[1] == lead[1] && s[2] == lead[2] && s[3] == lead[3] && s[4]
        == lead[4] && s[5] == lead[5] && s[6] == lead[6] && s[7] == lead[7]);
    assert(s[a] == '\\');
    assert forall|i: int| 8 <= i < a implies #[trigger] s[i] != '\\' by {
        assert(s[i] == server[i - 8]);
        assert(server.contains(server[i - 8]));
    }
    assert forall|i: int| a + 1 <= i < b implies #[trigger] s[i] != '\\' by {
        assert(s[i] == share[i - a - 1]);
        assert(share.contains(share[i - a - 1]));
    }
    if rest.len() > 0 {
        assert(s[b] == rest[0]);
    }
    lemma_verbatim_name_ends(s, 8, a);
    lemma_verbatim_name_ends(s, a + 1, b);
    assert(s.subrange(8, a) =~= server);
    assert(s.subrange(a + 1, b) =~= share);
}

/// Behind `\\.\` a device follows, which either separator ends, and behind `\\?\` a name, which only
/// a backslash ends.
pub proof fn law_devices_and_names_are_read(name: Seq<char>, rest: Seq<char>)
    requires
        name.len() > 0,
        !name.contains('\\'),
        !name.contains('/'),
        !crate::path::is_letter(name[0]),
        rest.len() == 0 || rest[0] == '\\',
    ensures
        crate::path::prefix_of(
            Platform::Windows,
            seq!['\\', '\\', '.', '\\'] + name + rest,
        ) == Some(crate::path::PrefixView::DeviceNs(name)),
        crate::path::prefix_of(
            Platform::Windows,
            seq!['\\', '\\', '?', '\\'] + name + rest,
        ) == Some(crate::path::PrefixView::Verbatim(name)),
        crate::path::prefix_len(
            Platform::Windows,
            seq!['\\', '\\', '.', '\\'] + name + rest,
        ) == 4 + name.len(),
        crate::path::prefix_len(
            Platform::Windows,
            seq!['\\', '\\', '?', '\\'] + name + rest,
        ) == 4 + name.len(),
{
    let d = seq!['\\', '\\', '.', '\\'] + name + rest;
    let v = seq!['\\', '\\', '?', '\\'] + name + rest;
    let end = 4 + name.len() as int;
    assert(d[0] == '\\' && d[1] == '\\' && d[2] == '.' && d[3] == '\\');
    assert(v[0] == '\\' && v[1] == '\\' && v[2] == '?' && v[3] == '\\');
    assert(d[4] == name[0] && v[4] == name[0]);
    assert forall|i: int| 4 <= i < end implies #[trigger] d[i] != '\\' && d[i] != '/' by {
        assert(d[i] == name[i - 4]);
        assert(name.contains(name[i - 4]));
    }
    assert forall|i: int| 4 <= i < end implies #[trigger] v[i] != '\\' by {
        assert(v[i] == name[i - 4]);
        assert(name.contains(name[i - 4]));
    }
    if rest.len() > 0 {
        assert(d[end] == rest[0] && v[end] == rest[0]);
    }
    lemma_name_ends(d, 4, end);
    lemma_verbatim_name_ends(v, 4, end);
    assert(d.subrange(4, end) =~= name);
    assert(v.subrange(4, end) =~= name);
}

/// A drive takes up two characters, four more behind `\\?\`.
pub proof fn law_length_of_drives(letter: char, rest: Seq<char>)
    requires
        crate::path::is_letter(letter),
        rest.len() == 0 || rest[0] == '\\',
    ensures
        crate::path::prefix_len(Platform::Windows, seq![letter, ':'] + rest) == 2,
        crate::path::prefix_len(
            Platform::Windows,
            seq!['\\', '\\', '?', '\\', letter, ':'] + rest,
        ) == 6,
{
    law_drives_are_read(letter, rest);
}

/// A Windows path is verbatim where it begins with `\\?\`, whatever follows, and only there.
pub proof fn law_which_paths_are_verbatim(rest: Seq<char>, s: Seq<char>)
    ensures
        crate::path::is_verbatim(Platform::Windows, seq!['\\', '\\', '?', '\\'] + rest),
        crate::path::is_verbatim(Platform::Windows, s) ==> s.len() >= 4 && s.take(4) == seq![
            '\\',
            '\\',
            '?',
            '\\',
        ],
        crate::path::prefix_of(Platform::Windows, seq!['\\', '\\', '.', '\\']) == Some(
            crate::path::PrefixView::DeviceNs(Seq::empty()),
        ),
        crate::path::prefix_of(Platform::Windows, seq!['\\', '\\', '?', '\\']) == Some(
            crate::path::PrefixView::Verbatim(Seq::empty()),
        ),
{
    let t = seq!['\\', '\\', '?', '\\'] + rest;
    assert(t[0] == '\\' && t[1] == '\\' && t[2] == '?' && t[3] == '\\');
    if crate::path::is_verbatim(Platform::Windows, s) {
        assert(s.take(4) =~= seq!['\\', '\\', '?', '\\']);
    }
}

} // verus!

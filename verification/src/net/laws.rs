//! What holds of remote listings and URLs as a whole.

use vstd::prelude::*;

use crate::net::RemoteItemView;

verus! {

// ── URLs ────────────────────────────────────────────────────────────────────

/// The parent of a URL always ends in a slash.
pub proof fn law_parent_url_ends_in_slash(url: Seq<char>)
    ensures
        crate::net::parent_of_url(url).len() > 0,
        crate::net::parent_of_url(url).last() == '/',
{
}

/// At the server root the parent is the same URL.
pub proof fn law_parent_url_of_root(url: Seq<char>)
    requires
        crate::text::last_from(
            crate::text::trimmed_end(url, '/'),
            '/',
            crate::net::scheme_end(crate::text::trimmed_end(url, '/')),
        ) is None,
    ensures
        crate::net::is_same_url(crate::net::parent_of_url(url), url),
{
    let s = crate::text::trimmed_end(url, '/');
    crate::text::lemma_trimmed_end(url, '/');
    assert(s.push('/').drop_last() =~= s);
    lemma_trimmed_idempotent(url);
}

proof fn lemma_trimmed_idempotent(url: Seq<char>)
    ensures
        crate::text::trimmed_end(crate::text::trimmed_end(url, '/'), '/')
            == crate::text::trimmed_end(url, '/'),
{
    crate::text::lemma_trimmed_end(url, '/');
}

/// Above the root the parent is a shorter URL, so that climbing comes to an end.
pub proof fn law_parent_url_climbs(url: Seq<char>)
    ensures
        crate::net::is_same_url(crate::net::parent_of_url(url), url) || crate::text::trimmed_end(
            crate::net::parent_of_url(url),
            '/',
        ).len() < crate::text::trimmed_end(url, '/').len(),
{
    let s = crate::text::trimmed_end(url, '/');
    let end = crate::net::scheme_end(s);
    crate::text::lemma_first_from(s, "://"@, 0);
    crate::text::lemma_last_from(s, '/', end);
    lemma_trimmed_idempotent(url);
    match crate::text::last_from(s, '/', end) {
        Some(cut) if cut > end => {
            assert(s.take(cut).push('/').drop_last() =~= s.take(cut));
            crate::text::lemma_trimmed_end(s.take(cut), '/');
        },
        _ => {
            assert(s.push('/').drop_last() =~= s);
        },
    }
}

/// Adding the slash at the end changes nothing for a URL that has one, and never changes what
/// the URL refers to.
pub proof fn law_trailing_slash(url: Seq<char>)
    ensures
        crate::net::with_trailing_slash(crate::net::with_trailing_slash(url))
            == crate::net::with_trailing_slash(url),
        crate::net::is_same_url(crate::net::with_trailing_slash(url), url),
{
    assert(url.push('/').drop_last() =~= url);
}

/// A full URL resolves to itself, whatever the page.
pub proof fn law_full_url_resolves_to_itself(base: Seq<char>, href: Seq<char>)
    requires
        crate::net::is_http(href),
    ensures
        crate::net::resolved(base, href) == href,
{
}

/// A relative link on a page whose URL ends in a slash is appended to that URL.
pub proof fn law_relative_link(base: Seq<char>, href: Seq<char>)
    requires
        base.len() > 0,
        base.last() == '/',
        !crate::net::is_http(href),
        !crate::text::has_prefix(href, "/"@),
    ensures
        crate::net::resolved(base, href) == base + href,
{
    assert(base.take(base.len() as int) =~= base);
}

/// Text without percent signs is decoded to itself, whatever characters it holds.
pub proof fn law_plain_text_is_decoded_to_itself(s: Seq<char>)
    requires
        forall|i: int| 0 <= i < s.len() ==> s[i] != '%',
    ensures
        crate::net::url_decoded(s) == s,
{
    lemma_plain_decoded(s, 0);
    assert(s.skip(0) =~= s);
}

proof fn lemma_plain_decoded(s: Seq<char>, i: int)
    requires
        0 <= i <= s.len(),
        forall|k: int| 0 <= k < s.len() ==> s[k] != '%',
    ensures
        crate::net::decoded_from(s, i) == s.skip(i),
    decreases s.len() - i,
{
    if i < s.len() {
        lemma_plain_decoded(s, i + 1);
        assert(s[i] != '%');
        assert(seq![s[i]] + s.skip(i + 1) =~= s.skip(i));
    } else {
        assert(s.skip(i) =~= seq![]);
    }
}

/// A text holds no `c`.
pub open spec fn is_without(s: Seq<char>, c: char) -> bool {
    forall|i: int| 0 <= i < s.len() ==> #[trigger] s[i] != c
}

/// The text of a URL: its scheme, its authority (host, and port if any) and its path.
pub open spec fn url_text(scheme: Seq<char>, authority: Seq<char>, path: Seq<char>) -> Seq<char> {
    scheme + seq![':', '/', '/'] + authority + path
}

/// These are the parts of a URL: no colon in the scheme, no slash in the authority, and a path that
/// is empty or begins with a slash.
pub open spec fn are_url_parts(scheme: Seq<char>, authority: Seq<char>, path: Seq<char>) -> bool {
    is_without(scheme, ':') && is_without(authority, '/') && (path.len() == 0 || path[0] == '/')
}

/// The scheme of a URL ends behind the first colon with two slashes, whatever follows.
pub proof fn lemma_scheme_end(scheme: Seq<char>, rest: Seq<char>)
    requires
        is_without(scheme, ':'),
    ensures
        crate::net::scheme_end(scheme + seq![':', '/', '/'] + rest) == scheme.len() + 3,
{
    reveal_strlit("://");
    let s = scheme + seq![':', '/', '/'] + rest;
    let pat = seq![':', '/', '/'];
    assert("://"@ =~= pat);
    assert(s.subrange(scheme.len() as int, scheme.len() as int + 3) =~= pat);
    assert forall|q: int| 0 <= q < scheme.len() implies !crate::text::occurs_at(s, pat, q) by {
        if crate::text::occurs_at(s, pat, q) {
            assert(s.subrange(q, q + 3)[0] == ':');
            assert(s[q] == scheme[q]);
        }
    }
    crate::text::lemma_first_is(s, pat, 0, scheme.len() as int);
}

/// A link that begins with a slash keeps the scheme and the whole authority of the page, port
/// included, and nothing of its path.
pub proof fn law_link_from_the_root(
    scheme: Seq<char>,
    authority: Seq<char>,
    path: Seq<char>,
    href: Seq<char>,
)
    requires
        are_url_parts(scheme, authority, path),
        href.len() > 0,
        href[0] == '/',
    ensures
        crate::net::resolved(url_text(scheme, authority, path), href) == url_text(
            scheme,
            authority,
            href,
        ),
{
    let base = url_text(scheme, authority, path);
    assert(base =~= scheme + seq![':', '/', '/'] + (authority + path));
    lemma_scheme_end(scheme, authority + path);
    reveal_strlit("/");
    reveal_strlit("http://");
    reveal_strlit("https://");
    let slash = seq!['/'];
    assert("/"@ =~= slash);
    assert(href.subrange(0, 1) =~= slash);
    if crate::text::has_prefix(href, "http://"@) {
        assert(href.subrange(0, 7)[0] == 'h');
    }
    if crate::text::has_prefix(href, "https://"@) {
        assert(href.subrange(0, 8)[0] == 'h');
    }
    let from = scheme.len() as int + 3;
    let end = from + authority.len();
    assert forall|q: int| from <= q < end implies !crate::text::occurs_at(base, slash, q) by {
        if crate::text::occurs_at(base, slash, q) {
            assert(base.subrange(q, q + 1)[0] == '/');
            assert(base[q] == authority[q - from]);
        }
    }
    if path.len() > 0 {
        assert(base[end] == path[0]);
        assert(base.subrange(end, end + 1) =~= slash);
        crate::text::lemma_first_is(base, slash, from, end);
    } else {
        crate::text::lemma_first_from(base, slash, from);
        assert(base.len() == end);
    }
    assert(crate::net::host_end(base) == end);
    assert(base.take(end) + href =~= url_text(scheme, authority, href));
}

/// Any other link takes the place of what follows the last slash of the page's URL.
pub proof fn law_link_beside_the_page(dir: Seq<char>, file: Seq<char>, href: Seq<char>)
    requires
        dir.len() > 0,
        dir.last() == '/',
        is_without(file, '/'),
        href.len() == 0 || href[0] != '/',
        !crate::net::is_http(href),
    ensures
        crate::net::resolved(dir + file, href) == dir + href,
{
    let base = dir + file;
    reveal_strlit("/");
    if crate::text::has_prefix(href, "/"@) {
        assert(href.subrange(0, 1)[0] == '/');
    }
    assert forall|q: int| dir.len() - 1 < q < base.len() implies base[q] != '/' by {
        assert(base[q] == file[q - dir.len()]);
    }
    crate::text::lemma_last_is(base, '/', 0, dir.len() - 1);
    assert(base.take(dir.len() as int) =~= dir);
}

/// Addresses that begin with `http://` or `https://` are on the network, and links to them stay as
/// they are; what begins with neither letter h is not.
pub proof fn law_network_addresses(base: Seq<char>, rest: Seq<char>, other: Seq<char>)
    requires
        other.len() == 0 || other[0] != 'h',
    ensures
        crate::net::is_http("http://"@ + rest),
        crate::net::is_http("https://"@ + rest),
        crate::net::resolved(base, "http://"@ + rest) == "http://"@ + rest,
        crate::net::resolved(base, "https://"@ + rest) == "https://"@ + rest,
        !crate::net::is_http(other),
{
    reveal_strlit("http://");
    reveal_strlit("https://");
    crate::text::law_text_occurs_where_it_was_put(seq![], "http://"@, rest);
    crate::text::law_text_occurs_where_it_was_put(seq![], "https://"@, rest);
    if crate::text::has_prefix(other, "http://"@) {
        assert(other.subrange(0, 7)[0] == 'h');
    }
    if crate::text::has_prefix(other, "https://"@) {
        assert(other.subrange(0, 8)[0] == 'h');
    }
}

/// What is on the network begins with `http` or `https`, a colon and two slashes.
pub proof fn law_only_http_is_on_the_network(s: Seq<char>)
    requires
        crate::net::is_http(s),
    ensures
        s.len() >= 7,
        s.take(4) == seq!['h', 't', 't', 'p'],
        s.subrange(4, 7) == seq![':', '/', '/'] || (s.len() >= 8 && s.subrange(4, 8) == seq![
            's',
            ':',
            '/',
            '/',
        ]),
{
    reveal_strlit("http://");
    reveal_strlit("https://");
    if crate::text::has_prefix(s, "http://"@) {
        let p = s.subrange(0, 7);
        assert(p == "http://"@);
        assert(p[0] == 'h' && p[1] == 't' && p[2] == 't' && p[3] == 'p' && p[4] == ':' && p[5]
            == '/' && p[6] == '/');
        assert(s.take(4) =~= seq!['h', 't', 't', 'p']);
        assert(s.subrange(4, 7) =~= seq![':', '/', '/']);
    } else {
        let p = s.subrange(0, 8);
        assert(p == "https://"@);
        assert(p[0] == 'h' && p[1] == 't' && p[2] == 't' && p[3] == 'p' && p[4] == 's' && p[5]
            == ':' && p[6] == '/' && p[7] == '/');
        assert(s.take(4) =~= seq!['h', 't', 't', 'p']);
        assert(s.subrange(4, 8) =~= seq!['s', ':', '/', '/']);
    }
}

/// URLs are the same where they differ at most in slashes at the end.
pub proof fn law_trailing_slashes_do_not_matter(url: Seq<char>, other: Seq<char>, n: nat)
    requires
        url.len() == 0 || url.last() != '/',
        other.len() == 0 || other.last() != '/',
    ensures
        crate::net::is_same_url(url, url + Seq::new(n, |i: int| '/')),
        crate::net::is_same_url(url + Seq::new(n, |i: int| '/'), url),
        crate::net::is_same_url(url, other) <==> url == other,
{
    crate::text::law_trimmed_end_has_no_run(url, '/', n);
}

/// The parent of what lies directly in a folder is the folder, with its slash, whether or not the
/// URL ends in a slash.
pub proof fn law_parent_url_is_the_folder(
    scheme: Seq<char>,
    authority: Seq<char>,
    path: Seq<char>,
    name: Seq<char>,
)
    requires
        are_url_parts(scheme, authority, path),
        authority.len() > 0,
        path.len() > 0,
        path.last() == '/',
        name.len() > 0,
        is_without(name, '/'),
    ensures
        crate::net::parent_of_url(url_text(scheme, authority, path) + name) == url_text(
            scheme,
            authority,
            path,
        ),
        crate::net::parent_of_url(url_text(scheme, authority, path) + name + seq!['/']) == url_text(
            scheme,
            authority,
            path,
        ),
{
    let dir = url_text(scheme, authority, path);
    let s = dir + name;
    assert(s.last() == name[name.len() - 1]);
    assert((s + seq!['/']).drop_last() =~= s);
    assert(crate::text::trimmed_end(s, '/') == s);
    assert(crate::text::trimmed_end(s + seq!['/'], '/') == s);
    assert(s =~= scheme + seq![':', '/', '/'] + (authority + path + name));
    lemma_scheme_end(scheme, authority + path + name);
    let cut = dir.len() - 1;
    assert(dir[cut] == path.last());
    assert forall|q: int| cut < q < s.len() implies s[q] != '/' by {
        assert(s[q] == name[q - dir.len()]);
    }
    crate::text::lemma_last_is(s, '/', scheme.len() as int + 3, cut);
    assert(s.take(cut).push('/') =~= dir);
}

/// A URL without a path has no parent but itself: the root of the server.
pub proof fn law_server_root_is_its_own_parent(scheme: Seq<char>, authority: Seq<char>)
    requires
        is_without(scheme, ':'),
        is_without(authority, '/'),
        authority.len() > 0,
    ensures
        crate::net::parent_of_url(url_text(scheme, authority, seq!['/'])) == url_text(
            scheme,
            authority,
            seq!['/'],
        ),
        crate::net::parent_of_url(url_text(scheme, authority, seq![])) == url_text(
            scheme,
            authority,
            seq!['/'],
        ),
{
    let s = url_text(scheme, authority, seq![]);
    let root = url_text(scheme, authority, seq!['/']);
    assert(s.last() == authority[authority.len() - 1]);
    assert(root.drop_last() =~= s);
    assert(root.last() == '/');
    assert(crate::text::trimmed_end(s, '/') == s);
    assert(s =~= scheme + seq![':', '/', '/'] + authority);
    lemma_scheme_end(scheme, authority);
    let from = scheme.len() as int + 3;
    crate::text::lemma_last_from(s, '/', from);
    if let Some(p) = crate::text::last_from(s, '/', from) {
        assert(s[p] == authority[p - from]);
    }
    assert(s.push('/') =~= root);
}

// ── names ───────────────────────────────────────────────────────────────────

/// The name of what lies in a folder is its last segment, decoded, whether or not its URL ends in
/// a slash.
pub proof fn law_name_is_the_last_segment(dir: Seq<char>, segment: Seq<char>)
    requires
        dir.len() == 0 || dir.last() == '/',
        segment.len() > 0,
        is_without(segment, '/'),
    ensures
        crate::net::display_name_of(dir + segment) == crate::net::url_decoded(segment),
        crate::net::display_name_of(dir + segment + seq!['/']) == crate::net::url_decoded(segment),
{
    let s = dir + segment;
    assert(s.last() == segment[segment.len() - 1]);
    assert((s + seq!['/']).drop_last() =~= s);
    assert(crate::text::trimmed_end(s, '/') == s);
    assert(crate::text::trimmed_end(s + seq!['/'], '/') == s);
    assert forall|q: int| dir.len() <= q < s.len() implies s[q] != '/' by {
        assert(s[q] == segment[q - dir.len()]);
    }
    if dir.len() > 0 {
        crate::text::lemma_last_is(s, '/', 0, dir.len() - 1);
        assert(s.skip(dir.len() as int) =~= segment);
    } else {
        crate::text::lemma_last_from(s, '/', 0);
        assert(s =~= segment);
    }
}

/// Hexadecimal digits are 0 to 9 and a to f in either case; nothing else is one.
pub proof fn law_hexadecimal_digits(c: char, k: int)
    requires
        0 <= k < 16,
    ensures
        crate::net::hex_value(c) == Some(k as u8) <==> (k < 10 && c as int == '0' as int + k) || (
        k >= 10 && (c as int == 'a' as int + k - 10 || c as int == 'A' as int + k - 10)),
        crate::net::hex_value(c) matches Some(v) ==> v < 16,
{
}

/// Decoding goes from left to right. A percent sign and two hexadecimal digits stand for the
/// character with that code, where it is printable ASCII.
pub proof fn law_escapes_are_decoded(hi: char, lo: char, h: u8, l: u8, rest: Seq<char>)
    requires
        crate::net::hex_value(hi) == Some(h),
        crate::net::hex_value(lo) == Some(l),
    ensures
        0x20 <= 16 * h + l <= 0x7e ==> crate::net::url_decoded(seq!['%', hi, lo] + rest) == seq![
            (16 * h + l) as u8 as char,
        ] + crate::net::url_decoded(rest),
        !(0x20 <= 16 * h + l <= 0x7e) ==> crate::net::url_decoded(seq!['%', hi, lo] + rest)
            == seq!['%'] + crate::net::url_decoded(seq![hi, lo] + rest),
{
    let s = seq!['%', hi, lo] + rest;
    assert(s[0] == '%' && s[1] == hi && s[2] == lo);
    lemma_decoded_shift(seq!['%', hi, lo], rest, 0);
    lemma_decoded_shift(seq!['%'], seq![hi, lo] + rest, 0);
    assert(s =~= seq!['%'] + (seq![hi, lo] + rest));
}

/// A character that begins no escape stands for itself.
pub proof fn law_other_characters_stay(c: char, rest: Seq<char>)
    requires
        c != '%' || rest.len() < 2 || crate::net::hex_value(rest[0]) is None
            || crate::net::hex_value(rest[1]) is None,
    ensures
        crate::net::url_decoded(seq![c] + rest) == seq![c] + crate::net::url_decoded(rest),
{
    let s = seq![c] + rest;
    assert(s[0] == c);
    if rest.len() >= 2 {
        assert(s[1] == rest[0] && s[2] == rest[1]);
    }
    lemma_decoded_shift(seq![c], rest, 0);
}

proof fn lemma_decoded_shift(p: Seq<char>, s: Seq<char>, i: int)
    requires
        0 <= i,
    ensures
        crate::net::decoded_from(p + s, p.len() + i) == crate::net::decoded_from(s, i),
    decreases s.len() - i,
{
    let all = p + s;
    let k = p.len() + i;
    if i < s.len() {
        assert(all[k] == s[i]);
        if i + 2 < s.len() {
            assert(all[k + 1] == s[i + 1] && all[k + 2] == s[i + 2]);
        }
        assert(crate::net::escape_at(all, k) == crate::net::escape_at(s, i));
        lemma_decoded_shift(p, s, i + 1);
        if i + 3 <= s.len() {
            lemma_decoded_shift(p, s, i + 3);
        }
    }
}

/// The extensions of videos are mp4, m4v, mkv and webm, in whatever case.
pub proof fn law_video_extensions(ext: Seq<char>)
    ensures
        crate::net::is_video_ext(ext) <==> crate::text::ascii_lower(ext) == seq!['m', 'p', '4']
            || crate::text::ascii_lower(ext) == seq!['m', '4', 'v'] || crate::text::ascii_lower(ext)
            == seq!['m', 'k', 'v'] || crate::text::ascii_lower(ext) == seq!['w', 'e', 'b', 'm'],
{
    reveal_strlit("mp4");
    reveal_strlit("m4v");
    reveal_strlit("mkv");
    reveal_strlit("webm");
    assert(crate::text::ascii_lower("mp4"@) =~= seq!['m', 'p', '4']);
    assert(crate::text::ascii_lower("m4v"@) =~= seq!['m', '4', 'v']);
    assert(crate::text::ascii_lower("mkv"@) =~= seq!['m', 'k', 'v']);
    assert(crate::text::ascii_lower("webm"@) =~= seq!['w', 'e', 'b', 'm']);
}

/// Whether an extension is that of a video does not depend on letter case.
pub proof fn law_case_of_extensions_does_not_matter(a: Seq<char>, b: Seq<char>)
    requires
        crate::text::ascii_lower(a) == crate::text::ascii_lower(b),
    ensures
        crate::net::is_video_ext(a) == crate::net::is_video_ext(b),
{
    law_video_extensions(a);
    law_video_extensions(b);
}

/// The extension of a remote name is what follows its last dot; a name without a dot is all
/// extension.
pub proof fn law_extension_follows_the_last_dot(stem: Seq<char>, ext: Seq<char>)
    requires
        is_without(ext, '.'),
    ensures
        crate::net::after_last_dot(stem + seq!['.'] + ext) == ext,
        crate::net::after_last_dot(ext) == ext,
{
    let s = stem + seq!['.'] + ext;
    let d = stem.len() as int;
    assert forall|q: int| d < q < s.len() implies s[q] != '.' by {
        assert(s[q] == ext[q - d - 1]);
    }
    crate::text::lemma_last_is(s, '.', 0, d);
    assert(s.skip(d + 1) =~= ext);
    crate::text::lemma_last_from(ext, '.', 0);
}

// ── listings ────────────────────────────────────────────────────────────────

/// `item` may stand in the listing of `base`: it is a directory or a video, it is not the
/// directory itself, and it goes by the last segment of its URL.
pub open spec fn is_listable(item: RemoteItemView, base: Seq<char>) -> bool {
    &&& item.is_dir || crate::net::is_video_ext(crate::net::after_last_dot(item.name))
    &&& !crate::net::is_same_url(base, item.url)
    &&& item.name == crate::net::display_name_of(item.url)
}

/// A listing has the directories before the videos, and each group goes by name.
pub proof fn law_dirs_first_then_by_name(
    items: Seq<RemoteItemView>,
    out: Seq<RemoteItemView>,
    a: int,
    b: int,
)
    requires
        crate::net::is_sorted_listing(items, out),
        0 <= a < b < out.len(),
    ensures
        out[b].is_dir ==> out[a].is_dir,
        out[a].is_dir == out[b].is_dir ==> !crate::text::text_before(out[b].name, out[a].name),
{
    let keys = crate::net::listing_keys(items);
    let p = choose|p: Seq<int>| #[trigger]
        crate::order::is_stable_order(keys, p) && out == crate::order::picked(items, p);
    assert(crate::order::goes_before(keys, p[a], p[b]));
    lemma_key_order(out[a], out[b]);
    crate::text::law_text_before_irreflexive(out[a].name);
    if crate::text::text_before(out[a].name, out[b].name) && crate::text::text_before(
        out[b].name,
        out[a].name,
    ) {
        crate::text::law_text_before_transitive(out[a].name, out[b].name, out[a].name);
    }
}

/// The order of the keys of two items, in terms of the items.
pub proof fn lemma_key_order(x: RemoteItemView, y: RemoteItemView)
    ensures
        crate::text::text_before(crate::net::listing_key(x), crate::net::listing_key(y)) ==> (
        x.is_dir && !y.is_dir) || (x.is_dir == y.is_dir && crate::text::text_before(
            x.name,
            y.name,
        )),
        crate::net::listing_key(x) == crate::net::listing_key(y) ==> x.is_dir == y.is_dir && x.name
            == y.name,
{
    let kx = crate::net::listing_key(x);
    let ky = crate::net::listing_key(y);
    assert(kx.drop_first() =~= x.name);
    assert(ky.drop_first() =~= y.name);
    assert('0' < '1');
}

/// Sorting a listing neither adds nor drops an item.
pub proof fn law_sorting_keeps_the_items(
    items: Seq<RemoteItemView>,
    out: Seq<RemoteItemView>,
    item: RemoteItemView,
)
    requires
        crate::net::is_sorted_listing(items, out),
    ensures
        out.len() == items.len(),
        items.contains(item) <==> out.contains(item),
{
    let keys = crate::net::listing_keys(items);
    let p = choose|p: Seq<int>| #[trigger]
        crate::order::is_stable_order(keys, p) && out == crate::order::picked(items, p);
    if items.contains(item) {
        let k = choose|k: int| 0 <= k < items.len() && items[k] == item;
        assert(p.contains(k));
        let a = choose|a: int| 0 <= a < p.len() && p[a] == k;
        assert(out[a] == item);
    }
    if out.contains(item) {
        let a = choose|a: int| 0 <= a < out.len() && out[a] == item;
        assert(items[p[a]] == item);
    }
}

/// A WebDAV listing holds directories and videos only, and never the directory itself.
pub proof fn law_propfind_lists_dirs_and_videos(xml: Seq<char>, base: Seq<char>, pos: int, i: int)
    requires
        0 <= pos,
        0 <= i < crate::net::propfind::items_from(xml, base, pos).len(),
    ensures
        is_listable(crate::net::propfind::items_from(xml, base, pos)[i], base),
    decreases xml.len() - pos,
{
    let lo = crate::text::ascii_lower(xml);
    crate::net::propfind::lemma_first_tag(lo, "<"@, "response"@, pos, true);
    if let Some(open) = crate::net::propfind::tag_open(lo, "response"@, pos) {
        crate::net::propfind::lemma_tag_close(lo, "response"@, open + 1);
        if let Some(close) = crate::net::propfind::tag_close(lo, "response"@, open + 1) {
            match crate::net::propfind::block_item(xml.subrange(open, close), base) {
                Some(_) => if i > 0 {
                    law_propfind_lists_dirs_and_videos(xml, base, close, i - 1);
                },
                None => {
                    law_propfind_lists_dirs_and_videos(xml, base, close, i);
                },
            }
        }
    }
}

/// The links taken from a page are directories and videos only, and never the page itself.
pub proof fn law_page_lists_dirs_and_videos(html: Seq<char>, base: Seq<char>, search: int, i: int)
    requires
        0 <= search,
        0 <= i < crate::net::html::links_from(html, base, search).len(),
    ensures
        is_listable(crate::net::html::links_from(html, base, search)[i], base),
    decreases html.len() - search,
{
    crate::net::html::lemma_next_value(html, search);
    if let Some(at) = crate::net::html::next_value(html, search) {
        let value = crate::net::html::attr_value(html.skip(at));
        let after = at + value.1;
        match crate::net::html::link_item(value.0, base) {
            Some(_) => if i > 0 {
                law_page_lists_dirs_and_videos(html, base, after, i - 1);
            },
            None => {
                law_page_lists_dirs_and_videos(html, base, after, i);
            },
        }
    }
}

/// No URL stands twice in the listing of a page.
pub proof fn law_page_lists_each_url_once(
    links: Seq<RemoteItemView>,
    out: Seq<RemoteItemView>,
    a: int,
    b: int,
)
    requires
        crate::net::html::is_listing_of(links, out),
        0 <= a < b < out.len(),
    ensures
        out[a].url != out[b].url,
{
    assert(crate::net::html::listed_before(out[a], out[b]));
    if out[a].url == out[b].url {
        crate::text::law_text_before_irreflexive(out[a].url);
        let i = choose|i: int|
            0 <= i < links.len() && #[trigger] links[i] == out[a] && forall|k: int|
                0 <= k < i ==> (#[trigger] links[k]).url != out[a].url;
        assert(crate::net::html::is_first_with_url(links, out[b]));
        let j = choose|j: int|
            0 <= j < links.len() && #[trigger] links[j] == out[b] && forall|k: int|
                0 <= k < j ==> (#[trigger] links[k]).url != out[b].url;
        assert(i == j);
        crate::text::law_text_before_irreflexive(crate::net::listing_key(out[a]));
    }
}

// ── tags ────────────────────────────────────────────────────────────────────

/// The number of bytes of `s` in UTF-8.
pub open spec fn utf8_len(s: Seq<char>) -> int
    decreases s.len(),
{
    if s.len() == 0 {
        0
    } else {
        crate::net::propfind::utf8_width(s[0]) + utf8_len(s.drop_first())
    }
}

/// `p` may be a namespace prefix.
pub open spec fn is_prefix_text(p: Seq<char>) -> bool {
    utf8_len(p) < 32 && forall|k: int|
        0 <= k < p.len() ==> #[trigger] p[k] != ':' && !crate::net::propfind::ends_prefix(p[k])
}

/// A tag is found whatever its namespace prefix: `<prefix:name>` is a tag named `name`.
pub proof fn law_prefixed_tag_is_found(
    before: Seq<char>,
    lead: Seq<char>,
    prefix: Seq<char>,
    name: Seq<char>,
    after: Seq<char>,
    slash: bool,
)
    requires
        is_prefix_text(prefix),
    ensures
        crate::net::propfind::tag_at(
            before + lead + prefix + seq![':'] + name + seq!['>'] + after,
            lead,
            name,
            before.len() as int,
            slash,
        ),
{
    let hay = before + lead + prefix + seq![':'] + name + seq!['>'] + after;
    let b = before.len() as int;
    let i = b + lead.len();
    let c = i + prefix.len();
    assert(hay.subrange(b, i) =~= lead);
    assert(hay.subrange(i, c) =~= prefix);
    assert(prefix.skip(0) =~= prefix);
    lemma_prefix_is_read(hay, prefix, i, 0, 0);
    assert(hay[c] == ':');
    assert(hay.subrange(c + 1, c + 1 + name.len()) =~= name);
    assert(hay[c + 1 + name.len()] == '>');
}

pub proof fn lemma_prefix_is_read(hay: Seq<char>, prefix: Seq<char>, i: int, k: int, used: int)
    requires
        0 <= i,
        0 <= k <= prefix.len(),
        i + prefix.len() < hay.len(),
        hay.subrange(i, i + prefix.len()) == prefix,
        hay[i + prefix.len()] == ':',
        0 <= used,
        used + utf8_len(prefix.skip(k)) < 32,
        forall|j: int|
            0 <= j < prefix.len() ==> #[trigger] prefix[j] != ':'
                && !crate::net::propfind::ends_prefix(prefix[j]),
    ensures
        crate::net::propfind::prefix_colon(hay, i + k, used) == Some(i + prefix.len()),
    decreases prefix.len() - k,
{
    if k < prefix.len() {
        assert(hay[i + k] == hay.subrange(i, i + prefix.len())[k]);
        assert(prefix.skip(k).drop_first() =~= prefix.skip(k + 1));
        lemma_utf8_len(prefix.skip(k + 1));
        lemma_prefix_is_read(
            hay,
            prefix,
            i,
            k + 1,
            used + crate::net::propfind::utf8_width(hay[i + k]),
        );
    } else {
        lemma_utf8_len(prefix.skip(k));
    }
}

proof fn lemma_utf8_len(s: Seq<char>)
    ensures
        0 <= utf8_len(s),
    decreases s.len(),
{
    if s.len() > 0 {
        lemma_utf8_len(s.drop_first());
    }
}

/// A tag without a namespace prefix is found, whatever follows it.
pub proof fn law_plain_tag_is_found(
    before: Seq<char>,
    lead: Seq<char>,
    name: Seq<char>,
    after: Seq<char>,
    slash: bool,
)
    ensures
        crate::net::propfind::tag_at(
            before + lead + name + seq!['>'] + after,
            lead,
            name,
            before.len() as int,
            slash,
        ),
{
    let hay = before + lead + name + seq!['>'] + after;
    let b = before.len() as int;
    let i = b + lead.len();
    assert(hay.subrange(b, i) =~= lead);
    assert(hay.subrange(i, i + name.len()) =~= name);
    assert(hay[i + name.len()] == '>');
}

/// The length that prefixes are held to is that of their UTF-8 encoding.
pub proof fn law_length_in_utf8(s: Seq<char>)
    ensures
        utf8_len(s) == vstd::utf8::encode_utf8(s).len(),
    decreases s.len(),
{
    if s.len() > 0 {
        law_length_in_utf8(s.drop_first());
        lemma_width_of_scalar(s[0]);
    }
}

proof fn lemma_width_of_scalar(c: char)
    ensures
        vstd::utf8::encode_scalar(c as u32).len() == crate::net::propfind::utf8_width(c),
{
    let scalar = c as u32;
    assert(vstd::utf8::has_width_1_encoding(scalar) <==> scalar < 0x80);
    assert(scalar >= 0x80 ==> (vstd::utf8::has_width_2_encoding(scalar) <==> scalar < 0x800));
    assert(scalar >= 0x800 ==> (vstd::utf8::has_width_3_encoding(scalar) <==> scalar < 0x10000));
}

} // verus!

//! HTTP/HTTPS directory listing.
//!
//! A listing is asked for with WebDAV PROPFIND first; where that fails, the `<a href>` links of
//! a plain HTML page are taken.

use vstd::prelude::*;

pub mod documents;
pub mod html;
pub mod laws;
pub mod propfind;

use crate::order::stable_order;
use crate::text::{
    chars_of, eq_ignore_ascii_case, find_from, joined, rfind_from, same_text, slice_of,
    starts_with, string_of, text_pair, trim_end,
};

verus! {

// ── items ───────────────────────────────────────────────────────────────────

/// An entry of a remote directory.
pub struct RemoteItem {
    pub name: String,
    pub url: String,
    pub is_dir: bool,
}

/// What a `RemoteItem` says.
pub struct RemoteItemView {
    pub name: Seq<char>,
    pub url: Seq<char>,
    pub is_dir: bool,
}

impl View for RemoteItem {
    type V = RemoteItemView;

    open spec fn view(&self) -> RemoteItemView {
        RemoteItemView { name: self.name@, url: self.url@, is_dir: self.is_dir }
    }
}

/// What the items of a list say.
pub open spec fn item_views(items: Seq<RemoteItem>) -> Seq<RemoteItemView> {
    Seq::new(items.len(), |i: int| items[i]@)
}

impl RemoteItem {
    /// An item that says the same.
    pub fn duplicate(&self) -> (r: RemoteItem)
        ensures
            r@ == self@,
    {
        RemoteItem { name: self.name.clone(), url: self.url.clone(), is_dir: self.is_dir }
    }
}

// ── URLs ────────────────────────────────────────────────────────────────────

/// The index just after `://`, or 0 where there is none.
pub open spec fn scheme_end(s: Seq<char>) -> int {
    match crate::text::first_from(s, "://"@, 0) {
        Some(p) => p + 3,
        None => 0,
    }
}

/// The URL of the directory that holds `url`: its last path segment is gone.
pub open spec fn parent_of_url(url: Seq<char>) -> Seq<char> {
    let s = crate::text::trimmed_end(url, '/');
    match crate::text::last_from(s, '/', scheme_end(s)) {
        Some(cut) if cut > scheme_end(s) => s.take(cut).push('/'),
        _ => s.push('/'),
    }
}

fn find_scheme_end(s: &[char]) -> (r: usize)
    ensures
        r == scheme_end(s@),
        r <= s.len(),
{
    proof {
        reveal_strlit("://");
    }
    match find_from(s, &chars_of("://"), 0) {
        Some(p) => {
            assert(p + 3 <= s.len());
            p + 3
        },
        None => 0,
    }
}

/// Derives the "parent directory" URL by stripping the last path segment.
/// Gives the same URL if it is already at the server root.
pub fn parent_url(url: &str) -> (r: String)
    ensures
        r@ == parent_of_url(url@),
{
    let mut s = trim_end(&chars_of(url), '/');
    let end = find_scheme_end(&s);
    if let Some(cut) = rfind_from(&s, '/', end) {
        if cut > end {
            let mut parent = slice_of(&s, 0, cut);
            parent.push('/');
            return string_of(&parent);
        }
    }
    s.push('/');
    string_of(&s)
}

/// `url` ends in a slash.
pub open spec fn with_trailing_slash(url: Seq<char>) -> Seq<char> {
    if url.len() > 0 && url.last() == '/' {
        url
    } else {
        url.push('/')
    }
}

/// `url`, with a slash added where it does not end in one.
pub fn ensure_trailing_slash(url: &str) -> (r: String)
    ensures
        r@ == with_trailing_slash(url@),
{
    let mut s = chars_of(url);
    if !(s.len() > 0 && s[s.len() - 1] == '/') {
        s.push('/');
    }
    string_of(&s)
}

/// `s` names a resource on the network.
pub open spec fn is_http(s: Seq<char>) -> bool {
    crate::text::has_prefix(s, "http://"@) || crate::text::has_prefix(s, "https://"@)
}

/// The end of the scheme and host of `base`: the first slash after the scheme, or the end.
pub open spec fn host_end(base: Seq<char>) -> int {
    match crate::text::first_from(base, "/"@, scheme_end(base)) {
        Some(p) => p,
        None => base.len() as int,
    }
}

/// `base` up to and including its last slash, or all of it where it has none.
pub open spec fn directory_of(base: Seq<char>) -> Seq<char> {
    match crate::text::last_from(base, '/', 0) {
        Some(p) => base.take(p + 1),
        None => base,
    }
}

/// What `href` refers to, seen from `base`.
pub open spec fn resolved(base: Seq<char>, href: Seq<char>) -> Seq<char> {
    if is_http(href) {
        href
    } else if crate::text::has_prefix(href, "/"@) {
        base.take(host_end(base)) + href
    } else {
        directory_of(base) + href
    }
}

/// Resolves `href` against `base`.
pub fn resolve_url(base: &[char], href: &[char]) -> (r: Vec<char>)
    ensures
        r@ == resolved(base@, href@),
{
    if starts_with(href, "http://") || starts_with(href, "https://") {
        return slice_of(href, 0, href.len());
    }
    if starts_with(href, "/") {
        let from = find_scheme_end(base);
        let end = match find_from(base, &chars_of("/"), from) {
            Some(p) => p,
            None => base.len(),
        };
        return joined(&slice_of(base, 0, end), href);
    }
    let end = match rfind_from(base, '/', 0) {
        Some(p) => p + 1,
        None => base.len(),
    };
    assert(base@.subrange(0, base.len() as int) =~= base@);
    joined(&slice_of(base, 0, end), href)
}

/// `a` and `b` refer to the same resource: they differ at most in slashes at the end.
pub open spec fn is_same_url(a: Seq<char>, b: Seq<char>) -> bool {
    crate::text::trimmed_end(a, '/') == crate::text::trimmed_end(b, '/')
}

/// Whether two URLs refer to the same resource (ignoring trailing slashes).
pub fn same_url(a: &[char], b: &[char]) -> (r: bool)
    ensures
        r == is_same_url(a@, b@),
{
    same_text(&trim_end(a, '/'), &trim_end(b, '/'))
}

// ── names ───────────────────────────────────────────────────────────────────

/// The value of a hexadecimal digit.
pub open spec fn hex_digit(b: u8) -> Option<u8> {
    if 0x30 <= b <= 0x39 {
        Some((b - 0x30) as u8)
    } else if 0x61 <= b <= 0x66 {
        Some((b - 0x61 + 10) as u8)
    } else if 0x41 <= b <= 0x46 {
        Some((b - 0x41 + 10) as u8)
    } else {
        None
    }
}

/// The value of a hexadecimal digit.
pub fn hex_val(b: u8) -> (r: Option<u8>)
    ensures
        r == hex_digit(b),
{
    if 0x30 <= b && b <= 0x39 {
        Some(b - 0x30)
    } else if 0x61 <= b && b <= 0x66 {
        Some(b - 0x61 + 10)
    } else if 0x41 <= b && b <= 0x46 {
        Some(b - 0x41 + 10)
    } else {
        None
    }
}

/// The value of a character as a hexadecimal digit.
pub open spec fn hex_value(c: char) -> Option<u8> {
    if c <= '\u{7f}' {
        hex_digit(c as u8)
    } else {
        None
    }
}

/// The value of a character as a hexadecimal digit.
fn hex_char(c: char) -> (r: Option<u8>)
    ensures
        r == hex_value(c),
{
    if c <= '\u{7f}' {
        hex_val(c as u8)
    } else {
        None
    }
}

/// The printable ASCII character that `%XX` at index `i` stands for, if it stands for one.
pub open spec fn escape_at(s: Seq<char>, i: int) -> Option<char> {
    if 0 <= i && i + 2 < s.len() && s[i] == '%' {
        match (hex_value(s[i + 1]), hex_value(s[i + 2])) {
            (Some(h), Some(l)) => if 0x20 <= h * 16 + l < 0x7f {
                Some((h * 16 + l) as u8 as char)
            } else {
                None
            },
            _ => None,
        }
    } else {
        None
    }
}

/// The characters from index `i` on, with each escape of a printable ASCII character replaced by
/// that character.
pub open spec fn decoded_from(s: Seq<char>, i: int) -> Seq<char>
    decreases s.len() - i,
{
    if i < 0 || i >= s.len() {
        seq![]
    } else {
        match escape_at(s, i) {
            Some(c) => seq![c] + decoded_from(s, i + 3),
            None => seq![s[i]] + decoded_from(s, i + 1),
        }
    }
}

/// The text that the URL component `s` encodes.
pub open spec fn url_decoded(s: Seq<char>) -> Seq<char> {
    decoded_from(s, 0)
}

/// Decodes `%XX` percent-encoding in a URL component. Only the printable ASCII range is decoded,
/// and all other characters stay as they are, to avoid garbled text.
pub fn url_decode(s: &str) -> (r: String)
    ensures
        r@ == url_decoded(s@),
{
    let chars = chars_of(s);
    let mut out = String::new();
    let mut i: usize = 0;
    assert(out@ + decoded_from(s@, 0) =~= decoded_from(s@, 0));
    while i < chars.len()
        invariant
            i <= chars.len(),
            chars@ == s@,
            out@ + decoded_from(s@, i as int) == decoded_from(s@, 0),
        decreases chars.len() - i,
    {
        let ghost before = out@;
        if chars[i] == '%' && chars.len() - i > 2 {
            if let (Some(h), Some(l)) = (hex_char(chars[i + 1]), hex_char(chars[i + 2])) {
                let code: u8 = h * 16 + l;
                if code >= 0x20 && code < 0x7f {
                    out.push(code as char);
                    proof {
                        assert(escape_at(s@, i as int) == Some(code as char));
                        assert(before + (seq![code as char] + decoded_from(s@, i + 3)) =~= out@
                            + decoded_from(s@, i + 3));
                    }
                    i = i + 3;
                    continue;
                }
            }
        }
        assert(escape_at(s@, i as int) is None);
        out.push(chars[i]);
        proof {
            assert(before + (seq![s@[i as int]] + decoded_from(s@, i + 1)) =~= out@
                + decoded_from(s@, i + 1));
        }
        i = i + 1;
    }
    assert(out@ + decoded_from(s@, i as int) =~= out@);
    out
}

/// What follows the last slash of `s`, or all of it where it has none.
pub open spec fn last_segment(s: Seq<char>) -> Seq<char> {
    match crate::text::last_from(s, '/', 0) {
        Some(p) => s.skip(p + 1),
        None => s,
    }
}

/// The name shown for a URL: its last path segment, decoded.
pub open spec fn display_name_of(url: Seq<char>) -> Seq<char> {
    url_decoded(last_segment(crate::text::trimmed_end(url, '/')))
}

/// Human-readable name for a URL: last path segment, URL-decoded.
pub fn display_name(url: &[char]) -> (r: String)
    ensures
        r@ == display_name_of(url@),
{
    let s = trim_end(url, '/');
    let from = match rfind_from(&s, '/', 0) {
        Some(p) => p + 1,
        None => 0,
    };
    assert(s@.skip(0) =~= s@);
    assert(s@.skip(from as int) =~= s@.subrange(from as int, s.len() as int));
    url_decode(&string_of(&slice_of(&s, from, s.len())))
}

/// `ext` is the extension of a kind of video file, in whatever case.
pub open spec fn is_video_ext(ext: Seq<char>) -> bool {
    let e = crate::text::ascii_lower(ext);
    ||| e == crate::text::ascii_lower("mp4"@)
    ||| e == crate::text::ascii_lower("m4v"@)
    ||| e == crate::text::ascii_lower("mkv"@)
    ||| e == crate::text::ascii_lower("webm"@)
}

/// Whether `ext` is the extension of a kind of video file, in whatever case.
pub fn is_video_extension(ext: &[char]) -> (r: bool)
    ensures
        r == is_video_ext(ext@),
{
    eq_ignore_ascii_case(ext, "mp4") || eq_ignore_ascii_case(ext, "m4v")
        || eq_ignore_ascii_case(ext, "mkv") || eq_ignore_ascii_case(ext, "webm")
}

/// What follows the last dot of `name`, or all of it where it has none.
pub open spec fn after_last_dot(name: Seq<char>) -> Seq<char> {
    match crate::text::last_from(name, '.', 0) {
        Some(p) => name.skip(p + 1),
        None => name,
    }
}

/// Whether the name of a remote file is that of a video.
pub fn has_video_ext(name: &str) -> (r: bool)
    ensures
        r == is_video_ext(after_last_dot(name@)),
{
    let s = chars_of(name);
    let from = match rfind_from(&s, '.', 0) {
        Some(p) => p + 1,
        None => 0,
    };
    assert(s@.skip(0) =~= s@);
    assert(s@.skip(from as int) =~= s@.subrange(from as int, s.len() as int));
    is_video_extension(&slice_of(&s, from, s.len()))
}

// ── order of a listing ──────────────────────────────────────────────────────

/// What a listing is sorted by: directories come first, and each group goes by name.
pub open spec fn listing_key(item: RemoteItemView) -> Seq<char> {
    if item.is_dir {
        seq!['0'] + item.name
    } else {
        seq!['1'] + item.name
    }
}

/// The keys of the items of a list.
pub open spec fn listing_keys(items: Seq<RemoteItemView>) -> Seq<Seq<char>> {
    Seq::new(items.len(), |i: int| listing_key(items[i]))
}

/// `out` is `items` with the directories first, each group by name; items of the same kind and
/// name keep their order.
pub open spec fn is_sorted_listing(items: Seq<RemoteItemView>, out: Seq<RemoteItemView>) -> bool {
    crate::order::is_stable_sort(items, listing_keys(items), out)
}

fn key_of(item: &RemoteItem) -> (r: Vec<char>)
    ensures
        r@ == listing_key(item@),
{
    let mut k: Vec<char> = Vec::new();
    if item.is_dir {
        k.push('0');
    } else {
        k.push('1');
    }
    joined(&k, &chars_of(&item.name))
}

/// The items at the indices that `p` lists, in that order.
pub(crate) fn pick_items(items: &Vec<RemoteItem>, p: &Vec<usize>) -> (r: Vec<RemoteItem>)
    requires
        forall|a: int| 0 <= a < p.len() ==> #[trigger] p[a] < items.len(),
    ensures
        item_views(r@) == crate::order::picked(
            item_views(items@),
            p@.map_values(|i: usize| i as int),
        ),
{
    let ghost q = p@.map_values(|i: usize| i as int);
    let mut out: Vec<RemoteItem> = Vec::new();
    let mut a: usize = 0;
    while a < p.len()
        invariant
            a <= p.len(),
            out.len() == a,
            q == p@.map_values(|i: usize| i as int),
            forall|b: int| 0 <= b < p.len() ==> #[trigger] p[b] < items.len(),
            forall|b: int| 0 <= b < a ==> (#[trigger] out[b])@ == items[p[b] as int]@,
        decreases p.len() - a,
    {
        out.push(items[p[a]].duplicate());
        a = a + 1;
    }
    assert(item_views(out@) =~= crate::order::picked(item_views(items@), q));
    out
}

/// Sorts a listing: directories first, each group by name.
pub fn sort_items(items: &mut Vec<RemoteItem>)
    ensures
        is_sorted_listing(item_views(old(items)@), item_views(final(items)@)),
{
    let mut keys: Vec<Vec<char>> = Vec::new();
    let mut i: usize = 0;
    while i < items.len()
        invariant
            i <= items.len(),
            keys.len() == i,
            forall|k: int| 0 <= k < i ==> (#[trigger] keys[k])@ == listing_key(items[k]@),
        decreases items.len() - i,
    {
        keys.push(key_of(&items[i]));
        i = i + 1;
    }
    let ghost views = item_views(items@);
    assert(crate::order::key_views(keys@) =~= listing_keys(views));
    let p = stable_order(&keys);
    let ghost q = p@.map_values(|i: usize| i as int);
    assert forall|a: int| 0 <= a < p.len() implies #[trigger] p[a] < items.len() by {
        assert(0 <= q[a] < views.len());
    }
    *items = pick_items(items, &p);
}

// ── asking for a listing ────────────────────────────────────────────────────

/// The body of a PROPFIND request.
pub const PROPFIND_BODY: &'static str =
    "<?xml version=\"1.0\" encoding=\"utf-8\"?><D:propfind xmlns:D=\"DAV:\"><D:prop><D:resourcetype/><D:displayname/></D:prop></D:propfind>";

/// The status with which a server answers PROPFIND.
pub const MULTI_STATUS: u16 = 207;

/// A request to a server.
pub enum HttpRequest {
    /// WebDAV `PROPFIND` with `Depth: 1`.
    Propfind(String),
    Get(String),
}

/// What became of a request.
pub enum HttpReply {
    /// There was no answer, or one that reports an error; with a description.
    Failed(String),
    /// The body of the answer could not be read as text; with a description.
    Unreadable(String),
    /// Status and body of the answer.
    Body(u16, String),
}

/// What to do next about a listing.
pub enum ListStep {
    Ask(HttpRequest),
    Found(Vec<RemoteItem>),
    Failed(String),
}

/// The listing of a remote directory, while it is being asked for.
pub struct HttpListing {
    /// The URL of the directory, with a slash at its end so that relative links resolve.
    pub base: String,
    /// PROPFIND has failed, and the HTML page has been asked for.
    pub asked_page: bool,
}

/// `step` asks for the page at `url`.
pub open spec fn asks_page(step: ListStep, url: Seq<char>) -> bool {
    step matches ListStep::Ask(HttpRequest::Get(u)) && u@ == url
}

/// Begins to list the contents of a remote HTTP/HTTPS "directory": PROPFIND is the first request.
pub fn list_http_dir(url: &str) -> (r: (HttpListing, HttpRequest))
    ensures
        r.0.base@ == with_trailing_slash(url@),
        !r.0.asked_page,
        r.1 matches HttpRequest::Propfind(u) && u@ == with_trailing_slash(url@),
{
    let base = ensure_trailing_slash(url);
    (HttpListing { base: base.clone(), asked_page: false }, HttpRequest::Propfind(base))
}

impl HttpListing {
    /// Takes the answer to the last request. A multi-status answer to PROPFIND gives the
    /// listing; any other outcome makes the page the next request. The page gives the listing
    /// by its links; where it cannot be had, the listing fails.
    pub fn on_reply(&mut self, reply: &HttpReply) -> (r: ListStep)
        ensures
            final(self).base == old(self).base,
            final(self).asked_page == (old(self).asked_page || r is Ask),
            is_next_step(*old(self), *reply, r),
            !old(self).asked_page ==> match reply {
                HttpReply::Body(status, body) if *status == MULTI_STATUS => {
                    &&& r is Found
                    &&& is_sorted_listing(
                        propfind::items_from(body@, old(self).base@, 0),
                        item_views(r->Found_0@),
                    )
                },
                _ => asks_page(r, old(self).base@),
            },
            old(self).asked_page ==> match reply {
                HttpReply::Body(_, body) => {
                    &&& r is Found
                    &&& html::is_listing_of(
                        html::links_from(body@, old(self).base@, 0),
                        item_views(r->Found_0@),
                    )
                },
                HttpReply::Failed(e) => r is Failed && r->Failed_0@ == "GET "@ + old(self).base@
                    + ": "@ + e@,
                HttpReply::Unreadable(e) => r is Failed && r->Failed_0@ == "GET body: "@ + e@,
            },
    {
        if self.asked_page {
            return match reply {
                HttpReply::Body(_, body) => ListStep::Found(
                    html::scrape_html_links(body, &self.base),
                ),
                HttpReply::Failed(e) => ListStep::Failed(
                    text_pair(&text_pair(&text_pair("GET ", &self.base), ": "), e),
                ),
                HttpReply::Unreadable(e) => ListStep::Failed(text_pair("GET body: ", e)),
            };
        }
        if let HttpReply::Body(status, body) = reply {
            if *status == MULTI_STATUS {
                return ListStep::Found(propfind::parse_propfind(body, &self.base));
            }
        }
        self.asked_page = true;
        ListStep::Ask(HttpRequest::Get(self.base.clone()))
    }
}

/// `step` follows from the answer `reply` to the last request of `listing`.
pub open spec fn is_next_step(listing: HttpListing, reply: HttpReply, step: ListStep) -> bool {
    if listing.asked_page {
        match reply {
            HttpReply::Body(_, body) => step matches ListStep::Found(items)
                && html::is_listing_of(
                html::links_from(body@, listing.base@, 0),
                item_views(items@),
            ),
            HttpReply::Failed(e) => step matches ListStep::Failed(text) && text@ == "GET "@
                + listing.base@ + ": "@ + e@,
            HttpReply::Unreadable(e) => step matches ListStep::Failed(text) && text@
                == "GET body: "@ + e@,
        }
    } else {
        match reply {
            HttpReply::Body(status, body) if status == MULTI_STATUS => step matches ListStep::Found(
                items,
            ) && is_sorted_listing(
                propfind::items_from(body@, listing.base@, 0),
                item_views(items@),
            ),
            _ => asks_page(step, listing.base@),
        }
    }
}

/// Only the multi-status answer to PROPFIND, number 207, gives a listing at once; after any other the
/// page is asked for, once, and whatever page comes gives the listing. A listing fails only where
/// the page cannot be had.
pub proof fn law_steps_of_a_listing(listing: HttpListing, reply: HttpReply, step: ListStep)
    requires
        is_next_step(listing, reply, step),
    ensures
        !listing.asked_page ==> !(step is Failed),
        !listing.asked_page ==> (step is Found <==> (reply matches HttpReply::Body(status, _)
            && status == 207)),
        step is Ask <==> !listing.asked_page && !(reply matches HttpReply::Body(status, _) && status
            == 207),
        step matches ListStep::Ask(request) ==> (request matches HttpRequest::Get(url) && url@
            == listing.base@),
        listing.asked_page ==> (step is Found <==> reply is Body),
        step is Failed ==> !(reply is Body),
{
}

/// A folder is asked for with one slash at its end, which is added where it is missing.
pub proof fn law_folders_end_in_a_slash(url: Seq<char>)
    ensures
        url.len() > 0 && url.last() == '/' ==> with_trailing_slash(url) == url,
        url.len() == 0 || url.last() != '/' ==> with_trailing_slash(url) == url + seq!['/'],
        with_trailing_slash(url).last() == '/',
        with_trailing_slash(with_trailing_slash(url)) == with_trailing_slash(url),
{
    assert(url.push('/') =~= url + seq!['/']);
}

} // verus!

//! Reading a WebDAV `207 Multi-Status` body.
//!
//! Tags are found by plain scanning, whatever namespace prefix a server gives them:
//! `<D:href>`, `<ns0:href>` and `<href>` are all the tag `href`.

use vstd::prelude::*;

use crate::net::{
    display_name, has_video_ext, item_views, resolve_url, same_url, sort_items, RemoteItem,
    RemoteItemView,
};
use crate::text::{
    chars_of, contains, find_from, is_at, slice_of, string_of, to_ascii_lowercase, trim,
};

verus! {

/// The number of bytes of `c` in UTF-8.
pub open spec fn utf8_width(c: char) -> int {
    if (c as u32) < 0x80 {
        1
    } else if (c as u32) < 0x800 {
        2
    } else if (c as u32) < 0x10000 {
        3
    } else {
        4
    }
}

/// No namespace prefix holds `c`.
pub open spec fn ends_prefix(c: char) -> bool {
    c == '<' || c == '>' || c == '/' || crate::text::is_blank(c)
}

/// The index of the colon that ends a namespace prefix of which the part before index `i` has
/// `used` bytes. A prefix has fewer than 32 bytes.
pub open spec fn prefix_colon(hay: Seq<char>, i: int, used: int) -> Option<int>
    decreases hay.len() - i,
{
    if i < 0 || i >= hay.len() || used >= 32 {
        None
    } else if hay[i] == ':' {
        Some(i)
    } else if ends_prefix(hay[i]) {
        None
    } else {
        prefix_colon(hay, i + 1, used + utf8_width(hay[i]))
    }
}

/// A tag's name may end before index `k`.
pub open spec fn name_may_end(hay: Seq<char>, k: int, slash: bool) -> bool {
    k >= hay.len() || hay[k] == '>' || hay[k] == ' ' || (slash && hay[k] == '/')
}

/// `name` stands at `i` as the whole name of a tag.
pub open spec fn whole_name_at(hay: Seq<char>, name: Seq<char>, i: int, slash: bool) -> bool {
    crate::text::occurs_at(hay, name, i) && name_may_end(hay, i + name.len(), slash)
}

/// The index just after the tag name `name`, where that name stands at `i`, with a namespace
/// prefix or without.
pub open spec fn name_end(hay: Seq<char>, name: Seq<char>, i: int, slash: bool) -> Option<int> {
    if whole_name_at(hay, name, i, slash) {
        Some(i + name.len())
    } else {
        match prefix_colon(hay, i, 0) {
            Some(c) => if whole_name_at(hay, name, c + 1, slash) {
                Some(c + 1 + name.len())
            } else {
                None
            },
            None => None,
        }
    }
}

/// A tag that begins with `lead` and is named `name` stands at `i`.
pub open spec fn tag_at(
    hay: Seq<char>,
    lead: Seq<char>,
    name: Seq<char>,
    i: int,
    slash: bool,
) -> bool {
    crate::text::occurs_at(hay, lead, i) && name_end(hay, name, i + lead.len(), slash) is Some
}

/// The least index, `from` or later, of a tag that begins with `lead` and is named `name`.
pub open spec fn first_tag(
    hay: Seq<char>,
    lead: Seq<char>,
    name: Seq<char>,
    from: int,
    slash: bool,
) -> Option<int>
    decreases hay.len() - from,
{
    if from < 0 || from >= hay.len() {
        None
    } else if tag_at(hay, lead, name, from, slash) {
        Some(from)
    } else {
        first_tag(hay, lead, name, from + 1, slash)
    }
}

/// The index of the first `<name>` or `<prefix:name>`.
pub open spec fn tag_open(hay: Seq<char>, name: Seq<char>, from: int) -> Option<int> {
    first_tag(hay, "<"@, name, from, true)
}

/// The index after the first `</name>` or `</prefix:name>`.
pub open spec fn tag_close(hay: Seq<char>, name: Seq<char>, from: int) -> Option<int> {
    match first_tag(hay, "</"@, name, from, false) {
        Some(lt) => match crate::text::first_from(
            hay,
            ">"@,
            name_end(hay, name, lt + 2, false)->0,
        ) {
            Some(gt) => Some(gt + 1),
            None => None,
        },
        None => None,
    }
}

/// The text between `<*:tag>` and `</*:tag>`; `lo` is `src` in lower case.
pub open spec fn tag_text(src: Seq<char>, lo: Seq<char>, tag: Seq<char>) -> Option<Seq<char>> {
    match tag_open(lo, tag, 0) {
        Some(open) => match crate::text::first_from(lo, ">"@, open) {
            Some(gt) => match first_tag(lo, "</"@, tag, gt + 1, true) {
                Some(close) => Some(src.subrange(gt + 1, close)),
                None => None,
            },
            None => None,
        },
        None => None,
    }
}

/// A namespace prefix lies between its start and its colon.
pub proof fn lemma_prefix_colon(hay: Seq<char>, i: int, used: int)
    requires
        0 <= i,
    ensures
        prefix_colon(hay, i, used) matches Some(c) ==> i <= c < hay.len(),
    decreases hay.len() - i,
{
    if i < hay.len() && used < 32 && hay[i] != ':' && !ends_prefix(hay[i]) {
        lemma_prefix_colon(hay, i + 1, used + utf8_width(hay[i]));
    }
}

/// A found tag lies at or after the place the search began, and before the end.
pub proof fn lemma_first_tag(
    hay: Seq<char>,
    lead: Seq<char>,
    name: Seq<char>,
    from: int,
    slash: bool,
)
    requires
        0 <= from,
    ensures
        first_tag(hay, lead, name, from, slash) matches Some(p) ==> from <= p < hay.len() && tag_at(
            hay,
            lead,
            name,
            p,
            slash,
        ),
    decreases hay.len() - from,
{
    if from < hay.len() && !tag_at(hay, lead, name, from, slash) {
        lemma_first_tag(hay, lead, name, from + 1, slash);
    }
}

/// The end of a tag name lies after the place where the name may begin.
pub proof fn lemma_name_end(hay: Seq<char>, name: Seq<char>, i: int, slash: bool)
    requires
        0 <= i,
    ensures
        name_end(hay, name, i, slash) matches Some(e) ==> i + name.len() <= e <= hay.len(),
{
    lemma_prefix_colon(hay, i, 0);
}

/// A close tag ends after the place where the search began.
pub proof fn lemma_tag_close(hay: Seq<char>, name: Seq<char>, from: int)
    requires
        0 <= from,
    ensures
        tag_close(hay, name, from) matches Some(p) ==> from < p <= hay.len(),
{
    lemma_first_tag(hay, "</"@, name, from, false);
    reveal_strlit("</");
    reveal_strlit(">");
    if let Some(lt) = first_tag(hay, "</"@, name, from, false) {
        lemma_name_end(hay, name, lt + 2, false);
        crate::text::lemma_first_from(hay, ">"@, name_end(hay, name, lt + 2, false)->0);
    }
}

fn find_prefix_colon(hay: &[char], from: usize) -> (r: Option<usize>)
    requires
        from <= hay.len(),
    ensures
        crate::text::index_view(r) == prefix_colon(hay@, from as int, 0),
        r matches Some(c) ==> c < hay.len(),
{
    let mut i: usize = from;
    let mut used: usize = 0;
    while i < hay.len() && used < 32
        invariant
            i <= hay.len(),
            used <= 36,
            prefix_colon(hay@, from as int, 0) == prefix_colon(hay@, i as int, used as int),
        decreases hay.len() - i,
    {
        let c = hay[i];
        if c == ':' {
            return Some(i);
        }
        if c == '<' || c == '>' || c == '/' || crate::text::is_white_space(c) {
            return None;
        }
        let u: u32 = c as u32;
        let width: usize = if u < 0x80 {
            1
        } else if u < 0x800 {
            2
        } else if u < 0x10000 {
            3
        } else {
            4
        };
        used = used + width;
        i = i + 1;
    }
    None
}

fn is_whole_name_at(hay: &[char], name: &[char], i: usize, slash: bool) -> (r: bool)
    ensures
        r == whole_name_at(hay@, name@, i as int, slash),
{
    if !is_at(hay, name, i) {
        return false;
    }
    assert(i + name.len() <= hay.len());
    let k: usize = i + name.len();
    k >= hay.len() || hay[k] == '>' || hay[k] == ' ' || (slash && hay[k] == '/')
}

fn find_name_end(hay: &[char], name: &[char], i: usize, slash: bool) -> (r: Option<usize>)
    requires
        i <= hay.len(),
    ensures
        crate::text::index_view(r) == name_end(hay@, name@, i as int, slash),
        r matches Some(e) ==> e <= hay.len(),
{
    if is_whole_name_at(hay, name, i, slash) {
        return Some(i + name.len());
    }
    match find_prefix_colon(hay, i) {
        Some(c) => if is_whole_name_at(hay, name, c + 1, slash) {
            Some(c + 1 + name.len())
        } else {
            None
        },
        None => None,
    }
}

fn find_first_tag(hay: &[char], lead: &[char], name: &[char], from: usize, slash: bool) -> (r: Option<
    usize,
>)
    requires
        from <= hay.len(),
    ensures
        crate::text::index_view(r) == first_tag(hay@, lead@, name@, from as int, slash),
        r matches Some(p) ==> from <= p < hay.len() && tag_at(hay@, lead@, name@, p as int, slash),
{
    let mut i: usize = from;
    while i < hay.len()
        invariant
            from <= i <= hay.len(),
            first_tag(hay@, lead@, name@, from as int, slash) == first_tag(
                hay@,
                lead@,
                name@,
                i as int,
                slash,
            ),
        decreases hay.len() - i,
    {
        if is_at(hay, lead, i) && find_name_end(hay, name, i + lead.len(), slash).is_some() {
            return Some(i);
        }
        i = i + 1;
    }
    None
}

/// Finds the position of `<prefix:name>` or `<name>` in `hay`, which is in lower case,
/// starting at `from`.
pub fn find_tag_open(hay: &[char], name: &[char], from: usize) -> (r: Option<usize>)
    requires
        from <= hay.len(),
    ensures
        crate::text::index_view(r) == tag_open(hay@, name@, from as int),
        r matches Some(p) ==> from <= p < hay.len(),
{
    find_first_tag(hay, &chars_of("<"), name, from, true)
}

/// Finds the position *after* the closing `</prefix:name>` tag in `hay`, which is in lower
/// case, starting at `from`.
pub fn find_tag_close(hay: &[char], name: &[char], from: usize) -> (r: Option<usize>)
    requires
        from <= hay.len(),
    ensures
        crate::text::index_view(r) == tag_close(hay@, name@, from as int),
        r matches Some(p) ==> from < p <= hay.len(),
{
    proof {
        lemma_tag_close(hay@, name@, from as int);
        reveal_strlit("</");
        reveal_strlit(">");
    }
    match find_first_tag(hay, &chars_of("</"), name, from, false) {
        Some(lt) => match find_name_end(hay, name, lt + 2, false) {
            Some(e) => match find_from(hay, &chars_of(">"), e) {
                Some(gt) => Some(gt + 1),
                None => None,
            },
            None => None,
        },
        None => None,
    }
}

/// Extracts the text content between `<*:tag>` and `</*:tag>`; `lo` is `src` in lower case.
pub fn extract_tag_text(src: &[char], lo: &[char], tag: &[char]) -> (r: Option<Vec<char>>)
    requires
        src.len() == lo.len(),
    ensures
        match r {
            Some(v) => tag_text(src@, lo@, tag@) == Some(v@),
            None => tag_text(src@, lo@, tag@) is None,
        },
{
    proof {
        reveal_strlit(">");
    }
    let open = match find_tag_open(lo, tag, 0) {
        Some(p) => p,
        None => {
            return None;
        },
    };
    let gt = match find_from(lo, &chars_of(">"), open) {
        Some(p) => p,
        None => {
            return None;
        },
    };
    match find_first_tag(lo, &chars_of("</"), tag, gt + 1, true) {
        Some(close) => Some(slice_of(src, gt + 1, close)),
        None => None,
    }
}

/// A block of the answer describes a directory.
pub open spec fn block_is_dir(block_lo: Seq<char>) -> bool {
    crate::text::holds_text(block_lo, ":collection"@) || crate::text::holds_text(
        block_lo,
        "<collection"@,
    )
}

/// The item that a `response` block describes, seen from `base`: a directory or a video, but
/// not the listed directory itself.
pub open spec fn block_item(block: Seq<char>, base: Seq<char>) -> Option<RemoteItemView> {
    let lo = crate::text::ascii_lower(block);
    match tag_text(block, lo, "href"@) {
        Some(href) => {
            let url = crate::net::resolved(base, crate::text::trimmed(href));
            let name = crate::net::display_name_of(url);
            let is_dir = block_is_dir(lo);
            if crate::net::is_same_url(base, url) {
                None
            } else if is_dir || crate::net::is_video_ext(crate::net::after_last_dot(name)) {
                Some(RemoteItemView { name, url, is_dir })
            } else {
                None
            }
        },
        None => None,
    }
}

/// The items of the `response` blocks from index `pos` on, in the order of the body.
pub open spec fn items_from(xml: Seq<char>, base: Seq<char>, pos: int) -> Seq<RemoteItemView>
    decreases xml.len() - pos,
{
    let lo = crate::text::ascii_lower(xml);
    if pos < 0 {
        seq![]
    } else {
        match tag_open(lo, "response"@, pos) {
            None => seq![],
            Some(open) => match tag_close(lo, "response"@, open + 1) {
                None => seq![],
                Some(close) => {
                    proof {
                        lemma_first_tag(lo, "<"@, "response"@, pos, true);
                        lemma_tag_close(lo, "response"@, open + 1);
                    }
                    let rest = items_from(xml, base, close);
                    match block_item(xml.subrange(open, close), base) {
                        Some(item) => seq![item] + rest,
                        None => rest,
                    }
                },
            },
        }
    }
}

fn read_block(block: &[char], base: &[char]) -> (r: Option<RemoteItem>)
    ensures
        match r {
            Some(item) => block_item(block@, base@) == Some(item@),
            None => block_item(block@, base@) is None,
        },
{
    let lo = to_ascii_lowercase(block);
    match extract_tag_text(block, &lo, &chars_of("href")) {
        Some(href) => {
            let url = resolve_url(base, &trim(&href));
            if same_url(base, &url) {
                return None;
            }
            let is_dir = contains(&lo, ":collection") || contains(&lo, "<collection");
            let name = display_name(&url);
            if is_dir || has_video_ext(&name) {
                Some(RemoteItem { name, url: string_of(&url), is_dir })
            } else {
                None
            }
        },
        None => None,
    }
}

/// Parses a WebDAV `207 Multi-Status` XML body: the directories and videos that it lists, the
/// directories first, each group by name.
pub fn parse_propfind(xml: &str, base_url: &str) -> (r: Vec<RemoteItem>)
    ensures
        crate::net::is_sorted_listing(items_from(xml@, base_url@, 0), item_views(r@)),
{
    let text = chars_of(xml);
    let base = chars_of(base_url);
    let lo = to_ascii_lowercase(&text);
    let tag = chars_of("response");
    let mut items: Vec<RemoteItem> = Vec::new();
    let mut pos: usize = 0;
    let ghost all = items_from(xml@, base_url@, 0);
    assert(item_views(items@) + all =~= all);
    loop
        invariant_except_break
            item_views(items@) + items_from(xml@, base_url@, pos as int) == all,
        invariant
            text@ == xml@,
            base@ == base_url@,
            lo@ == crate::text::ascii_lower(xml@),
            tag@ == "response"@,
            pos <= text.len(),
        ensures
            item_views(items@) == all,
        decreases text.len() - pos,
    {
        proof {
            assert(item_views(items@) + Seq::<RemoteItemView>::empty() =~= item_views(items@));
        }
        let open = match find_tag_open(&lo, &tag, pos) {
            Some(p) => p,
            None => {
                break;
            },
        };
        let close = match find_tag_close(&lo, &tag, open + 1) {
            Some(p) => p,
            None => {
                break;
            },
        };
        let ghost before = item_views(items@);
        let ghost rest = items_from(xml@, base_url@, close as int);
        let block = slice_of(&text, open, close);
        if let Some(item) = read_block(&block, &base) {
            let ghost v = item@;
            items.push(item);
            proof {
                assert(before + (seq![v] + rest) =~= item_views(items@) + rest);
            }
        }
        pos = close;
    }
    sort_items(&mut items);
    items
}

} // verus!

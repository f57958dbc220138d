//! Taking the links of a plain HTML page as a directory listing.

use vstd::prelude::*;

use crate::net::{
    display_name, has_video_ext, item_views, pick_items, resolve_url, same_url, sort_items,
    RemoteItem, RemoteItemView,
};
use crate::order::stable_order;
use crate::text::{
    chars_of, find_from, same_str, slice_of, starts_with, string_of, to_ascii_lowercase,
};

verus! {

/// An unquoted attribute value ends before `c`.
pub open spec fn ends_value(c: char) -> bool {
    c == ' ' || c == '\t' || c == '\n' || c == '\r' || c as u32 == 0x0c || c == '>' || c == '/'
}

/// The index, `from` or later, of the first character that ends an unquoted value, or the length.
pub open spec fn value_end(s: Seq<char>, from: int) -> int
    decreases s.len() - from,
{
    if from < 0 || from >= s.len() || ends_value(s[from]) {
        from
    } else {
        value_end(s, from + 1)
    }
}

/// The attribute value that `s` begins with, and the number of characters it takes up with its
/// quotes. Where the closing quote is missing the value goes to the end.
pub open spec fn attr_value(s: Seq<char>) -> (Seq<char>, int) {
    if s.len() > 0 && (s[0] == '"' || s[0] == '\'') {
        match crate::text::first_from(s, seq![s[0]], 1) {
            Some(end) => (s.subrange(1, end), end + 1),
            None => (s.skip(1), s.len() as int),
        }
    } else {
        (s.take(value_end(s, 0)), value_end(s, 0))
    }
}

/// An unquoted value ends where the search began, or later.
pub proof fn lemma_value_end(s: Seq<char>, from: int)
    requires
        0 <= from <= s.len(),
    ensures
        from <= value_end(s, from) <= s.len(),
    decreases s.len() - from,
{
    if from < s.len() && !ends_value(s[from]) {
        lemma_value_end(s, from + 1);
    }
}

/// Extracts the value of an HTML attribute that immediately follows `href=`.
/// Gives `(value, characters consumed)`.
pub fn extract_attr_value(s: &[char]) -> (r: (Vec<char>, usize))
    ensures
        r.0@ == attr_value(s@).0,
        r.1 == attr_value(s@).1,
        r.1 <= s.len(),
{
    if s.len() > 0 && (s[0] == '"' || s[0] == '\'') {
        let mut quote: Vec<char> = Vec::new();
        quote.push(s[0]);
        assert(quote@ =~= seq![s@[0]]);
        return match find_from(s, &quote, 1) {
            Some(end) => {
                assert(end < s.len());
                (slice_of(s, 1, end), end + 1)
            },
            None => {
                assert(s@.skip(1) =~= s@.subrange(1, s.len() as int));
                (slice_of(s, 1, s.len()), s.len())
            },
        };
    }
    let mut end: usize = 0;
    while end < s.len() && !(s[end] == ' ' || s[end] == '\t' || s[end] == '\n' || s[end] == '\r'
        || s[end] as u32 == 0x0c || s[end] == '>' || s[end] == '/')
        invariant
            end <= s.len(),
            value_end(s@, 0) == value_end(s@, end as int),
        decreases s.len() - end,
    {
        end = end + 1;
    }
    (slice_of(s, 0, end), end)
}

/// The index just after the first `href=`, `search` or later.
pub open spec fn next_value(html: Seq<char>, search: int) -> Option<int> {
    match crate::text::first_from(crate::text::ascii_lower(html), "href="@, search) {
        Some(p) => Some(p + 5),
        None => None,
    }
}

/// A value begins after the place where the search began, and lies inside the page.
pub proof fn lemma_next_value(html: Seq<char>, search: int)
    ensures
        next_value(html, search) matches Some(at) ==> search < at <= html.len() && 5 <= at
            && 0 <= attr_value(html.skip(at)).1 <= html.len() - at,
{
    if search >= 0 {
        reveal_strlit("href=");
        crate::text::lemma_first_from(crate::text::ascii_lower(html), "href="@, search);
        if let Some(at) = next_value(html, search) {
            let s = html.skip(at);
            lemma_value_end(s, 0);
            if s.len() > 0 {
                crate::text::lemma_first_from(s, seq![s[0]], 1);
            }
        }
    }
}

/// The item that a link to `href` on the page `base` describes: a directory or a video, but not
/// the page itself, an anchor on it, or a script.
pub open spec fn link_item(href: Seq<char>, base: Seq<char>) -> Option<RemoteItemView> {
    let url = crate::net::resolved(base, href);
    let name = crate::net::display_name_of(url);
    let is_dir = href.len() > 0 && href.last() == '/';
    if crate::text::has_prefix(href, "#"@) || crate::text::has_prefix(href, "javascript:"@)
        || href.len() == 0 || crate::net::is_same_url(base, url) || name.len() == 0 {
        None
    } else if is_dir || crate::net::is_video_ext(crate::net::after_last_dot(name)) {
        Some(RemoteItemView { name, url, is_dir })
    } else {
        None
    }
}

/// The items of the links from index `search` on, in the order of the page.
pub open spec fn links_from(html: Seq<char>, base: Seq<char>, search: int) -> Seq<RemoteItemView>
    decreases html.len() - search,
{
    match next_value(html, search) {
        None => seq![],
        Some(at) => {
            proof {
                lemma_next_value(html, search);
            }
            let value = attr_value(html.skip(at));
            let rest = links_from(html, base, at + value.1);
            match link_item(value.0, base) {
                Some(item) => seq![item] + rest,
                None => rest,
            }
        },
    }
}

/// `a` stands before `b` in a listing: directories first, each group by name, equal names by URL.
pub open spec fn listed_before(a: RemoteItemView, b: RemoteItemView) -> bool {
    let ka = crate::net::listing_key(a);
    let kb = crate::net::listing_key(b);
    crate::text::text_before(ka, kb) || (ka == kb && crate::text::text_before(a.url, b.url))
}

/// `item` is the first of `links` with its URL.
pub open spec fn is_first_with_url(links: Seq<RemoteItemView>, item: RemoteItemView) -> bool {
    exists|j: int|
        0 <= j < links.len() && #[trigger] links[j] == item && forall|k: int|
            0 <= k < j ==> (#[trigger] links[k]).url != item.url
}

/// `out` is the listing made of `links`: for each URL the first link to it, in order.
pub open spec fn is_listing_of(links: Seq<RemoteItemView>, out: Seq<RemoteItemView>) -> bool {
    &&& forall|a: int, b: int| 0 <= a < b < out.len() ==> listed_before(#[trigger] out[a], #[trigger] out[b])
    &&& forall|a: int| 0 <= a < out.len() ==> is_first_with_url(links, #[trigger] out[a])
    &&& forall|j: int| 0 <= j < links.len() ==> has_url(out, (#[trigger] links[j]).url)
}

/// One of `items` has the URL `url`.
pub open spec fn has_url(items: Seq<RemoteItemView>, url: Seq<char>) -> bool {
    exists|a: int| 0 <= a < items.len() && (#[trigger] items[a]).url == url
}

/// `kept` holds, for each URL among `links`, the first link to it and nothing else.
pub open spec fn keeps_first_per_url(
    links: Seq<RemoteItemView>,
    kept: Seq<RemoteItemView>,
) -> bool {
    &&& forall|a: int| 0 <= a < kept.len() ==> is_first_with_url(links, #[trigger] kept[a])
    &&& forall|a: int, b: int|
        0 <= a < b < kept.len() ==> (#[trigger] kept[a]).url != (#[trigger] kept[b]).url
    &&& forall|j: int| 0 <= j < links.len() ==> has_url(kept, (#[trigger] links[j]).url)
}

fn read_link(href: &[char], base: &[char]) -> (r: Option<RemoteItem>)
    ensures
        match r {
            Some(item) => link_item(href@, base@) == Some(item@),
            None => link_item(href@, base@) is None,
        },
{
    if starts_with(href, "#") || starts_with(href, "javascript:") || href.len() == 0 {
        return None;
    }
    let url = resolve_url(base, href);
    if same_url(base, &url) {
        return None;
    }
    let is_dir = href[href.len() - 1] == '/';
    let name = display_name(&url);
    if name.as_str().is_empty() {
        return None;
    }
    if is_dir || has_video_ext(&name) {
        Some(RemoteItem { name, url: string_of(&url), is_dir })
    } else {
        None
    }
}

/// The items of the links of a page, in the order of the page.
fn collect_links(html: &str, base_url: &str) -> (r: Vec<RemoteItem>)
    ensures
        item_views(r@) == links_from(html@, base_url@, 0),
{
    let text = chars_of(html);
    let base = chars_of(base_url);
    let lo = to_ascii_lowercase(&text);
    let pat = chars_of("href=");
    let mut items: Vec<RemoteItem> = Vec::new();
    let mut search: usize = 0;
    let ghost all = links_from(html@, base_url@, 0);
    assert(item_views(items@) + all =~= all);
    loop
        invariant
            text@ == html@,
            base@ == base_url@,
            lo@ == crate::text::ascii_lower(html@),
            pat@ == "href="@,
            search <= text.len(),
            all == links_from(html@, base_url@, 0),
            item_views(items@) + links_from(html@, base_url@, search as int) == all,
        decreases text.len() - search,
    {
        proof {
            reveal_strlit("href=");
            lemma_next_value(html@, search as int);
            assert(item_views(items@) + Seq::<RemoteItemView>::empty() =~= item_views(items@));
        }
        let at = match find_from(&lo, &pat, search) {
            Some(p) => p + 5,
            None => {
                return items;
            },
        };
        let rest = vstd::slice::slice_subrange(text.as_slice(), at, text.len());
        assert(rest@ =~= html@.skip(at as int));
        let (href, taken) = extract_attr_value(rest);
        let ghost before = item_views(items@);
        let ghost after = links_from(html@, base_url@, at + taken);
        if let Some(item) = read_link(&href, &base) {
            let ghost v = item@;
            items.push(item);
            proof {
                assert(before + (seq![v] + after) =~= item_views(items@) + after);
            }
        }
        search = at + taken;
    }
}

/// Whether one of `items` has the URL of `item`.
fn has_url_of(items: &Vec<RemoteItem>, item: &RemoteItem) -> (r: bool)
    ensures
        r == has_url(item_views(items@), item@.url),
{
    let mut a: usize = 0;
    while a < items.len()
        invariant
            a <= items.len(),
            forall|b: int| 0 <= b < a ==> (#[trigger] item_views(items@)[b]).url != item@.url,
        decreases items.len() - a,
    {
        if same_str(&items[a].url, &item.url) {
            assert(item_views(items@)[a as int].url == item@.url);
            return true;
        }
        a = a + 1;
    }
    false
}

/// For each URL the first item with it, in the order of `items`.
fn first_per_url(items: &Vec<RemoteItem>) -> (r: Vec<RemoteItem>)
    ensures
        keeps_first_per_url(item_views(items@), item_views(r@)),
{
    let ghost views = item_views(items@);
    let mut kept: Vec<RemoteItem> = Vec::new();
    let mut i: usize = 0;
    while i < items.len()
        invariant
            i <= items.len(),
            views == item_views(items@),
            keeps_first_per_url(views.take(i as int), item_views(kept@)),
        decreases items.len() - i,
    {
        let ghost seen = views.take(i as int);
        let ghost before = item_views(kept@);
        let ghost v = views[i as int];
        assert(views.take(i + 1) =~= seen.push(v));
        if !has_url_of(&kept, &items[i]) {
            kept.push(items[i].duplicate());
            assert(item_views(kept@) =~= before.push(v));
        }
        proof {
            lemma_keep_one_more(seen, before, v);
        }
        i = i + 1;
    }
    assert(views.take(items.len() as int) =~= views);
    kept
}

proof fn lemma_keep_one_more(seen: Seq<RemoteItemView>, kept: Seq<RemoteItemView>, v: RemoteItemView)
    requires
        keeps_first_per_url(seen, kept),
    ensures
        keeps_first_per_url(
            seen.push(v),
            if has_url(kept, v.url) {
                kept
            } else {
                kept.push(v)
            },
        ),
{
    let more = seen.push(v);
    let out = if has_url(kept, v.url) {
        kept
    } else {
        kept.push(v)
    };
    assert forall|a: int| 0 <= a < out.len() implies is_first_with_url(more, #[trigger] out[a]) by {
        if a < kept.len() {
            let j = choose|j: int|
                0 <= j < seen.len() && #[trigger] seen[j] == kept[a] && forall|k: int|
                    0 <= k < j ==> (#[trigger] seen[k]).url != kept[a].url;
            assert(more[j] == out[a]);
            assert forall|k: int| 0 <= k < j implies (#[trigger] more[k]).url != out[a].url by {
                assert(more[k] == seen[k]);
            }
        } else {
            let j = seen.len() as int;
            assert(more[j] == v);
            assert forall|k: int| 0 <= k < j implies (#[trigger] more[k]).url != v.url by {
                assert(more[k] == seen[k]);
                assert(has_url(kept, seen[k].url));
            }
        }
    }
    assert forall|j: int| 0 <= j < more.len() implies has_url(out, (#[trigger] more[j]).url) by {
        if j < seen.len() {
            assert(more[j] == seen[j]);
            assert(has_url(kept, seen[j].url));
            let a = choose|a: int| 0 <= a < kept.len() && (#[trigger] kept[a]).url == seen[j].url;
            assert(out[a] == kept[a]);
        } else if !has_url(kept, v.url) {
            assert(out[kept.len() as int] == v);
        }
    }
}

/// The links of a page as a listing: for each URL the first link to it, the directories first,
/// each group by name.
pub fn scrape_html_links(html: &str, base_url: &str) -> (r: Vec<RemoteItem>)
    ensures
        is_listing_of(links_from(html@, base_url@, 0), item_views(r@)),
{
    let ghost links = links_from(html@, base_url@, 0);
    let items = collect_links(html, base_url);
    let kept = first_per_url(&items);
    let ghost kv = item_views(kept@);
    let mut urls: Vec<Vec<char>> = Vec::new();
    let mut i: usize = 0;
    while i < kept.len()
        invariant
            i <= kept.len(),
            urls.len() == i,
            forall|k: int| 0 <= k < i ==> (#[trigger] urls[k])@ == kept[k]@.url,
        decreases kept.len() - i,
    {
        urls.push(chars_of(&kept[i].url));
        i = i + 1;
    }
    let p = stable_order(&urls);
    let ghost q = p@.map_values(|i: usize| i as int);
    let ghost uv = crate::order::key_views(urls@);
    assert forall|a: int| 0 <= a < p.len() implies #[trigger] p[a] < kept.len() by {
        assert(0 <= q[a] < uv.len());
    }
    let mut out = pick_items(&kept, &p);
    let ghost mid = item_views(out@);
    sort_items(&mut out);
    proof {
        let ov = item_views(out@);
        let r = choose|r: Seq<int>| #[trigger]
            crate::order::is_stable_order(crate::net::listing_keys(mid), r)
                && ov == crate::order::picked(mid, r);
        lemma_listing(links, kv, uv, q, mid, r, ov);
    }
    out
}

proof fn lemma_listing(
    links: Seq<RemoteItemView>,
    kept: Seq<RemoteItemView>,
    urls: Seq<Seq<char>>,
    q: Seq<int>,
    mid: Seq<RemoteItemView>,
    r: Seq<int>,
    out: Seq<RemoteItemView>,
)
    requires
        keeps_first_per_url(links, kept),
        urls.len() == kept.len(),
        forall|k: int| 0 <= k < kept.len() ==> #[trigger] urls[k] == kept[k].url,
        crate::order::is_stable_order(urls, q),
        mid == crate::order::picked(kept, q),
        crate::order::is_stable_order(crate::net::listing_keys(mid), r),
        out == crate::order::picked(mid, r),
    ensures
        is_listing_of(links, out),
{
    let keys = crate::net::listing_keys(mid);
    assert forall|x: int, y: int| 0 <= x < y < mid.len() implies crate::text::text_before(
        #[trigger] mid[x].url,
        #[trigger] mid[y].url,
    ) by {
        assert(crate::order::goes_before(urls, q[x], q[y]));
        if urls[q[x]] == urls[q[y]] {
            crate::text::law_text_before_irreflexive(urls[q[x]]);
            assert(kept[q[x]].url == kept[q[y]].url);
        }
    }
    assert forall|a: int, b: int| 0 <= a < b < out.len() implies listed_before(
        #[trigger] out[a],
        #[trigger] out[b],
    ) by {
        assert(crate::order::goes_before(keys, r[a], r[b]));
        assert(mid[r[a]] == out[a] && mid[r[b]] == out[b]);
    }
    assert forall|a: int| 0 <= a < out.len() implies is_first_with_url(links, #[trigger] out[a]) by {
        assert(out[a] == kept[q[r[a]]]);
    }
    assert forall|j: int| 0 <= j < links.len() implies has_url(out, (#[trigger] links[j]).url) by {
        assert(has_url(kept, links[j].url));
        let k = choose|k: int| 0 <= k < kept.len() && (#[trigger] kept[k]).url == links[j].url;
        assert(q.contains(k));
        let x = choose|x: int| 0 <= x < q.len() && q[x] == k;
        assert(r.contains(x));
        let a = choose|a: int| 0 <= a < r.len() && r[a] == x;
        assert(out[a] == kept[k]);
    }
}

} // verus!

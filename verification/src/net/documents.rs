//! What the documents that servers answer with say: which parts of them are listed, and which not.

use vstd::prelude::*;

use crate::net::laws::is_prefix_text;
use crate::net::RemoteItemView;

verus! {

/// An index that was found in a text from index `k` on, as an index of the whole text.
pub open spec fn moved(r: Option<int>, k: int) -> Option<int> {
    match r {
        Some(p) => Some(p + k),
        None => None,
    }
}

/// An optional item as a list.
pub open spec fn as_list(item: Option<RemoteItemView>) -> Seq<RemoteItemView> {
    match item {
        Some(item) => seq![item],
        None => seq![],
    }
}

// ── searching in the rest of a text ─────────────────────────────────────────

proof fn lemma_occurs_shift(hay: Seq<char>, pat: Seq<char>, k: int, i: int)
    requires
        0 <= k <= hay.len(),
        0 <= i,
    ensures
        crate::text::occurs_at(hay, pat, k + i) == crate::text::occurs_at(hay.skip(k), pat, i),
{
    if k + i + pat.len() <= hay.len() {
        assert(hay.subrange(k + i, k + i + pat.len()) =~= hay.skip(k).subrange(i, i + pat.len()));
    }
}

proof fn lemma_first_shift(hay: Seq<char>, pat: Seq<char>, k: int, i: int)
    requires
        0 <= k <= hay.len(),
        0 <= i,
    ensures
        crate::text::first_from(hay, pat, k + i) == moved(
            crate::text::first_from(hay.skip(k), pat, i),
            k,
        ),
    decreases hay.len() - k - i,
{
    lemma_occurs_shift(hay, pat, k, i);
    if k + i < hay.len() {
        lemma_first_shift(hay, pat, k, i + 1);
    }
}

proof fn lemma_colon_shift(hay: Seq<char>, k: int, i: int, used: int)
    requires
        0 <= k <= hay.len(),
        0 <= i,
    ensures
        crate::net::propfind::prefix_colon(hay, k + i, used) == moved(
            crate::net::propfind::prefix_colon(hay.skip(k), i, used),
            k,
        ),
    decreases hay.len() - k - i,
{
    if k + i < hay.len() {
        assert(hay[k + i] == hay.skip(k)[i]);
        lemma_colon_shift(hay, k, i + 1, used + crate::net::propfind::utf8_width(hay[k + i]));
    }
}

proof fn lemma_name_end_shift(hay: Seq<char>, name: Seq<char>, k: int, i: int, slash: bool)
    requires
        0 <= k <= hay.len(),
        0 <= i,
    ensures
        crate::net::propfind::name_end(hay, name, k + i, slash) == moved(
            crate::net::propfind::name_end(hay.skip(k), name, i, slash),
            k,
        ),
{
    lemma_whole_name_shift(hay, name, k, i, slash);
    lemma_colon_shift(hay, k, i, 0);
    crate::net::propfind::lemma_prefix_colon(hay.skip(k), i, 0);
    if let Some(c) = crate::net::propfind::prefix_colon(hay.skip(k), i, 0) {
        lemma_whole_name_shift(hay, name, k, c + 1, slash);
    }
}

proof fn lemma_whole_name_shift(hay: Seq<char>, name: Seq<char>, k: int, i: int, slash: bool)
    requires
        0 <= k <= hay.len(),
        0 <= i,
    ensures
        crate::net::propfind::whole_name_at(hay, name, k + i, slash)
            == crate::net::propfind::whole_name_at(hay.skip(k), name, i, slash),
{
    lemma_occurs_shift(hay, name, k, i);
    let e = i + name.len();
    if k + e < hay.len() {
        assert(hay[k + e] == hay.skip(k)[e]);
    }
}

proof fn lemma_first_tag_shift(
    hay: Seq<char>,
    lead: Seq<char>,
    name: Seq<char>,
    k: int,
    i: int,
    slash: bool,
)
    requires
        0 <= k <= hay.len(),
        0 <= i,
    ensures
        crate::net::propfind::first_tag(hay, lead, name, k + i, slash) == moved(
            crate::net::propfind::first_tag(hay.skip(k), lead, name, i, slash),
            k,
        ),
    decreases hay.len() - k - i,
{
    lemma_occurs_shift(hay, lead, k, i);
    lemma_name_end_shift(hay, name, k, i + lead.len(), slash);
    if k + i < hay.len() {
        lemma_first_tag_shift(hay, lead, name, k, i + 1, slash);
    }
}

proof fn lemma_tag_close_shift(hay: Seq<char>, name: Seq<char>, k: int, i: int)
    requires
        0 <= k <= hay.len(),
        0 <= i,
    ensures
        crate::net::propfind::tag_close(hay, name, k + i) == moved(
            crate::net::propfind::tag_close(hay.skip(k), name, i),
            k,
        ),
{
    let rest = hay.skip(k);
    reveal_strlit("</");
    lemma_first_tag_shift(hay, "</"@, name, k, i, false);
    crate::net::propfind::lemma_first_tag(rest, "</"@, name, i, false);
    if let Some(lt) = crate::net::propfind::first_tag(rest, "</"@, name, i, false) {
        lemma_name_end_shift(hay, name, k, lt + 2, false);
        crate::net::propfind::lemma_name_end(rest, name, lt + 2, false);
        lemma_first_shift(
            hay,
            ">"@,
            k,
            crate::net::propfind::name_end(rest, name, lt + 2, false)->0,
        );
    }
}

proof fn lemma_items_shift(xml: Seq<char>, base: Seq<char>, k: int, i: int)
    requires
        0 <= k <= xml.len(),
        0 <= i,
    ensures
        crate::net::propfind::items_from(xml, base, k + i) == crate::net::propfind::items_from(
            xml.skip(k),
            base,
            i,
        ),
    decreases xml.len() - k - i,
{
    let lo = crate::text::ascii_lower(xml);
    let rest = xml.skip(k);
    let name = "response"@;
    assert(lo.skip(k) =~= crate::text::ascii_lower(rest));
    lemma_first_tag_shift(lo, "<"@, name, k, i, true);
    crate::net::propfind::lemma_first_tag(lo.skip(k), "<"@, name, i, true);
    if let Some(open) = crate::net::propfind::tag_open(lo.skip(k), name, i) {
        lemma_tag_close_shift(lo, name, k, open + 1);
        crate::net::propfind::lemma_tag_close(lo.skip(k), name, open + 1);
        if let Some(close) = crate::net::propfind::tag_close(lo.skip(k), name, open + 1) {
            lemma_items_shift(xml, base, k, close);
            assert(xml.subrange(k + open, k + close) =~= rest.subrange(open, close));
        }
    }
}

// ── tags ────────────────────────────────────────────────────────────────────

/// `p` may stand between the beginning of a tag and its name: nothing, or a namespace prefix and a
/// colon.
pub open spec fn may_precede_name(p: Seq<char>) -> bool {
    p.len() == 0 || (p.last() == ':' && is_prefix_text(p.drop_last()))
}

/// `tag` is the opening tag `name`, in whatever case and with whatever namespace prefix.
pub open spec fn is_open_tag(tag: Seq<char>, p: Seq<char>, name: Seq<char>) -> bool {
    may_precede_name(p) && crate::text::ascii_lower(tag) == seq!['<'] + p + name + seq!['>']
}

/// `tag` is the closing tag `name`, in whatever case and with whatever namespace prefix.
pub open spec fn is_close_tag(tag: Seq<char>, p: Seq<char>, name: Seq<char>) -> bool {
    may_precede_name(p) && crate::text::ascii_lower(tag) == seq!['<', '/'] + p + name + seq!['>']
}

/// `name` can be looked for as the name of a tag.
pub open spec fn is_tag_name(name: Seq<char>) -> bool {
    name.len() > 0 && forall|i: int|
        0 <= i < name.len() ==> #[trigger] name[i] != ':' && !crate::net::propfind::ends_prefix(
            name[i],
        )
}

proof fn lemma_name_is_read(hay: Seq<char>, p: Seq<char>, name: Seq<char>, at: int, slash: bool)
    requires
        0 <= at,
        may_precede_name(p),
        is_tag_name(name),
        at + p.len() + name.len() < hay.len(),
        hay.subrange(at, at + p.len() + name.len()) == p + name,
        hay[at + p.len() + name.len()] == '>',
    ensures
        crate::net::propfind::name_end(hay, name, at, slash) == Some(at + p.len() + name.len()),
{
    let all = hay.subrange(at, at + p.len() + name.len());
    let start = at + p.len();
    assert(hay.subrange(start, start + name.len()) =~= name) by {
        assert forall|i: int| 0 <= i < name.len() implies hay[start + i] == name[i] by {
            assert(all[p.len() + i] == (p + name)[p.len() + i]);
        }
    }
    if p.len() > 0 {
        let prefix = p.drop_last();
        let colon = at + prefix.len();
        assert forall|i: int| 0 <= i < p.len() implies hay[at + i] == p[i] by {
            assert(all[i] == (p + name)[i]);
        }
        assert(hay[colon] == ':') by {
            assert(hay[at + prefix.len()] == p[prefix.len() as int]);
        }
        assert(hay.subrange(at, at + prefix.len()) =~= prefix);
        assert(prefix.skip(0) =~= prefix);
        crate::net::laws::lemma_prefix_is_read(hay, prefix, at, 0, 0);
        if crate::net::propfind::whole_name_at(hay, name, at, slash) {
            let here = hay.subrange(at, at + name.len());
            if prefix.len() < name.len() {
                assert(here[prefix.len() as int] == hay[colon]);
                assert(name[prefix.len() as int] == ':');
            } else {
                let e = at + name.len();
                assert(hay[e] == p[name.len() as int]);
                if name.len() < prefix.len() {
                    assert(prefix[name.len() as int] == p[name.len() as int]);
                    crate::text::law_ascii_white_space(' ');
                }
            }
        }
    }
}

proof fn lemma_colon_before(hay: Seq<char>, i: int, used: int, stop: int)
    requires
        0 <= i <= stop < hay.len(),
        hay[stop] == '<',
    ensures
        crate::net::propfind::prefix_colon(hay, i, used) matches Some(c) ==> c < stop,
    decreases hay.len() - i,
{
    if i < stop && hay[i] != ':' && !crate::net::propfind::ends_prefix(hay[i]) && used < 32 {
        lemma_colon_before(hay, i + 1, used + crate::net::propfind::utf8_width(hay[i]), stop);
    }
}

/// A tag lies before the next `<` with its whole name.
proof fn lemma_no_tag_before(
    hay: Seq<char>,
    lead: Seq<char>,
    name: Seq<char>,
    i: int,
    stop: int,
    slash: bool,
)
    requires
        0 <= i < stop < hay.len(),
        hay[stop] == '<',
        is_tag_name(name),
        lead == seq!['<'] || lead == seq!['<', '/'],
        forall|q: int|
            i < q && q + name.len() <= stop ==> !crate::text::occurs_at(hay, name, q),
    ensures
        !crate::net::propfind::tag_at(hay, lead, name, i, slash),
{
    if crate::net::propfind::tag_at(hay, lead, name, i, slash) {
        let at = i + lead.len();
        if lead.len() == 2 {
            assert(hay.subrange(i, i + 2)[1] == '/');
        }
        assert(at <= stop);
        lemma_colon_before(hay, at, 0, stop);
        let a = if crate::net::propfind::whole_name_at(hay, name, at, slash) {
            at
        } else {
            crate::net::propfind::prefix_colon(hay, at, 0)->0 + 1
        };
        crate::net::propfind::lemma_prefix_colon(hay, at, 0);
        assert(crate::text::occurs_at(hay, name, a));
        assert(i < a <= stop);
        if a + name.len() > stop {
            assert(hay.subrange(a, a + name.len())[stop - a] == '<');
            assert(name[stop - a] == '<');
        }
    }
}

proof fn lemma_first_tag_is(
    hay: Seq<char>,
    lead: Seq<char>,
    name: Seq<char>,
    from: int,
    p: int,
    slash: bool,
)
    requires
        0 <= from <= p < hay.len(),
        crate::net::propfind::tag_at(hay, lead, name, p, slash),
        forall|q: int|
            from <= q < p ==> !crate::net::propfind::tag_at(hay, lead, name, q, slash),
    ensures
        crate::net::propfind::first_tag(hay, lead, name, from, slash) == Some(p),
    decreases p - from,
{
    if from < p {
        lemma_first_tag_is(hay, lead, name, from + 1, p, slash);
    }
}

/// A text in which `name` does not stand, whatever surrounds it.
proof fn lemma_name_is_not_in(
    hay: Seq<char>,
    part: Seq<char>,
    name: Seq<char>,
    start: int,
    q: int,
)
    requires
        0 <= start <= q,
        q + name.len() <= start + part.len() <= hay.len(),
        hay.subrange(start, start + part.len()) == part,
        !crate::text::holds_text(part, name),
    ensures
        !crate::text::occurs_at(hay, name, q),
{
    crate::text::lemma_first_from(part, name, 0);
    if crate::text::occurs_at(hay, name, q) {
        assert(part.subrange(q - start, q - start + name.len()) =~= hay.subrange(
            q,
            q + name.len(),
        ));
        assert(crate::text::occurs_at(part, name, q - start));
    }
}

// ── laws of WebDAV answers ──────────────────────────────────────────────────

/// A WebDAV answer is read response by response: what a `response` element describes is listed, in
/// the order of the answer, then what the text behind the element describes. The element may be
/// written in any case and with any namespace prefix.
#[verifier::spinoff_prover]
#[verifier::rlimit(60)]
pub proof fn law_each_response_is_read(
    before: Seq<char>,
    p: Seq<char>,
    open: Seq<char>,
    inner: Seq<char>,
    close: Seq<char>,
    after: Seq<char>,
    base: Seq<char>,
)
    requires
        is_open_tag(open, p, "response"@),
        is_close_tag(close, p, "response"@),
        !crate::text::holds_text(crate::text::ascii_lower(before), "response"@),
        !crate::text::holds_text(crate::text::ascii_lower(inner), "response"@),
    ensures
        crate::net::propfind::items_from(before + open + inner + close + after, base, 0) == as_list(
            crate::net::propfind::block_item(open + inner + close, base),
        ) + crate::net::propfind::items_from(after, base, 0),
{
    let name = "response"@;
    reveal_strlit("response");
    reveal_strlit("<");
    reveal_strlit("</");
    reveal_strlit(">");
    assert(is_tag_name(name));
    assert("<"@ =~= seq!['<']);
    assert("</"@ =~= seq!['<', '/']);
    assert(">"@ =~= seq!['>']);
    let xml = before + open + inner + close + after;
    let lo = crate::text::ascii_lower(xml);
    let lo_before = crate::text::ascii_lower(before);
    let lo_open = crate::text::ascii_lower(open);
    let lo_inner = crate::text::ascii_lower(inner);
    let lo_close = crate::text::ascii_lower(close);
    assert(lo =~= lo_before + lo_open + lo_inner + lo_close + crate::text::ascii_lower(after));
    let a = before.len() as int;
    let b = a + open.len();
    let c = b + inner.len();
    let d = c + close.len();
    assert(lo_open.len() == 1 + p.len() + name.len() + 1);
    assert(lo_close.len() == 2 + p.len() + name.len() + 1);
    assert(open.len() == lo_open.len() && close.len() == lo_close.len());
    assert forall|i: int| 0 <= i < open.len() implies lo[a + i] == lo_open[i] by {}
    assert forall|i: int| 0 <= i < close.len() implies lo[c + i] == lo_close[i] by {}
    // the element begins behind the text before it
    assert(lo.subrange(a, a + 1) =~= seq!['<']);
    assert(lo.subrange(a + 1, a + 1 + p.len() + name.len()) =~= p + name);
    assert(lo[a + 1 + p.len() + name.len()] == '>');
    lemma_name_is_read(lo, p, name, a + 1, true);
    assert(crate::net::propfind::tag_at(lo, seq!['<'], name, a, true));
    assert(lo.subrange(0, a) =~= lo_before);
    assert forall|q: int| 0 <= q < a implies !crate::net::propfind::tag_at(
        lo,
        seq!['<'],
        name,
        q,
        true,
    ) by {
        assert forall|t: int|
            q < t && t + name.len() <= a implies !crate::text::occurs_at(lo, name, t) by {
            lemma_name_is_not_in(lo, lo_before, name, 0, t);
        }
        lemma_no_tag_before(lo, seq!['<'], name, q, a, true);
    }
    lemma_first_tag_is(lo, seq!['<'], name, 0, a, true);
    // it ends with its closing tag
    assert(lo.subrange(c, c + 2) =~= seq!['<', '/']);
    assert(lo.subrange(c + 2, c + 2 + p.len() + name.len()) =~= p + name);
    let e = c + 2 + p.len() + name.len();
    assert(lo[e] == '>');
    lemma_name_is_read(lo, p, name, c + 2, false);
    assert(crate::net::propfind::tag_at(lo, seq!['<', '/'], name, c, false));
    assert(lo.subrange(b, c) =~= lo_inner);
    assert forall|q: int| a + 1 <= q < c implies !crate::net::propfind::tag_at(
        lo,
        seq!['<', '/'],
        name,
        q,
        false,
    ) by {
        if q < b {
            if crate::text::occurs_at(lo, seq!['<', '/'], q) {
                assert(lo.subrange(q, q + 2)[0] == '<');
                assert(lo[q] == lo_open[q - a]);
                lemma_open_tag_has_one_bracket(p, name, q - a);
            }
        } else {
            assert forall|t: int|
                q < t && t + name.len() <= c implies !crate::text::occurs_at(lo, name, t) by {
                lemma_name_is_not_in(lo, lo_inner, name, b, t);
            }
            lemma_no_tag_before(lo, seq!['<', '/'], name, q, c, false);
        }
    }
    lemma_first_tag_is(lo, seq!['<', '/'], name, a + 1, c, false);
    assert(lo.subrange(e, e + 1) =~= seq!['>']);
    crate::text::lemma_first_is(lo, seq!['>'], e, e);
    assert(crate::net::propfind::tag_close(lo, name, a + 1) == Some(d));
    assert(xml.subrange(a, d) =~= open + inner + close);
    lemma_items_shift(xml, base, d, 0);
    assert(xml.skip(d) =~= after);
    assert(as_list(None) + crate::net::propfind::items_from(after, base, 0)
        =~= crate::net::propfind::items_from(after, base, 0));
}

proof fn lemma_open_tag_has_one_bracket(p: Seq<char>, name: Seq<char>, i: int)
    requires
        may_precede_name(p),
        is_tag_name(name),
        0 < i < 1 + p.len() + name.len() + 1,
    ensures
        (seq!['<'] + p + name + seq!['>'])[i] != '<',
        i < 1 + p.len() + name.len() ==> (seq!['<'] + p + name + seq!['>'])[i] != '>',
{
    let tag = seq!['<'] + p + name + seq!['>'];
    if i <= p.len() {
        assert(tag[i] == p[i - 1]);
        if i < p.len() {
            assert(p[i - 1] == p.drop_last()[i - 1]);
        }
    } else if i <= p.len() + name.len() {
        assert(tag[i] == name[i - 1 - p.len()]);
    }
}

/// An answer without a `response` lists nothing.
pub proof fn law_answer_without_responses_lists_nothing(xml: Seq<char>, base: Seq<char>)
    requires
        !crate::text::holds_text(crate::text::ascii_lower(xml), "response"@),
    ensures
        crate::net::propfind::items_from(xml, base, 0).len() == 0,
{
    let lo = crate::text::ascii_lower(xml);
    let name = "response"@;
    crate::text::lemma_first_from(lo, name, 0);
    crate::net::propfind::lemma_first_tag(lo, "<"@, name, 0, true);
    if let Some(open) = crate::net::propfind::tag_open(lo, name, 0) {
        reveal_strlit("<");
        let at = open + 1;
        crate::net::propfind::lemma_prefix_colon(lo, at, 0);
        let a = if crate::net::propfind::whole_name_at(lo, name, at, true) {
            at
        } else {
            crate::net::propfind::prefix_colon(lo, at, 0)->0 + 1
        };
        assert(crate::text::occurs_at(lo, name, a));
    }
}

/// The address of a response is the text of its `href` element, in whatever case and with whatever
/// namespace prefix, without the white space around it. A response with an address is listed under
/// the name that the address ends in, unless it is the listed folder itself or neither a folder nor
/// a video.
pub proof fn law_responses_go_by_their_address(
    before: Seq<char>,
    p: Seq<char>,
    open: Seq<char>,
    href: Seq<char>,
    close: Seq<char>,
    after: Seq<char>,
    base: Seq<char>,
)
    requires
        is_open_tag(open, p, "href"@),
        is_close_tag(close, p, "href"@),
        !crate::text::holds_text(crate::text::ascii_lower(before), "href"@),
        crate::net::laws::is_without(href, '<'),
    ensures
        ({
            let block = before + open + href + close + after;
            let url = crate::net::resolved(base, crate::text::trimmed(href));
            let name = crate::net::display_name_of(url);
            let is_dir = crate::net::propfind::block_is_dir(crate::text::ascii_lower(block));
            let item = crate::net::propfind::block_item(block, base);
            &&& item is Some <==> !crate::net::is_same_url(base, url) && (is_dir
                || crate::net::is_video_ext(crate::net::after_last_dot(name)))
            &&& item is Some ==> item == Some(RemoteItemView { name, url, is_dir })
        }),
{
    let name = "href"@;
    reveal_strlit("href");
    reveal_strlit("<");
    reveal_strlit("</");
    reveal_strlit(">");
    assert(is_tag_name(name));
    assert("<"@ =~= seq!['<']);
    assert("</"@ =~= seq!['<', '/']);
    assert(">"@ =~= seq!['>']);
    let block = before + open + href + close + after;
    let lo = crate::text::ascii_lower(block);
    let lo_before = crate::text::ascii_lower(before);
    let lo_open = crate::text::ascii_lower(open);
    let lo_close = crate::text::ascii_lower(close);
    let lo_href = crate::text::ascii_lower(href);
    assert(lo =~= lo_before + lo_open + lo_href + lo_close + crate::text::ascii_lower(after));
    let a = before.len() as int;
    let b = a + open.len();
    let c = b + href.len();
    assert(lo_open.len() == 1 + p.len() + name.len() + 1);
    assert(lo_close.len() == 2 + p.len() + name.len() + 1);
    assert(open.len() == lo_open.len() && close.len() == lo_close.len());
    assert forall|i: int| 0 <= i < open.len() implies lo[a + i] == lo_open[i] by {}
    assert forall|i: int| 0 <= i < close.len() implies lo[c + i] == lo_close[i] by {}
    assert(lo.subrange(a, a + 1) =~= seq!['<']);
    assert(lo.subrange(a + 1, a + 1 + p.len() + name.len()) =~= p + name);
    assert(lo[a + 1 + p.len() + name.len()] == '>');
    lemma_name_is_read(lo, p, name, a + 1, true);
    assert(crate::net::propfind::tag_at(lo, seq!['<'], name, a, true));
    assert(lo.subrange(0, a) =~= lo_before);
    assert forall|q: int| 0 <= q < a implies !crate::net::propfind::tag_at(
        lo,
        seq!['<'],
        name,
        q,
        true,
    ) by {
        assert forall|t: int|
            q < t && t + name.len() <= a implies !crate::text::occurs_at(lo, name, t) by {
            lemma_name_is_not_in(lo, lo_before, name, 0, t);
        }
        lemma_no_tag_before(lo, seq!['<'], name, q, a, true);
    }
    lemma_first_tag_is(lo, seq!['<'], name, 0, a, true);
    // the opening tag ends before the address
    assert forall|q: int| a <= q < b - 1 implies !crate::text::occurs_at(lo, seq!['>'], q) by {
        if crate::text::occurs_at(lo, seq!['>'], q) {
            assert(lo.subrange(q, q + 1)[0] == '>');
            assert(lo[q] == lo_open[q - a]);
            if q > a {
                lemma_open_tag_has_one_bracket(p, name, q - a);
            }
        }
    }
    assert(lo.subrange(b - 1, b) =~= seq!['>']);
    crate::text::lemma_first_is(lo, seq!['>'], a, b - 1);
    // the closing tag follows it
    assert(lo.subrange(c, c + 2) =~= seq!['<', '/']);
    assert(lo.subrange(c + 2, c + 2 + p.len() + name.len()) =~= p + name);
    assert(lo[c + 2 + p.len() + name.len()] == '>');
    lemma_name_is_read(lo, p, name, c + 2, true);
    assert(crate::net::propfind::tag_at(lo, seq!['<', '/'], name, c, true));
    assert forall|q: int| b <= q < c implies !crate::net::propfind::tag_at(
        lo,
        seq!['<', '/'],
        name,
        q,
        true,
    ) by {
        if crate::text::occurs_at(lo, seq!['<', '/'], q) {
            assert(lo.subrange(q, q + 2)[0] == '<');
            assert(lo[q] == lo_href[q - b]);
            assert(href[q - b] != '<');
        }
    }
    lemma_first_tag_is(lo, seq!['<', '/'], name, b, c, true);
    assert(block.subrange(b, c) =~= href);
    assert(crate::net::propfind::tag_text(block, lo, name) == Some(href));
}

/// A response is a folder where its text names a collection with a namespace prefix or at the
/// beginning of a tag; where the word does not occur it is none.
pub proof fn law_collections_are_folders(before: Seq<char>, after: Seq<char>, other: Seq<char>)
    requires
        !crate::text::holds_text(other, "collection"@),
    ensures
        crate::net::propfind::block_is_dir(before + ":collection"@ + after),
        crate::net::propfind::block_is_dir(before + "<collection"@ + after),
        !crate::net::propfind::block_is_dir(other),
{
    reveal_strlit("collection");
    reveal_strlit(":collection");
    reveal_strlit("<collection");
    crate::text::law_text_occurs_where_it_was_put(before, ":collection"@, after);
    crate::text::law_text_occurs_where_it_was_put(before, "<collection"@, after);
    crate::text::lemma_first_from(other, "collection"@, 0);
    crate::text::lemma_first_from(other, ":collection"@, 0);
    crate::text::lemma_first_from(other, "<collection"@, 0);
    if let Some(q) = crate::text::first_from(other, ":collection"@, 0) {
        assert(other.subrange(q, q + 11).skip(1) =~= other.subrange(q + 1, q + 11));
        assert(":collection"@.skip(1) =~= "collection"@);
        assert(crate::text::occurs_at(other, "collection"@, q + 1));
    }
    if let Some(q) = crate::text::first_from(other, "<collection"@, 0) {
        assert(other.subrange(q, q + 11).skip(1) =~= other.subrange(q + 1, q + 11));
        assert("<collection"@.skip(1) =~= "collection"@);
        assert(crate::text::occurs_at(other, "collection"@, q + 1));
    }
}

// ── laws of HTML pages ──────────────────────────────────────────────────────

proof fn lemma_links_shift(html: Seq<char>, base: Seq<char>, k: int, i: int)
    requires
        0 <= k <= html.len(),
        0 <= i,
    ensures
        crate::net::html::links_from(html, base, k + i) == crate::net::html::links_from(
            html.skip(k),
            base,
            i,
        ),
    decreases html.len() - k - i,
{
    let lo = crate::text::ascii_lower(html);
    let rest = html.skip(k);
    assert(lo.skip(k) =~= crate::text::ascii_lower(rest));
    lemma_first_shift(lo, "href="@, k, i);
    crate::net::html::lemma_next_value(rest, i);
    if let Some(at) = crate::net::html::next_value(rest, i) {
        assert(html.skip(k + at) =~= rest.skip(at));
        let value = crate::net::html::attr_value(rest.skip(at));
        lemma_links_shift(html, base, k, at + value.1);
    }
}

/// The first link of a page begins behind its attribute.
proof fn lemma_link_is_found(before: Seq<char>, attr: Seq<char>, rest: Seq<char>)
    requires
        crate::text::ascii_lower(attr) == "href="@,
        !crate::text::holds_text(crate::text::ascii_lower(before), "href="@),
    ensures
        crate::net::html::next_value(before + attr + rest, 0) == Some(before.len() as int + 5),
{
    reveal_strlit("href=");
    let pat = "href="@;
    let html = before + attr + rest;
    let lo = crate::text::ascii_lower(html);
    let lo_before = crate::text::ascii_lower(before);
    let a = before.len() as int;
    assert(attr.len() == 5) by {
        assert(crate::text::ascii_lower(attr).len() == attr.len());
    }
    assert forall|i: int| 0 <= i < 5 implies lo[a + i] == pat[i] by {
        assert(crate::text::ascii_lower(attr)[i] == pat[i]);
    }
    assert(lo.subrange(a, a + 5) =~= pat);
    assert(lo.subrange(0, a) =~= lo_before);
    assert forall|q: int| 0 <= q < a implies !crate::text::occurs_at(lo, pat, q) by {
        if q + 5 <= a {
            lemma_name_is_not_in(lo, lo_before, pat, 0, q);
        } else if crate::text::occurs_at(lo, pat, q) {
            assert(lo[a + 0] == pat[0]);
            assert(lo.subrange(q, q + 5)[a - q] == lo[a]);
            assert(pat[a - q] == 'h');
        }
    }
    crate::text::lemma_first_is(lo, pat, 0, a);
}

/// A page is read link by link: what a link in quotes leads to is listed, in the order of the
/// page, then what the links behind it lead to. The attribute may be written in any case.
#[verifier::spinoff_prover]
#[verifier::rlimit(60)]
pub proof fn law_each_quoted_link_is_read(
    before: Seq<char>,
    attr: Seq<char>,
    quote: char,
    href: Seq<char>,
    after: Seq<char>,
    base: Seq<char>,
)
    requires
        crate::text::ascii_lower(attr) == "href="@,
        !crate::text::holds_text(crate::text::ascii_lower(before), "href="@),
        quote == '"' || quote == '\'',
        crate::net::laws::is_without(href, quote),
    ensures
        crate::net::html::links_from(
            before + attr + seq![quote] + href + seq![quote] + after,
            base,
            0,
        ) == as_list(crate::net::html::link_item(href, base)) + crate::net::html::links_from(
            after,
            base,
            0,
        ),
{
    let rest = seq![quote] + href + seq![quote] + after;
    let html = before + attr + rest;
    assert(before + attr + seq![quote] + href + seq![quote] + after =~= html);
    lemma_link_is_found(before, attr, rest);
    let at = before.len() as int + 5;
    assert(attr.len() == 5) by {
        reveal_strlit("href=");
        assert(crate::text::ascii_lower(attr).len() == attr.len());
    }
    assert(html.skip(at) =~= rest);
    let end = href.len() as int + 1;
    assert(rest[0] == quote && rest[end] == quote);
    assert(rest.subrange(end, end + 1) =~= seq![quote]);
    assert forall|q: int| 1 <= q < end implies !crate::text::occurs_at(rest, seq![quote], q) by {
        if crate::text::occurs_at(rest, seq![quote], q) {
            assert(rest.subrange(q, q + 1)[0] == quote);
            assert(rest[q] == href[q - 1]);
        }
    }
    crate::text::lemma_first_is(rest, seq![quote], 1, end);
    assert(rest.subrange(1, end) =~= href);
    assert(crate::net::html::attr_value(rest) == (href, end + 1));
    lemma_links_shift(html, base, at + end + 1, 0);
    assert(html.skip(at + end + 1) =~= after);
    assert(as_list(None) + crate::net::html::links_from(after, base, 0)
        =~= crate::net::html::links_from(after, base, 0));
}

/// A link without quotes ends before white space, a slash or the end of its tag.
#[verifier::spinoff_prover]
#[verifier::rlimit(60)]
pub proof fn law_each_bare_link_is_read(
    before: Seq<char>,
    attr: Seq<char>,
    href: Seq<char>,
    after: Seq<char>,
    base: Seq<char>,
)
    requires
        crate::text::ascii_lower(attr) == "href="@,
        !crate::text::holds_text(crate::text::ascii_lower(before), "href="@),
        href.len() > 0,
        href[0] != '"' && href[0] != '\'',
        forall|i: int|
            0 <= i < href.len() ==> #[trigger] href[i] != ' ' && href[i] != '\t' && href[i] != '\n'
                && href[i] != '\r' && href[i] as u32 != 0x0c && href[i] != '>' && href[i] != '/',
        after.len() > 0,
        after[0] == ' ' || after[0] == '\t' || after[0] == '\n' || after[0] == '\r' || after[0]
            as u32 == 0x0c || after[0] == '>' || after[0] == '/',
    ensures
        crate::net::html::links_from(before + attr + href + after, base, 0) == as_list(
            crate::net::html::link_item(href, base),
        ) + crate::net::html::links_from(after, base, 0),
{
    let rest = href + after;
    let html = before + attr + rest;
    assert(before + attr + href + after =~= html);
    lemma_link_is_found(before, attr, rest);
    let at = before.len() as int + 5;
    assert(attr.len() == 5) by {
        reveal_strlit("href=");
        assert(crate::text::ascii_lower(attr).len() == attr.len());
    }
    assert(html.skip(at) =~= rest);
    assert(rest[0] == href[0]);
    lemma_bare_value(href, after, 0);
    assert(rest.take(href.len() as int) =~= href);
    assert(crate::net::html::attr_value(rest) == (href, href.len() as int));
    lemma_links_shift(html, base, at + href.len(), 0);
    assert(html.skip(at + href.len()) =~= after);
    assert(as_list(None) + crate::net::html::links_from(after, base, 0)
        =~= crate::net::html::links_from(after, base, 0));
}

proof fn lemma_bare_value(href: Seq<char>, after: Seq<char>, i: int)
    requires
        0 <= i <= href.len(),
        forall|k: int|
            0 <= k < href.len() ==> !crate::net::html::ends_value(#[trigger] href[k]),
        after.len() > 0,
        crate::net::html::ends_value(after[0]),
    ensures
        crate::net::html::value_end(href + after, i) == href.len(),
    decreases href.len() - i,
{
    let s = href + after;
    if i < href.len() {
        assert(s[i] == href[i]);
        lemma_bare_value(href, after, i + 1);
    } else {
        assert(s[i] == after[0]);
    }
}

/// A page without links lists nothing.
pub proof fn law_page_without_links_lists_nothing(html: Seq<char>, base: Seq<char>)
    requires
        !crate::text::holds_text(crate::text::ascii_lower(html), "href="@),
    ensures
        crate::net::html::links_from(html, base, 0).len() == 0,
{
}

/// A link is listed under the name that its address ends in, as a folder where it ends in a slash
/// and else as a video, unless it is empty, an anchor, a script, the page itself or any other
/// file.
pub proof fn law_links_go_by_their_address(href: Seq<char>, base: Seq<char>)
    ensures
        ({
            let url = crate::net::resolved(base, href);
            let name = crate::net::display_name_of(url);
            let item = crate::net::html::link_item(href, base);
            let is_dir = href.len() > 0 && href.last() == '/';
            let is_left_out = href.len() == 0 || href[0] == '#' || crate::text::has_prefix(
                href,
                "javascript:"@,
            ) || crate::net::is_same_url(base, url) || name.len() == 0;
            &&& item is Some <==> !is_left_out && (is_dir || crate::net::is_video_ext(
                crate::net::after_last_dot(name),
            ))
            &&& item is Some ==> item == Some(RemoteItemView { name, url, is_dir })
        }),
{
    reveal_strlit("#");
    if href.len() > 0 {
        if href[0] == '#' {
            assert(href.subrange(0, 1) =~= "#"@);
        } else if crate::text::has_prefix(href, "#"@) {
            assert(href.subrange(0, 1)[0] == '#');
        }
    }
}

/// The listing of a page has the directories before the videos, and each group goes by name.
pub proof fn law_page_listing_is_sorted(
    links: Seq<RemoteItemView>,
    out: Seq<RemoteItemView>,
    a: int,
    b: int,
)
    requires
        crate::net::html::is_listing_of(links, out),
        0 <= a < b < out.len(),
    ensures
        out[b].is_dir ==> out[a].is_dir,
        out[a].is_dir == out[b].is_dir ==> !crate::text::text_before(out[b].name, out[a].name),
{
    assert(crate::net::html::listed_before(out[a], out[b]));
    crate::net::laws::lemma_key_order(out[a], out[b]);
    crate::text::law_text_before_irreflexive(out[a].name);
    if crate::text::text_before(out[a].name, out[b].name) && crate::text::text_before(
        out[b].name,
        out[a].name,
    ) {
        crate::text::law_text_before_transitive(out[a].name, out[b].name, out[a].name);
    }
}

/// Every link of a page is listed, the first of those with the same URL, and nothing else is.
pub proof fn law_page_listing_is_complete(
    links: Seq<RemoteItemView>,
    out: Seq<RemoteItemView>,
    j: int,
)
    requires
        crate::net::html::is_listing_of(links, out),
        0 <= j < links.len(),
        forall|k: int| 0 <= k < j ==> (#[trigger] links[k]).url != links[j].url,
    ensures
        out.contains(links[j]),
        forall|a: int| 0 <= a < out.len() ==> links.contains(#[trigger] out[a]),
{
    assert(crate::net::html::has_url(out, links[j].url));
    let a = choose|a: int| 0 <= a < out.len() && (#[trigger] out[a]).url == links[j].url;
    assert(crate::net::html::is_first_with_url(links, out[a]));
    let i = choose|i: int|
        0 <= i < links.len() && #[trigger] links[i] == out[a] && forall|k: int|
            0 <= k < i ==> (#[trigger] links[k]).url != out[a].url;
    if i < j {
        assert(links[i].url != links[j].url);
    }
    if j < i {
        assert(links[j].url != out[a].url);
    }
    assert(out[a] == links[j]);
    assert forall|b: int| 0 <= b < out.len() implies links.contains(#[trigger] out[b]) by {
        assert(crate::net::html::is_first_with_url(links, out[b]));
    }
}

/// The listing of a page has no two items with the same URL.
pub proof fn law_page_listing_names_each_url_once(
    links: Seq<RemoteItemView>,
    out: Seq<RemoteItemView>,
    a: int,
    b: int,
)
    requires
        crate::net::html::is_listing_of(links, out),
        0 <= a < b < out.len(),
    ensures
        out[a].url != out[b].url,
{
    assert(crate::net::html::listed_before(out[a], out[b]));
    assert(crate::net::html::is_first_with_url(links, out[a]));
    assert(crate::net::html::is_first_with_url(links, out[b]));
    let i = choose|i: int|
        0 <= i < links.len() && #[trigger] links[i] == out[a] && forall|k: int|
            0 <= k < i ==> (#[trigger] links[k]).url != out[a].url;
    let j = choose|j: int|
        0 <= j < links.len() && #[trigger] links[j] == out[b] && forall|k: int|
            0 <= k < j ==> (#[trigger] links[k]).url != out[b].url;
    if out[a].url == out[b].url {
        assert(links[i].url == links[j].url);
        assert(i == j);
        crate::text::law_text_before_irreflexive(crate::net::listing_key(out[a]));
        crate::text::law_text_before_irreflexive(out[a].url);
    }
}

/// A name is the whole name of a tag where a bracket, a space or nothing follows it, or, where tags
/// may close themselves, a slash; another name never is.
pub proof fn law_where_names_end(
    before: Seq<char>,
    name: Seq<char>,
    rest: Seq<char>,
    other: Seq<char>,
    slash: bool,
)
    requires
        other.len() == name.len(),
        other != name,
    ensures
        crate::net::propfind::whole_name_at(
            before + name + rest,
            name,
            before.len() as int,
            slash,
        ) <==> rest.len() == 0 || rest[0] == '>' || rest[0] == ' ' || (slash && rest[0] == '/'),
        !crate::net::propfind::whole_name_at(
            before + other + rest,
            name,
            before.len() as int,
            slash,
        ),
{
    let s = before + name + rest;
    let t = before + other + rest;
    let a = before.len() as int;
    let b = a + name.len();
    assert(s.subrange(a, b) =~= name);
    assert(t.subrange(a, b) =~= other);
    if rest.len() > 0 {
        assert(s[b] == rest[0]);
    }
}

/// A value whose closing quote is missing goes to the end of the page; a closed one ends before the
/// quote, which belongs to it.
pub proof fn law_quoted_values(quote: char, value: Seq<char>, rest: Seq<char>)
    requires
        quote == '"' || quote == '\'',
        crate::net::laws::is_without(value, quote),
    ensures
        crate::net::html::attr_value(seq![quote] + value) == (value, 1 + value.len() as int),
        crate::net::html::attr_value(seq![quote] + value + seq![quote] + rest) == (
            value,
            2 + value.len() as int,
        ),
{
    let pat = seq![quote];
    let s = seq![quote] + value;
    let t = seq![quote] + value + seq![quote] + rest;
    let end = 1 + value.len() as int;
    assert forall|q: int| 1 <= q < end implies !crate::text::occurs_at(t, pat, q)
        && !crate::text::occurs_at(s, pat, q) by {
        assert(t[q] == value[q - 1] && s[q] == value[q - 1]);
        if crate::text::occurs_at(t, pat, q) {
            assert(t.subrange(q, q + 1)[0] == quote);
        }
        if crate::text::occurs_at(s, pat, q) {
            assert(s.subrange(q, q + 1)[0] == quote);
        }
    }
    assert(t[end] == quote);
    assert(t.subrange(end, end + 1) =~= pat);
    crate::text::lemma_first_is(t, pat, 1, end);
    crate::text::lemma_first_from(s, pat, 1);
    assert(s[0] == quote && t[0] == quote);
    assert(t.subrange(1, end) =~= value);
    assert(s.skip(1) =~= value);
}

/// In the listing of a page, items of the same kind and name go by their URLs.
pub proof fn law_same_names_go_by_url(
    links: Seq<RemoteItemView>,
    out: Seq<RemoteItemView>,
    a: int,
    b: int,
)
    requires
        crate::net::html::is_listing_of(links, out),
        0 <= a < b < out.len(),
        out[a].is_dir == out[b].is_dir,
        out[a].name == out[b].name,
    ensures
        crate::text::text_before(out[a].url, out[b].url),
{
    assert(crate::net::html::listed_before(out[a], out[b]));
    crate::text::law_text_before_irreflexive(crate::net::listing_key(out[a]));
}

} // verus!

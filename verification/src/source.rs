//! What is played: a local file or a URL, and what comes before and after it.

use vstd::prelude::*;

use crate::entry::{sort_by_name, DirItem};
use crate::number::wrapped_sum;
use crate::path::{file_stem, same_path, Platform};
use crate::text::{chars_of, starts_with, string_of};
use crate::ui::browser::{has_video_extension, BrowserEntry, Location};

verus! {

/// Whether a source is a URL and not a local path.
pub fn is_url(s: &str) -> (r: bool)
    ensures
        r == crate::net::is_http(s@),
{
    let t = chars_of(s);
    starts_with(&t, "http://") || starts_with(&t, "https://")
}

/// Short display name for a source: the last segment of a URL, decoded, or the name of a file
/// without its extension.
pub open spec fn name_of(platform: Platform, s: Seq<char>) -> Seq<char> {
    if crate::net::is_http(s) {
        crate::net::display_name_of(s)
    } else {
        match crate::path::file_stem_of(platform, s) {
            Some(stem) => stem,
            None => Seq::empty(),
        }
    }
}

/// Short display name for a source.
pub fn source_display_name(platform: Platform, s: &str) -> (r: String)
    ensures
        r@ == name_of(platform, s@),
{
    if is_url(s) {
        return crate::net::display_name(&chars_of(s));
    }
    match file_stem(platform, s) {
        Some(stem) => string_of(&stem),
        None => {
            let none: Vec<char> = Vec::new();
            string_of(&none)
        },
    }
}

/// The location of a source.
pub open spec fn location_of(s: Seq<char>) -> crate::ui::browser::LocationView {
    if crate::net::is_http(s) {
        crate::ui::browser::LocationView::Remote(s)
    } else {
        crate::ui::browser::LocationView::Local(s)
    }
}

/// The location of a source.
pub fn source_to_location(s: &str) -> (r: Location)
    ensures
        r@ == location_of(s@),
{
    let text = string_of(&chars_of(s));
    if is_url(s) {
        Location::Remote(text)
    } else {
        Location::Local(text)
    }
}

/// The source at a location.
pub fn location_to_source(loc: Location) -> (r: String)
    ensures
        r@ == loc@.text(),
{
    match loc {
        Location::Local(p) => p,
        Location::Remote(u) => u,
    }
}

// ── neighbours ──────────────────────────────────────────────────────────────

/// The entries of a directory that are videos by their extension.
pub open spec fn videos_among(
    platform: Platform,
    items: Seq<crate::entry::DirItemView>,
) -> Seq<crate::entry::DirItemView> {
    items.filter(
        |item: crate::entry::DirItemView|
            crate::ui::browser::is_video_path(platform, item.path),
    )
}

/// The first index at which the parts of a path are those of `path`.
pub open spec fn path_index(
    platform: Platform,
    items: Seq<crate::entry::DirItemView>,
    path: Seq<char>,
    from: int,
) -> Option<int>
    decreases items.len() - from,
{
    if from >= items.len() {
        None
    } else if crate::path::parts_of(platform, items[from].path) == crate::path::parts_of(
        platform,
        path,
    ) {
        Some(from)
    } else {
        path_index(platform, items, path, from + 1)
    }
}

/// The videos among the entries of a directory, by name.
pub open spec fn videos_by_name(
    platform: Platform,
    items: Seq<crate::entry::DirItemView>,
) -> Seq<crate::entry::DirItemView> {
    crate::entry::sorted_by_name(videos_among(platform, items))
}

/// The video `delta` steps behind `current` among the videos of its directory by name, going
/// round at either end.
pub open spec fn neighbour(
    platform: Platform,
    current: Seq<char>,
    items: Seq<crate::entry::DirItemView>,
    delta: int,
) -> Option<Seq<char>> {
    let videos = videos_by_name(platform, items);
    match path_index(platform, videos, current, 0) {
        Some(pos) => Some(videos[(pos + delta) % videos.len() as int].path),
        None => None,
    }
}

/// The path of the video that is `delta` steps away from the current one in the listing of its
/// directory, by name. Only meaningful for local files.
pub fn adjacent_video(platform: Platform, current: &str, items: &Vec<DirItem>, delta: i32) -> (r:
    Option<String>)
    ensures
        crate::video_meta::text_of(r) == neighbour(
            platform,
            current@,
            crate::entry::dir_views(items@),
            delta as int,
        ),
{
    let ghost views = crate::entry::dir_views(items@);
    let mut found: Vec<DirItem> = Vec::new();
    let mut i: usize = 0;
    proof {
        reveal(Seq::filter);
        assert(crate::entry::dir_views(found@) =~= videos_among(platform, views.take(0)));
    }
    while i < items.len()
        invariant
            i <= items@.len(),
            views == crate::entry::dir_views(items@),
            crate::entry::dir_views(found@) == videos_among(platform, views.take(i as int)),
        decreases items@.len() - i,
    {
        proof {
            reveal(Seq::filter);
            assert(views.take(i + 1).drop_last() =~= views.take(i as int));
        }
        if has_video_extension(platform, &items[i].path) {
            let ghost before = found@;
            found.push(items[i].duplicate());
            assert(crate::entry::dir_views(found@) =~= crate::entry::dir_views(before).push(
                views[i as int],
            ));
        }
        i = i + 1;
    }
    assert(views.take(i as int) =~= views);
    let videos = sort_by_name(&found);
    let ghost all = crate::entry::dir_views(videos@);
    let mut pos: usize = 0;
    while pos < videos.len()
        invariant
            pos <= videos@.len(),
            all == crate::entry::dir_views(videos@),
            all == videos_by_name(platform, views),
            views == crate::entry::dir_views(items@),
            path_index(platform, all, current@, 0) == path_index(
                platform,
                all,
                current@,
                pos as int,
            ),
        decreases videos@.len() - pos,
    {
        assert(all[pos as int].path == videos@[pos as int].path@);
        if same_path(platform, &videos[pos].path, current) {
            let at = wrapped_sum(pos as u64, delta as i64, videos.len() as u64) as usize;
            assert(all[at as int].path == videos@[at as int].path@);
            return Some(videos[at].path.clone());
        }
        pos = pos + 1;
    }
    None
}

/// The locations of the videos among rows, in order.
pub open spec fn video_rows(rows: Seq<crate::ui::browser::EntryView>) -> Seq<
    crate::ui::browser::LocationView,
>
    decreases rows.len(),
{
    if rows.len() == 0 {
        Seq::empty()
    } else {
        match rows.last() {
            crate::ui::browser::EntryView::Video(_, loc) => video_rows(rows.drop_last()).push(loc),
            _ => video_rows(rows.drop_last()),
        }
    }
}

/// The first index of a location.
pub open spec fn location_index(
    platform: Platform,
    locations: Seq<crate::ui::browser::LocationView>,
    loc: crate::ui::browser::LocationView,
    from: int,
) -> Option<int>
    decreases locations.len() - from,
{
    if from >= locations.len() {
        None
    } else if locations[from].key(platform) == loc.key(platform) {
        Some(from)
    } else {
        location_index(platform, locations, loc, from + 1)
    }
}

/// The video `delta` steps behind `current` among the rows of a listing, going round at either
/// end.
pub open spec fn neighbour_row(
    platform: Platform,
    current: crate::ui::browser::LocationView,
    rows: Seq<crate::ui::browser::EntryView>,
    delta: int,
) -> Option<crate::ui::browser::LocationView> {
    let videos = video_rows(rows);
    match location_index(platform, videos, current, 0) {
        Some(pos) => Some(videos[(pos + delta) % videos.len() as int]),
        None => None,
    }
}

/// The views of a list of locations.
pub open spec fn location_views(locations: Seq<Location>) -> Seq<
    crate::ui::browser::LocationView,
> {
    locations.map_values(|l: Location| l@)
}

/// The video that is `delta` steps away from the current one among the rows of a listing. Works
/// for remote listings too.
pub fn adjacent_entry(
    platform: Platform,
    current: &Location,
    entries: &Vec<BrowserEntry>,
    delta: i32,
) -> (r: Option<Location>)
    ensures
        crate::ui::browser::location_view(r) == neighbour_row(
            platform,
            current@,
            crate::ui::browser::entry_views(entries@),
            delta as int,
        ),
{
    let ghost rows = crate::ui::browser::entry_views(entries@);
    let mut videos: Vec<Location> = Vec::new();
    let mut i: usize = 0;
    assert(location_views(videos@) =~= video_rows(rows.take(0)));
    while i < entries.len()
        invariant
            i <= entries@.len(),
            rows == crate::ui::browser::entry_views(entries@),
            location_views(videos@) == video_rows(rows.take(i as int)),
        decreases entries@.len() - i,
    {
        assert(rows.take(i + 1).drop_last() =~= rows.take(i as int));
        assert(rows.take(i + 1).last() == entries@[i as int]@);
        if let BrowserEntry::Video(_, loc) = &entries[i] {
            let ghost before = videos@;
            videos.push(loc.duplicate());
            assert(location_views(videos@) =~= location_views(before).push(loc@));
        }
        i = i + 1;
    }
    assert(rows.take(i as int) =~= rows);
    let ghost all = location_views(videos@);
    let mut pos: usize = 0;
    while pos < videos.len()
        invariant
            pos <= videos@.len(),
            all == location_views(videos@),
            all == video_rows(rows),
            rows == crate::ui::browser::entry_views(entries@),
            location_index(platform, all, current@, 0) == location_index(
                platform,
                all,
                current@,
                pos as int,
            ),
        decreases videos@.len() - pos,
    {
        assert(all[pos as int] == videos@[pos as int]@);
        if videos[pos].is_same(platform, current) {
            let at = wrapped_sum(pos as u64, delta as i64, videos.len() as u64) as usize;
            assert(all[at as int] == videos@[at as int]@);
            return Some(videos[at].duplicate());
        }
        pos = pos + 1;
    }
    None
}

// ── laws ────────────────────────────────────────────────────────────────────

/// A source and its location say the same.
pub proof fn law_sources_and_locations_agree(s: Seq<char>)
    ensures
        location_of(s).text() == s,
        location_of(s) is Remote <==> crate::net::is_http(s),
{
}

/// No two of the videos are the same.
pub open spec fn are_distinct(
    platform: Platform,
    videos: Seq<crate::ui::browser::LocationView>,
) -> bool {
    forall|i: int, j: int|
        0 <= i < j < videos.len() ==> (#[trigger] videos[i]).key(platform) != (
        #[trigger] videos[j]).key(platform)
}

/// No two of the entries have the same path.
pub open spec fn paths_differ(platform: Platform, items: Seq<crate::entry::DirItemView>) -> bool {
    forall|i: int, j: int|
        0 <= i < j < items.len() ==> crate::path::parts_of(platform, (#[trigger] items[i]).path)
            != crate::path::parts_of(platform, (#[trigger] items[j]).path)
}

proof fn lemma_location_index(
    platform: Platform,
    locations: Seq<crate::ui::browser::LocationView>,
    loc: crate::ui::browser::LocationView,
    from: int,
)
    requires
        0 <= from,
    ensures
        match location_index(platform, locations, loc, from) {
            Some(p) => from <= p < locations.len() && locations[p].key(platform) == loc.key(
                platform,
            ),
            None => forall|q: int|
                from <= q < locations.len() ==> (#[trigger] locations[q]).key(platform) != loc.key(
                    platform,
                ),
        },
    decreases locations.len() - from,
{
    if from < locations.len() && locations[from].key(platform) != loc.key(platform) {
        lemma_location_index(platform, locations, loc, from + 1);
    }
}

proof fn lemma_path_index(
    platform: Platform,
    items: Seq<crate::entry::DirItemView>,
    path: Seq<char>,
    from: int,
)
    requires
        0 <= from,
    ensures
        match path_index(platform, items, path, from) {
            Some(p) => from <= p < items.len() && crate::path::parts_of(platform, items[p].path)
                == crate::path::parts_of(platform, path),
            None => forall|q: int|
                from <= q < items.len() ==> crate::path::parts_of(
                    platform,
                    (#[trigger] items[q]).path,
                ) != crate::path::parts_of(platform, path),
        },
    decreases items.len() - from,
{
    if from < items.len() && crate::path::parts_of(platform, items[from].path)
        != crate::path::parts_of(platform, path) {
        lemma_path_index(platform, items, path, from + 1);
    }
}

/// A step forth and a step back on a ring.
proof fn lemma_forth_and_back(pos: int, n: int)
    requires
        0 <= pos < n,
    ensures
        0 <= (pos + 1) % n < n,
        ((pos + 1) % n + -1) % n == pos,
{
    if pos + 1 < n {
        vstd::arithmetic::div_mod::lemma_small_mod((pos + 1) as nat, n as nat);
        vstd::arithmetic::div_mod::lemma_small_mod(pos as nat, n as nat);
    } else {
        vstd::arithmetic::div_mod::lemma_fundamental_div_mod_converse_mod(n, n, 1, 0);
        vstd::arithmetic::div_mod::lemma_fundamental_div_mod_converse_mod(-1, n, -1, n - 1);
    }
}

/// Going to the next video of a listing and then to the previous one leads back.
pub proof fn law_next_and_previous_row_lead_back(
    platform: Platform,
    current: crate::ui::browser::LocationView,
    rows: Seq<crate::ui::browser::EntryView>,
)
    requires
        are_distinct(platform, video_rows(rows)),
    ensures
        match neighbour_row(platform, current, rows, 1) {
            Some(next) => match neighbour_row(platform, next, rows, -1) {
                Some(back) => back.key(platform) == current.key(platform),
                None => false,
            },
            None => true,
        },
{
    let videos = video_rows(rows);
    let n = videos.len() as int;
    lemma_location_index(platform, videos, current, 0);
    match location_index(platform, videos, current, 0) {
        Some(pos) => {
            lemma_forth_and_back(pos, n);
            let at = (pos + 1) % n;
            let next = videos[at];
            lemma_location_index(platform, videos, next, 0);
            let found = location_index(platform, videos, next, 0)->0;
            if found < at {
                assert(videos[found].key(platform) != videos[at].key(platform));
            } else if at < found {
                assert(videos[at].key(platform) != videos[found].key(platform));
            }
            assert(found == at);
        },
        None => {},
    }
}

/// Going to the next video of a directory and then to the previous one leads back.
pub proof fn law_next_and_previous_video_lead_back(
    platform: Platform,
    current: Seq<char>,
    items: Seq<crate::entry::DirItemView>,
)
    requires
        paths_differ(platform, videos_by_name(platform, items)),
    ensures
        match neighbour(platform, current, items, 1) {
            Some(next) => match neighbour(platform, next, items, -1) {
                Some(back) => crate::path::parts_of(platform, back) == crate::path::parts_of(
                    platform,
                    current,
                ),
                None => false,
            },
            None => true,
        },
{
    let videos = videos_by_name(platform, items);
    let n = videos.len() as int;
    lemma_path_index(platform, videos, current, 0);
    match path_index(platform, videos, current, 0) {
        Some(pos) => {
            lemma_forth_and_back(pos, n);
            let at = (pos + 1) % n;
            let next = videos[at].path;
            lemma_path_index(platform, videos, next, 0);
            let found = path_index(platform, videos, next, 0)->0;
            if found < at {
                assert(crate::path::parts_of(platform, videos[found].path)
                    != crate::path::parts_of(platform, videos[at].path));
            } else if at < found {
                assert(crate::path::parts_of(platform, videos[at].path)
                    != crate::path::parts_of(platform, videos[found].path));
            }
            assert(found == at);
        },
        None => {},
    }
}

// ── going round ─────────────────────────────────────────────────────────────

/// Whole rounds on a ring lead back, and a step after `k` steps is step `k + 1`.
proof fn lemma_ring(pos: int, n: int, k: int)
    requires
        0 <= pos < n,
    ensures
        (pos + k * n) % n == pos,
        0 <= (pos + k) % n < n,
        ((pos + k) % n + 1) % n == (pos + k + 1) % n,
{
    vstd::arithmetic::div_mod::lemma_fundamental_div_mod_converse_mod(pos + k * n, n, k, pos);
    vstd::arithmetic::div_mod::lemma_add_mod_noop(pos + k, 1, n);
    if n == 1 {
        assert(((pos + k) % n + 1) % n == 0 && (pos + k + 1) % n == 0);
    } else {
        vstd::arithmetic::div_mod::lemma_small_mod(1, n as nat);
    }
}

/// Steps that are less than a round apart do not meet, and every place is met within a round.
proof fn lemma_ring_is_covered(pos: int, n: int)
    requires
        0 <= pos < n,
    ensures
        forall|j: int, k: int|
            0 < j < k <= n ==> #[trigger] ((pos + j) % n) != #[trigger] ((pos + k) % n),
        forall|i: int|
            0 <= i < n ==> 0 < steps_to(pos, i, n) <= n && (pos + #[trigger] steps_to(pos, i, n))
                % n == i,
{
    assert forall|j: int, k: int| 0 < j < k <= n implies #[trigger] ((pos + j) % n)
        != #[trigger] ((pos + k) % n) by {
        let a = (pos + j) % n;
        if a == (pos + k) % n {
            vstd::arithmetic::div_mod::lemma_fundamental_div_mod(pos + j, n);
            vstd::arithmetic::div_mod::lemma_fundamental_div_mod(pos + k, n);
            let q = (pos + k) / n - (pos + j) / n;
            assert(k - j == n * q) by (nonlinear_arith)
                requires
                    pos + j == n * ((pos + j) / n) + a,
                    pos + k == n * ((pos + k) / n) + a,
                    q == (pos + k) / n - (pos + j) / n,
            ;
            assert(false) by (nonlinear_arith)
                requires
                    0 < k - j < n,
                    k - j == n * q,
            ;
        }
    }
    assert forall|i: int| 0 <= i < n implies 0 < steps_to(pos, i, n) <= n && (
    pos + #[trigger] steps_to(pos, i, n)) % n == i by {
        if i > pos {
            vstd::arithmetic::div_mod::lemma_small_mod(i as nat, n as nat);
        } else {
            vstd::arithmetic::div_mod::lemma_fundamental_div_mod_converse_mod(i + n, n, 1, i);
        }
    }
}

/// The steps from the place `pos` of a ring of `n` places to the place `i`, a whole round to `pos`
/// itself.
pub open spec fn steps_to(pos: int, i: int, n: int) -> int {
    if i > pos {
        i - pos
    } else {
        i - pos + n
    }
}

/// Where `k` presses of the next button lead from `current`.
pub open spec fn after_steps(
    platform: Platform,
    current: Seq<char>,
    items: Seq<crate::entry::DirItemView>,
    k: nat,
) -> Option<Seq<char>>
    decreases k,
{
    if k == 0 {
        Some(current)
    } else {
        match after_steps(platform, current, items, (k - 1) as nat) {
            Some(video) => neighbour(platform, video, items, 1),
            None => None,
        }
    }
}

/// Where `k` presses of the next button lead from `current` in a listing.
pub open spec fn row_after_steps(
    platform: Platform,
    current: crate::ui::browser::LocationView,
    rows: Seq<crate::ui::browser::EntryView>,
    k: nat,
) -> Option<crate::ui::browser::LocationView>
    decreases k,
{
    if k == 0 {
        Some(current)
    } else {
        match row_after_steps(platform, current, rows, (k - 1) as nat) {
            Some(video) => neighbour_row(platform, video, rows, 1),
            None => None,
        }
    }
}

/// A path has neighbours exactly if it is one of the videos of the directory.
pub proof fn law_only_videos_have_neighbours(
    platform: Platform,
    current: Seq<char>,
    items: Seq<crate::entry::DirItemView>,
    delta: int,
)
    ensures
        neighbour(platform, current, items, delta) is Some <==> exists|i: int|
            0 <= i < videos_by_name(platform, items).len() && crate::path::parts_of(
                platform,
                (#[trigger] videos_by_name(platform, items)[i]).path,
            ) == crate::path::parts_of(platform, current),
{
    lemma_path_index(platform, videos_by_name(platform, items), current, 0);
}

/// Whole rounds through the videos of a directory, forth or back, lead to the same video.
pub proof fn law_whole_rounds_lead_back(
    platform: Platform,
    current: Seq<char>,
    items: Seq<crate::entry::DirItemView>,
    k: int,
)
    ensures
        neighbour(platform, current, items, k * videos_by_name(platform, items).len()) matches Some(
            video,
        ) ==> crate::path::parts_of(platform, video) == crate::path::parts_of(platform, current),
{
    let videos = videos_by_name(platform, items);
    lemma_path_index(platform, videos, current, 0);
    if let Some(pos) = path_index(platform, videos, current, 0) {
        lemma_ring(pos, videos.len() as int, k);
    }
}

/// Whole rounds through the videos of a listing, forth or back, lead to the same video.
pub proof fn law_whole_rounds_of_rows_lead_back(
    platform: Platform,
    current: crate::ui::browser::LocationView,
    rows: Seq<crate::ui::browser::EntryView>,
    k: int,
)
    ensures
        neighbour_row(platform, current, rows, k * video_rows(rows).len()) matches Some(video)
            ==> video.key(platform) == current.key(platform),
{
    let videos = video_rows(rows);
    lemma_location_index(platform, videos, current, 0);
    if let Some(pos) = location_index(platform, videos, current, 0) {
        lemma_ring(pos, videos.len() as int, k);
    }
}

proof fn lemma_after_steps(
    platform: Platform,
    current: Seq<char>,
    items: Seq<crate::entry::DirItemView>,
    pos: int,
    k: nat,
)
    requires
        paths_differ(platform, videos_by_name(platform, items)),
        path_index(platform, videos_by_name(platform, items), current, 0) == Some(pos),
        k > 0,
    ensures
        0 <= pos < videos_by_name(platform, items).len(),
        after_steps(platform, current, items, k) == Some(
            videos_by_name(platform, items)[(pos + k) % videos_by_name(
                platform,
                items,
            ).len() as int].path,
        ),
    decreases k,
{
    let videos = videos_by_name(platform, items);
    let n = videos.len() as int;
    lemma_path_index(platform, videos, current, 0);
    reveal_with_fuel(after_steps, 2);
    if k > 1 {
        lemma_after_steps(platform, current, items, pos, (k - 1) as nat);
        lemma_ring(pos, n, k - 1);
        let at = (pos + (k - 1)) % n;
        lemma_path_index(platform, videos, videos[at].path, 0);
        let found = path_index(platform, videos, videos[at].path, 0)->0;
        if found < at {
            assert(crate::path::parts_of(platform, videos[found].path) != crate::path::parts_of(
                platform,
                videos[at].path,
            ));
        } else if at < found {
            assert(crate::path::parts_of(platform, videos[at].path) != crate::path::parts_of(
                platform,
                videos[found].path,
            ));
        }
        assert(found == at);
    }
}

/// The next button goes through the videos of a directory by name, from the last one to the
/// first: after as many presses as there are videos every one of them has been visited once.
pub proof fn law_next_visits_every_video_once(
    platform: Platform,
    current: Seq<char>,
    items: Seq<crate::entry::DirItemView>,
    pos: int,
)
    requires
        paths_differ(platform, videos_by_name(platform, items)),
        path_index(platform, videos_by_name(platform, items), current, 0) == Some(pos),
    ensures
        ({
            let videos = videos_by_name(platform, items);
            let n = videos.len() as int;
            &&& 0 <= pos < n
            &&& forall|k: nat|
                0 < k ==> #[trigger] after_steps(platform, current, items, k) == Some(
                    videos[(pos + k) % n].path,
                )
            &&& forall|i: int|
                0 <= i < n ==> 0 < steps_to(pos, i, n) <= n && after_steps(
                    platform,
                    current,
                    items,
                    steps_to(pos, i, n) as nat,
                ) == Some((#[trigger] videos[i]).path)
            &&& forall|j: nat, k: nat|
                0 < j < k <= n ==> #[trigger] after_steps(platform, current, items, j)
                    != #[trigger] after_steps(platform, current, items, k)
        }),
{
    let videos = videos_by_name(platform, items);
    let n = videos.len() as int;
    lemma_after_steps(platform, current, items, pos, 1);
    assert forall|k: nat| 0 < k implies #[trigger] after_steps(platform, current, items, k) == Some(
        videos[(pos + k) % n].path,
    ) by {
        lemma_after_steps(platform, current, items, pos, k);
    }
    lemma_ring_is_covered(pos, n);
    assert forall|j: nat, k: nat| 0 < j < k <= n implies #[trigger] after_steps(
        platform,
        current,
        items,
        j,
    ) != #[trigger] after_steps(platform, current, items, k) by {
        let a = (pos + j) % n;
        let b = (pos + k) % n;
        lemma_ring(pos, n, j as int);
        lemma_ring(pos, n, k as int);
        assert(a != b);
        if a < b {
            assert(crate::path::parts_of(platform, videos[a].path) != crate::path::parts_of(
                platform,
                videos[b].path,
            ));
        } else {
            assert(crate::path::parts_of(platform, videos[b].path) != crate::path::parts_of(
                platform,
                videos[a].path,
            ));
        }
    }
}

proof fn lemma_row_after_steps(
    platform: Platform,
    current: crate::ui::browser::LocationView,
    rows: Seq<crate::ui::browser::EntryView>,
    pos: int,
    k: nat,
)
    requires
        are_distinct(platform, video_rows(rows)),
        location_index(platform, video_rows(rows), current, 0) == Some(pos),
        k > 0,
    ensures
        0 <= pos < video_rows(rows).len(),
        row_after_steps(platform, current, rows, k) == Some(
            video_rows(rows)[(pos + k) % video_rows(rows).len() as int],
        ),
    decreases k,
{
    let videos = video_rows(rows);
    let n = videos.len() as int;
    lemma_location_index(platform, videos, current, 0);
    reveal_with_fuel(row_after_steps, 2);
    if k > 1 {
        lemma_row_after_steps(platform, current, rows, pos, (k - 1) as nat);
        lemma_ring(pos, n, k - 1);
        let at = (pos + (k - 1)) % n;
        lemma_location_index(platform, videos, videos[at], 0);
        let found = location_index(platform, videos, videos[at], 0)->0;
        if found < at {
            assert(videos[found].key(platform) != videos[at].key(platform));
        } else if at < found {
            assert(videos[at].key(platform) != videos[found].key(platform));
        }
        assert(found == at);
    }
}

/// The next button goes through the videos of a listing in its order, from the last one to the
/// first: after as many presses as there are videos every one of them has been visited once.
pub proof fn law_next_visits_every_row_once(
    platform: Platform,
    current: crate::ui::browser::LocationView,
    rows: Seq<crate::ui::browser::EntryView>,
    pos: int,
)
    requires
        are_distinct(platform, video_rows(rows)),
        location_index(platform, video_rows(rows), current, 0) == Some(pos),
    ensures
        ({
            let videos = video_rows(rows);
            let n = videos.len() as int;
            &&& 0 <= pos < n
            &&& forall|k: nat|
                0 < k ==> #[trigger] row_after_steps(platform, current, rows, k) == Some(
                    videos[(pos + k) % n],
                )
            &&& forall|i: int|
                0 <= i < n ==> 0 < steps_to(pos, i, n) <= n && row_after_steps(
                    platform,
                    current,
                    rows,
                    steps_to(pos, i, n) as nat,
                ) == Some(#[trigger] videos[i])
            &&& forall|j: nat, k: nat|
                0 < j < k <= n ==> #[trigger] row_after_steps(platform, current, rows, j)
                    != #[trigger] row_after_steps(platform, current, rows, k)
        }),
{
    let videos = video_rows(rows);
    let n = videos.len() as int;
    lemma_row_after_steps(platform, current, rows, pos, 1);
    assert forall|k: nat| 0 < k implies #[trigger] row_after_steps(platform, current, rows, k)
        == Some(videos[(pos + k) % n]) by {
        lemma_row_after_steps(platform, current, rows, pos, k);
    }
    lemma_ring_is_covered(pos, n);
    assert forall|j: nat, k: nat| 0 < j < k <= n implies #[trigger] row_after_steps(
        platform,
        current,
        rows,
        j,
    ) != #[trigger] row_after_steps(platform, current, rows, k) by {
        let a = (pos + j) % n;
        let b = (pos + k) % n;
        lemma_ring(pos, n, j as int);
        lemma_ring(pos, n, k as int);
        assert(a != b);
        if a < b {
            assert(videos[a].key(platform) != videos[b].key(platform));
        } else {
            assert(videos[b].key(platform) != videos[a].key(platform));
        }
    }
}

// ── directions ──────────────────────────────────────────────────────────────

/// One step on leads to the video that follows by name, and from the last one to the first; one
/// step back leads to the one before, and from the first one to the last.
pub proof fn law_steps_go_by_name(
    platform: Platform,
    items: Seq<crate::entry::DirItemView>,
    i: int,
)
    requires
        paths_differ(platform, videos_by_name(platform, items)),
        0 <= i < videos_by_name(platform, items).len(),
    ensures
        ({
            let videos = videos_by_name(platform, items);
            let n = videos.len();
            let next = if i + 1 < n {
                i + 1
            } else {
                0
            };
            &&& neighbour(platform, videos[i].path, items, 1) == Some(videos[next].path)
            &&& neighbour(platform, videos[next].path, items, -1) == Some(videos[i].path)
            &&& i + 1 < n ==> !crate::text::text_before(videos[i + 1].name, videos[i].name)
        }),
{
    let videos = videos_by_name(platform, items);
    let n = videos.len() as int;
    let next = if i + 1 < n {
        i + 1
    } else {
        0
    };
    lemma_path_index_is(platform, videos, i);
    lemma_path_index_is(platform, videos, next);
    lemma_one_step(i, n);
    if i + 1 < n {
        let among = videos_among(platform, items);
        crate::entry::law_sorting_keeps_the_entries(among, among[0]);
        crate::entry::law_sorted_names_do_not_fall(among, i, i + 1);
    }
}

proof fn lemma_one_step(i: int, n: int)
    requires
        0 <= i < n,
    ensures
        i + 1 < n ==> (i + 1) % n == i + 1 && (i + 1 + -1) % n == i,
        i + 1 == n ==> (i + 1) % n == 0 && (0 + -1) % n == i,
{
    if i + 1 < n {
        vstd::arithmetic::div_mod::lemma_small_mod((i + 1) as nat, n as nat);
        vstd::arithmetic::div_mod::lemma_small_mod(i as nat, n as nat);
    } else {
        vstd::arithmetic::div_mod::lemma_fundamental_div_mod_converse_mod(n, n, 1, 0);
        vstd::arithmetic::div_mod::lemma_fundamental_div_mod_converse_mod(-1, n, -1, n - 1);
    }
}

proof fn lemma_path_index_is(
    platform: Platform,
    videos: Seq<crate::entry::DirItemView>,
    i: int,
)
    requires
        paths_differ(platform, videos),
        0 <= i < videos.len(),
    ensures
        path_index(platform, videos, videos[i].path, 0) == Some(i),
{
    lemma_path_index(platform, videos, videos[i].path, 0);
    if let Some(p) = path_index(platform, videos, videos[i].path, 0) {
        if p < i {
            assert(crate::path::parts_of(platform, videos[p].path) != crate::path::parts_of(
                platform,
                videos[i].path,
            ));
        } else if i < p {
            assert(crate::path::parts_of(platform, videos[i].path) != crate::path::parts_of(
                platform,
                videos[p].path,
            ));
        }
    }
}

/// One step on leads to the next video of a listing, and from the last one to the first; one step
/// back leads to the one before, and from the first one to the last.
pub proof fn law_steps_go_by_the_listing(
    platform: Platform,
    rows: Seq<crate::ui::browser::EntryView>,
    i: int,
)
    requires
        are_distinct(platform, video_rows(rows)),
        0 <= i < video_rows(rows).len(),
    ensures
        ({
            let videos = video_rows(rows);
            let n = videos.len();
            let next = if i + 1 < n {
                i + 1
            } else {
                0
            };
            &&& neighbour_row(platform, videos[i], rows, 1) == Some(videos[next])
            &&& neighbour_row(platform, videos[next], rows, -1) == Some(videos[i])
        }),
{
    let videos = video_rows(rows);
    let n = videos.len() as int;
    let next = if i + 1 < n {
        i + 1
    } else {
        0
    };
    lemma_location_index_is(platform, videos, i);
    lemma_location_index_is(platform, videos, next);
    lemma_one_step(i, n);
}

proof fn lemma_location_index_is(
    platform: Platform,
    videos: Seq<crate::ui::browser::LocationView>,
    i: int,
)
    requires
        are_distinct(platform, videos),
        0 <= i < videos.len(),
    ensures
        location_index(platform, videos, videos[i], 0) == Some(i),
{
    lemma_location_index(platform, videos, videos[i], 0);
    if let Some(p) = location_index(platform, videos, videos[i], 0) {
        if p < i {
            assert(videos[p].key(platform) != videos[i].key(platform));
        } else if i < p {
            assert(videos[i].key(platform) != videos[p].key(platform));
        }
    }
}

/// The videos of a listing are its video rows, in order.
pub proof fn law_video_rows(
    rows: Seq<crate::ui::browser::EntryView>,
    name: Seq<char>,
    loc: crate::ui::browser::LocationView,
)
    ensures
        video_rows(rows.push(crate::ui::browser::EntryView::Video(name, loc))) == video_rows(
            rows,
        ).push(loc),
        video_rows(rows.push(crate::ui::browser::EntryView::Dir(name, loc))) == video_rows(rows),
        video_rows(rows.push(crate::ui::browser::EntryView::Parent)) == video_rows(rows),
        video_rows(seq![]).len() == 0,
{
    assert(rows.push(crate::ui::browser::EntryView::Video(name, loc)).drop_last() =~= rows);
    assert(rows.push(crate::ui::browser::EntryView::Dir(name, loc)).drop_last() =~= rows);
    assert(rows.push(crate::ui::browser::EntryView::Parent).drop_last() =~= rows);
}

/// The neighbours of a video are the entries of its directory with the extension of a video, and
/// no others.
pub proof fn law_neighbours_are_videos(
    platform: Platform,
    items: Seq<crate::entry::DirItemView>,
    item: crate::entry::DirItemView,
)
    ensures
        videos_by_name(platform, items).contains(item) <==> items.contains(item)
            && crate::ui::browser::is_video_path(platform, item.path),
{
    crate::entry::law_sorting_keeps_the_entries(videos_among(platform, items), item);
    crate::ui::browser::lemma_filter_contains(
        items,
        |item: crate::entry::DirItemView| crate::ui::browser::is_video_path(platform, item.path),
        item,
    );
}

/// A local video is shown by its file name without the extension, a remote one by the last segment
/// of its address.
pub proof fn law_names_of_sources(platform: Platform, s: Seq<char>)
    ensures
        crate::net::is_http(s) ==> name_of(platform, s) == crate::net::display_name_of(s),
        !crate::net::is_http(s) && crate::path::file_stem_of(platform, s) is Some ==> Some(
            name_of(platform, s),
        ) == crate::path::file_stem_of(platform, s),
        !crate::net::is_http(s) && crate::path::file_stem_of(platform, s) is None ==> name_of(
            platform,
            s,
        ).len() == 0,
{
}

} // verus!

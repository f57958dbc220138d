//! Linux mount points (also those of other Unix systems).

use vstd::prelude::*;

use crate::entry::DirItem;
use crate::text::{chars_of, slice_of, starts_with, string_of};
use crate::volumes::{collect_dir, Volume};

verus! {

/// An entry of `/media` with its own entries.
pub struct MediaItem {
    pub item: DirItem,
    pub children: Vec<DirItem>,
}

/// An entry of `/media` with its own entries.
#[verifier::ext_equal]
pub struct MediaItemView {
    pub item: crate::entry::DirItemView,
    pub children: Seq<crate::entry::DirItemView>,
}

impl View for MediaItem {
    type V = MediaItemView;

    open spec fn view(&self) -> MediaItemView {
        MediaItemView { item: self.item@, children: crate::entry::dir_views(self.children@) }
    }
}

/// The views of the entries of `/media`.
pub open spec fn media_views(media: Seq<MediaItem>) -> Seq<MediaItemView> {
    media.map_values(|m: MediaItem| m@)
}

/// `m` is an entry of `/media` with its own entries.
pub open spec fn is_media_entry(m: MediaItemView) -> bool {
    &&& crate::volumes::is_entry_of(m.item, "/media/"@)
    &&& crate::volumes::are_entries_of(m.children, m.item.path.push('/'))
}

/// `media` are entries of `/media`, each with its own entries.
pub open spec fn are_media_entries(media: Seq<MediaItemView>) -> bool {
    forall|i: int| 0 <= i < media.len() ==> is_media_entry(#[trigger] media[i])
}

/// Some entry is a directory.
pub open spec fn has_dir(items: Seq<crate::entry::DirItemView>) -> bool {
    exists|i: int| 0 <= i < items.len() && (#[trigger] items[i]).is_dir
}

/// The volumes of one entry of `/media`: a directory with directories in it belongs to a user,
/// and those are the volumes; any other directory is a volume itself.
pub open spec fn media_volumes(m: MediaItemView) -> Seq<crate::volumes::VolumeView> {
    if !m.item.is_dir {
        Seq::empty()
    } else if has_dir(m.children) {
        crate::volumes::volumes_in(m.children)
    } else {
        seq![crate::volumes::VolumeView { root: m.item.path, label: m.item.name }]
    }
}

/// The volumes of the first `n` entries of `/media`.
pub open spec fn all_media_volumes(media: Seq<MediaItemView>, n: int) -> Seq<
    crate::volumes::VolumeView,
>
    decreases n,
{
    if n <= 0 {
        Seq::empty()
    } else {
        all_media_volumes(media, n - 1) + media_volumes(media[n - 1])
    }
}

/// The filesystem root, then what is mounted under `/mnt`, then what is mounted under `/media`.
pub open spec fn mounts(
    mnt: Seq<crate::entry::DirItemView>,
    media: Seq<MediaItemView>,
) -> Seq<crate::volumes::VolumeView> {
    seq![crate::volumes::VolumeView { root: "/"@, label: "/"@ }] + crate::volumes::volumes_in(mnt)
        + all_media_volumes(media, media.len() as int)
}

fn any_dir(items: &Vec<DirItem>) -> (r: bool)
    ensures
        r == has_dir(crate::entry::dir_views(items@)),
{
    let ghost views = crate::entry::dir_views(items@);
    let mut i: usize = 0;
    while i < items.len()
        invariant
            i <= items@.len(),
            views == crate::entry::dir_views(items@),
            forall|j: int| 0 <= j < i ==> !(#[trigger] views[j]).is_dir,
        decreases items@.len() - i,
    {
        if items[i].is_dir {
            assert(views[i as int].is_dir);
            return true;
        }
        i = i + 1;
    }
    false
}

/// The filesystem root, then what is mounted under `/mnt`, then what is mounted under `/media`.
pub fn list_volumes(mnt: &Vec<DirItem>, media: &Vec<MediaItem>) -> (r: Vec<Volume>)
    ensures
        crate::volumes::volume_views(r@) == mounts(
            crate::entry::dir_views(mnt@),
            media_views(media@),
        ),
{
    let mut out: Vec<Volume> = Vec::new();
    out.push(Volume { root: string_of(&chars_of("/")), label: string_of(&chars_of("/")) });
    let ghost root = seq![crate::volumes::VolumeView { root: "/"@, label: "/"@ }];
    assert(crate::volumes::volume_views(out@) =~= root);
    collect_dir(mnt, &mut out);
    let ghost first = root + crate::volumes::volumes_in(crate::entry::dir_views(mnt@));
    let ghost views = media_views(media@);
    let mut i: usize = 0;
    assert(first =~= first + all_media_volumes(views, 0));
    while i < media.len()
        invariant
            i <= media@.len(),
            views == media_views(media@),
            crate::volumes::volume_views(out@) == first + all_media_volumes(views, i as int),
        decreases media@.len() - i,
    {
        let m = &media[i];
        let ghost before = crate::volumes::volume_views(out@);
        if m.item.is_dir {
            if any_dir(&m.children) {
                collect_dir(&m.children, &mut out);
            } else {
                let ghost held = out@;
                out.push(Volume { root: m.item.path.clone(), label: m.item.name.clone() });
                assert(crate::volumes::volume_views(out@) =~= before + media_volumes(
                    views[i as int],
                ));
            }
        }
        assert(crate::volumes::volume_views(out@) =~= before + media_volumes(views[i as int]));
        assert(before + media_volumes(views[i as int]) =~= first + all_media_volumes(
            views,
            i + 1,
        ));
        i = i + 1;
    }
    out
}

/// Where the name that starts at `at` ends: at the next slash or the end.
pub open spec fn slash_from(s: Seq<char>, at: int) -> int
    decreases s.len() - at,
{
    if at >= s.len() || s[at] == '/' {
        at
    } else {
        slash_from(s, at + 1)
    }
}

/// The mount point that a path names: `/mnt/<name>`, `/media/<user>/<name>` or `/media/<name>`;
/// the filesystem root where it names none.
pub open spec fn mount_of(path: Seq<char>) -> Seq<char> {
    if crate::text::has_prefix(path, "/mnt/"@) && slash_from(path, 5) > 5 {
        path.take(slash_from(path, 5))
    } else if crate::text::has_prefix(path, "/media/"@) && slash_from(path, 7) > 7 {
        let first = slash_from(path, 7);
        if first < path.len() && slash_from(path, first + 1) > first + 1 {
            path.take(slash_from(path, first + 1))
        } else {
            path.take(first)
        }
    } else {
        "/"@
    }
}

fn find_slash(s: &[char], at: usize) -> (r: usize)
    requires
        at <= s@.len(),
    ensures
        r == slash_from(s@, at as int),
        at <= r <= s@.len(),
        r < s@.len() ==> s@[r as int] == '/',
{
    let mut i: usize = at;
    while i < s.len() && s[i] != '/'
        invariant
            at <= i <= s@.len(),
            slash_from(s@, at as int) == slash_from(s@, i as int),
        decreases s@.len() - i,
    {
        i = i + 1;
    }
    i
}

/// The mount point that a path names, or the filesystem root.
pub fn volume_root_of(path: &str) -> (r: String)
    ensures
        r@ == mount_of(path@),
{
    proof {
        reveal_strlit("/mnt/");
        reveal_strlit("/media/");
    }
    let s = chars_of(path);
    let mut end: usize = 0;
    if starts_with(&s, "/mnt/") {
        let first = find_slash(&s, 5);
        if first > 5 {
            end = first;
        }
    }
    if end == 0 && starts_with(&s, "/media/") {
        let first = find_slash(&s, 7);
        if first > 7 {
            end = first;
            if first < s.len() {
                let second = find_slash(&s, first + 1);
                if second > first + 1 {
                    end = second;
                }
            }
        }
    }
    if end > 0 {
        let root = slice_of(&s, 0, end);
        assert(root@ =~= s@.take(end as int));
        string_of(&root)
    } else {
        string_of(&chars_of("/"))
    }
}

proof fn lemma_slash_from(s: Seq<char>, n: int, at: int)
    requires
        0 <= at <= n <= s.len(),
    ensures
        at <= slash_from(s, at) <= s.len(),
        slash_from(s, at) < s.len() ==> s[slash_from(s, at)] == '/',
        slash_from(s.take(n), at) == if slash_from(s, at) < n {
            slash_from(s, at)
        } else {
            n
        },
    decreases s.len() - at,
{
    if at < n {
        assert(s.take(n)[at] == s[at]);
        if s[at] != '/' {
            lemma_slash_from(s, n, at + 1);
        }
    } else if at < s.len() && s[at] != '/' {
        lemma_slash_from(s, n + 1, at + 1);
    }
}

/// A mount point other than the filesystem root is the path itself or leads to it.
pub proof fn law_mount_holds_the_path(path: Seq<char>)
    ensures
        mount_of(path) == "/"@ || (crate::text::has_prefix(path, mount_of(path)) && (mount_of(
            path,
        ).len() == path.len() || path[mount_of(path).len() as int] == '/')),
{
    reveal_strlit("/mnt/");
    reveal_strlit("/media/");
    if crate::text::has_prefix(path, "/mnt/"@) {
        lemma_slash_from(path, path.len() as int, 5);
    }
    if crate::text::has_prefix(path, "/media/"@) {
        lemma_slash_from(path, path.len() as int, 7);
        let first = slash_from(path, 7);
        if first < path.len() {
            lemma_slash_from(path, path.len() as int, first + 1);
        }
    }
    let root = mount_of(path);
    if root != "/"@ {
        assert(path.subrange(0, root.len() as int) =~= root);
    }
}

/// The mount point of a mount point is that mount point.
pub proof fn law_mount_of_a_mount(path: Seq<char>)
    ensures
        mount_of(mount_of(path)) == mount_of(path),
{
    reveal_strlit("/");
    reveal_strlit("/mnt/");
    reveal_strlit("/media/");
    let root = mount_of(path);
    if crate::text::has_prefix(path, "/mnt/"@) && slash_from(path, 5) > 5 {
        lemma_slash_from(path, path.len() as int, 5);
        lemma_slash_from(path, slash_from(path, 5), 5);
        assert(root.subrange(0, 5) =~= path.subrange(0, 5));
    } else if crate::text::has_prefix(path, "/media/"@) && slash_from(path, 7) > 7 {
        lemma_slash_from(path, path.len() as int, 7);
        let first = slash_from(path, 7);
        assert("/media/"@.subrange(0, 5)[2] == 'e');
        assert("/mnt/"@[2] == 'n');
        assert(path.subrange(0, 7)[2] == path[2]);
        if first < path.len() && slash_from(path, first + 1) > first + 1 {
            lemma_slash_from(path, path.len() as int, first + 1);
            let second = slash_from(path, first + 1);
            lemma_slash_from(path, second, 7);
            lemma_slash_from(path, second, first + 1);
        } else {
            lemma_slash_from(path, first, 7);
        }
        assert(root.subrange(0, 7) =~= path.subrange(0, 7));
        assert(root.subrange(0, 5)[2] == 'e');
        assert(root.take(root.len() as int) =~= root);
    } else {
        assert(root.len() == 1);
    }
    assert(root.take(root.len() as int) =~= root);
}

/// A name without a slash that ends the text ends where the text ends.
proof fn lemma_name_to_the_end(s: Seq<char>, at: int)
    requires
        0 <= at <= s.len(),
        forall|i: int| at <= i < s.len() ==> #[trigger] s[i] != '/',
    ensures
        slash_from(s, at) == s.len(),
    decreases s.len() - at,
{
    if at < s.len() {
        lemma_name_to_the_end(s, at + 1);
    }
}

/// A name between two slashes ends at the second one.
proof fn lemma_name_to_a_slash(s: Seq<char>, at: int, end: int)
    requires
        0 <= at <= end < s.len(),
        forall|i: int| at <= i < end ==> #[trigger] s[i] != '/',
        s[end] == '/',
    ensures
        slash_from(s, at) == end,
    decreases end - at,
{
    if at < end {
        lemma_name_to_a_slash(s, at + 1, end);
    }
}

proof fn lemma_entry_is_a_mount(item: crate::entry::DirItemView, dir: Seq<char>)
    requires
        dir == "/mnt/"@ || dir == "/media/"@,
        crate::volumes::is_entry_of(item, dir),
    ensures
        mount_of(item.path) == item.path,
{
    reveal_strlit("/mnt/");
    reveal_strlit("/media/");
    let path = item.path;
    let at = dir.len() as int;
    assert(path.subrange(0, at) =~= dir);
    assert forall|i: int| at <= i < path.len() implies #[trigger] path[i] != '/' by {
        assert(path[i] == item.name[i - at]);
        assert(item.name.contains(item.name[i - at]));
    }
    lemma_name_to_the_end(path, at);
    assert(path.take(path.len() as int) =~= path);
    if dir == "/media/"@ {
        assert(path[2] == dir[2] && dir[2] == 'e');
        assert(path.subrange(0, 5)[2] == path[2]);
    }
}

proof fn lemma_child_is_a_mount(m: MediaItemView, child: crate::entry::DirItemView)
    requires
        is_media_entry(m),
        crate::volumes::is_entry_of(child, m.item.path.push('/')),
    ensures
        mount_of(child.path) == child.path,
{
    reveal_strlit("/mnt/");
    reveal_strlit("/media/");
    let path = child.path;
    let user = m.item.name;
    let first = 7 + user.len() as int;
    assert(path.subrange(0, 7) =~= "/media/"@);
    assert(path[2] == "/media/"@[2]);
    assert(path.subrange(0, path.len() as int) =~= path);
    if path.len() >= 5 {
        assert(path.subrange(0, 5)[2] == path[2]);
    }
    assert(path[first] == '/');
    assert forall|i: int| 7 <= i < first implies #[trigger] path[i] != '/' by {
        assert(path[i] == user[i - 7]);
        assert(user.contains(user[i - 7]));
    }
    assert forall|i: int| first < i < path.len() implies #[trigger] path[i] != '/' by {
        assert(path[i] == child.name[i - first - 1]);
        assert(child.name.contains(child.name[i - first - 1]));
    }
    lemma_name_to_a_slash(path, 7, first);
    lemma_name_to_the_end(path, first + 1);
    assert(path.take(path.len() as int) =~= path);
}

proof fn lemma_media_volumes_are_mounts(media: Seq<MediaItemView>, n: int, i: int)
    requires
        are_media_entries(media),
        n <= media.len(),
        0 <= i < all_media_volumes(media, n).len(),
    ensures
        mount_of(all_media_volumes(media, n)[i].root) == all_media_volumes(media, n)[i].root,
    decreases n,
{
    if n > 0 {
        let before = all_media_volumes(media, n - 1);
        let m = media[n - 1];
        assert(is_media_entry(m));
        if i < before.len() {
            lemma_media_volumes_are_mounts(media, n - 1, i);
        } else if has_dir(m.children) {
            let k = crate::volumes::lemma_volume_is_an_entry(m.children, i - before.len());
            lemma_child_is_a_mount(m, m.children[k]);
        } else {
            lemma_entry_is_a_mount(m.item, "/media/"@);
        }
    }
}

/// Each volume that is listed is a mount point.
pub proof fn lemma_volumes_are_mounts(
    mnt: Seq<crate::entry::DirItemView>,
    media: Seq<MediaItemView>,
    i: int,
)
    requires
        crate::volumes::are_entries_of(mnt, "/mnt/"@),
        are_media_entries(media),
        0 <= i < mounts(mnt, media).len(),
    ensures
        mount_of(mounts(mnt, media)[i].root) == mounts(mnt, media)[i].root,
{
    let under_mnt = crate::volumes::volumes_in(mnt);
    if i == 0 {
        reveal_strlit("/");
        reveal_strlit("/mnt/");
        reveal_strlit("/media/");
    } else if i <= under_mnt.len() {
        let k = crate::volumes::lemma_volume_is_an_entry(mnt, i - 1);
        assert(mounts(mnt, media)[i] == under_mnt[i - 1]);
        lemma_entry_is_a_mount(mnt[k], "/mnt/"@);
    } else {
        let all = all_media_volumes(media, media.len() as int);
        assert(mounts(mnt, media)[i] == all[i - 1 - under_mnt.len()]);
        lemma_media_volumes_are_mounts(media, media.len() as int, i - 1 - under_mnt.len());
    }
}

// ── where paths are mounted ─────────────────────────────────────────────────

proof fn lemma_slash_is_found(s: Seq<char>, at: int, end: int)
    requires
        0 <= at <= end <= s.len(),
        end == s.len() || s[end] == '/',
        forall|i: int| at <= i < end ==> #[trigger] s[i] != '/',
    ensures
        slash_from(s, at) == end,
    decreases end - at,
{
    if at < end {
        lemma_slash_is_found(s, at + 1, end);
    }
}

/// What lies under `/mnt/<name>` is mounted there.
pub proof fn law_paths_under_mnt(name: Seq<char>, rest: Seq<char>)
    requires
        name.len() > 0,
        !name.contains('/'),
        rest.len() == 0 || rest[0] == '/',
    ensures
        mount_of("/mnt/"@ + name + rest) == "/mnt/"@ + name,
{
    reveal_strlit("/mnt/");
    let path = "/mnt/"@ + name + rest;
    let end = 5 + name.len() as int;
    assert(path.subrange(0, 5) =~= "/mnt/"@);
    assert forall|i: int| 5 <= i < end implies #[trigger] path[i] != '/' by {
        assert(path[i] == name[i - 5]);
        assert(name.contains(name[i - 5]));
    }
    if rest.len() > 0 {
        assert(path[end] == rest[0]);
    }
    lemma_slash_is_found(path, 5, end);
    assert(path.take(end) =~= "/mnt/"@ + name);
}

/// What lies under `/media/<user>/<name>` is mounted there, and `/media/<user>` by itself is a
/// mount point too.
pub proof fn law_paths_under_media(user: Seq<char>, name: Seq<char>, rest: Seq<char>)
    requires
        user.len() > 0,
        !user.contains('/'),
        name.len() > 0,
        !name.contains('/'),
        rest.len() == 0 || rest[0] == '/',
    ensures
        mount_of("/media/"@ + user + seq!['/'] + name + rest) == "/media/"@ + user + seq!['/']
            + name,
        mount_of("/media/"@ + user) == "/media/"@ + user,
        mount_of("/media/"@ + user + seq!['/']) == "/media/"@ + user,
{
    reveal_strlit("/mnt/");
    reveal_strlit("/media/");
    let path = "/media/"@ + user + seq!['/'] + name + rest;
    let first = 7 + user.len() as int;
    let end = first + 1 + name.len();
    assert(path.take(first) =~= "/media/"@ + user);
    lemma_media_path(path, user, first);
    assert(path[first] == '/');
    assert forall|i: int| first + 1 <= i < end implies #[trigger] path[i] != '/' by {
        assert(path[i] == name[i - first - 1]);
        assert(name.contains(name[i - first - 1]));
    }
    if rest.len() > 0 {
        assert(path[end] == rest[0]);
    }
    lemma_slash_is_found(path, first + 1, end);
    assert(path.take(end) =~= "/media/"@ + user + seq!['/'] + name);
    let alone = "/media/"@ + user;
    assert(alone.take(first) =~= alone);
    lemma_media_path(alone, user, first);
    let open = "/media/"@ + user + seq!['/'];
    assert(open.take(first) =~= alone);
    lemma_media_path(open, user, first);
    lemma_slash_is_found(open, first + 1, first + 1);
}

proof fn lemma_media_path(path: Seq<char>, user: Seq<char>, first: int)
    requires
        first == 7 + user.len(),
        first <= path.len(),
        path.take(first) == "/media/"@ + user,
        first == path.len() || path[first] == '/',
        !user.contains('/'),
    ensures
        crate::text::has_prefix(path, "/media/"@),
        !crate::text::has_prefix(path, "/mnt/"@),
        slash_from(path, 7) == first,
{
    reveal_strlit("/mnt/");
    reveal_strlit("/media/");
    let front = path.take(first);
    assert(path.subrange(0, 7) =~= "/media/"@) by {
        assert forall|i: int| 0 <= i < 7 implies path[i] == "/media/"@[i] by {
            assert(front[i] == ("/media/"@ + user)[i]);
        }
    }
    if crate::text::has_prefix(path, "/mnt/"@) {
        assert(path.subrange(0, 5)[2] == 'n');
        assert(path.subrange(0, 7)[2] == 'e');
    }
    assert forall|i: int| 7 <= i < first implies #[trigger] path[i] != '/' by {
        assert(front[i] == ("/media/"@ + user)[i]);
        assert(user.contains(user[i - 7]));
    }
    lemma_slash_is_found(path, 7, first);
}

/// What is neither under `/mnt` nor under `/media` is on the filesystem root.
pub proof fn law_other_paths_are_on_the_root(path: Seq<char>)
    requires
        !crate::text::has_prefix(path, seq!['/', 'm', 'n', 't', '/']),
        !crate::text::has_prefix(path, seq!['/', 'm', 'e', 'd', 'i', 'a', '/']),
    ensures
        mount_of(path) == "/"@,
{
    reveal_strlit("/mnt/");
    reveal_strlit("/media/");
    assert("/mnt/"@ =~= seq!['/', 'm', 'n', 't', '/']);
    assert("/media/"@ =~= seq!['/', 'm', 'e', 'd', 'i', 'a', '/']);
}

/// What is mounted under `/mnt` is listed behind the filesystem root, and what is mounted under
/// `/media` behind that, entry by entry.
pub proof fn law_order_of_mounts(
    mnt: Seq<crate::entry::DirItemView>,
    media: Seq<MediaItemView>,
    last: MediaItemView,
)
    ensures
        mounts(mnt, seq![]) == seq![crate::volumes::VolumeView { root: "/"@, label: "/"@ }]
            + crate::volumes::volumes_in(mnt),
        mounts(mnt, media.push(last)) == mounts(mnt, media) + media_volumes(last),
{
    assert(mounts(mnt, seq![]) =~= seq![
        crate::volumes::VolumeView { root: "/"@, label: "/"@ },
    ] + crate::volumes::volumes_in(mnt));
    lemma_fewer_media(media.push(last), media, media.len() as int);
    assert(mounts(mnt, media.push(last)) =~= mounts(mnt, media) + media_volumes(last));
}

proof fn lemma_fewer_media(a: Seq<MediaItemView>, b: Seq<MediaItemView>, n: int)
    requires
        n <= a.len(),
        n <= b.len(),
        forall|i: int| 0 <= i < n ==> #[trigger] a[i] == b[i],
    ensures
        all_media_volumes(a, n) == all_media_volumes(b, n),
    decreases n,
{
    if n > 0 {
        lemma_fewer_media(a, b, n - 1);
        assert(a[n - 1] == b[n - 1]);
    }
}

/// A directory of `/media` without directories in it is a volume; one with directories stands for
/// those; anything else is none.
pub proof fn law_users_and_volumes_in_media(m: MediaItemView)
    ensures
        !m.item.is_dir ==> media_volumes(m).len() == 0,
        m.item.is_dir && (exists|i: int| 0 <= i < m.children.len() && (#[trigger] m.children[i]).is_dir)
            ==> media_volumes(m) == crate::volumes::volumes_in(m.children),
        m.item.is_dir && (forall|i: int|
            0 <= i < m.children.len() ==> !(#[trigger] m.children[i]).is_dir) ==> media_volumes(m)
            == seq![crate::volumes::VolumeView { root: m.item.path, label: m.item.name }],
{
}

} // verus!

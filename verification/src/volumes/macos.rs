//! macOS mount points.

use vstd::prelude::*;

use crate::entry::DirItem;
use crate::path::{pieces_of, Platform};
use crate::text::{chars_of, eq_ignore_ascii_case, joined, string_of};
use crate::volumes::{collect_dir, Volume};

verus! {

/// The directories among the entries of `/Volumes`, or the filesystem root if there are none.
pub open spec fn volumes_or_root(items: Seq<crate::entry::DirItemView>) -> Seq<
    crate::volumes::VolumeView,
> {
    if crate::volumes::volumes_in(items).len() == 0 {
        seq![crate::volumes::VolumeView { root: "/"@, label: "/"@ }]
    } else {
        crate::volumes::volumes_in(items)
    }
}

/// The volumes mounted under `/Volumes`.
pub fn list_volumes(items: &Vec<DirItem>) -> (r: Vec<Volume>)
    ensures
        crate::volumes::volume_views(r@) == volumes_or_root(crate::entry::dir_views(items@)),
{
    let mut out: Vec<Volume> = Vec::new();
    let ghost none = crate::volumes::volume_views(out@);
    collect_dir(items, &mut out);
    assert(none + crate::volumes::volumes_in(crate::entry::dir_views(items@))
        =~= crate::volumes::volumes_in(crate::entry::dir_views(items@)));
    if out.len() == 0 {
        out.push(Volume { root: string_of(&chars_of("/")), label: string_of(&chars_of("/")) });
        assert(crate::volumes::volume_views(out@) =~= volumes_or_root(
            crate::entry::dir_views(items@),
        ));
    }
    out
}

/// The path names a volume under `/Volumes`.
pub open spec fn names_volume(path: Seq<char>) -> bool {
    let parts = crate::path::parts_of(Platform::MacOs, path);
    &&& parts.has_root
    &&& parts.pieces.len() >= 2
    &&& crate::text::ascii_lower(parts.pieces[0]) == crate::text::ascii_lower("Volumes"@)
    &&& parts.pieces[1] != seq!['.', '.']
}

/// The mount point under `/Volumes` that a path names, or the filesystem root.
pub open spec fn mount_of(path: Seq<char>) -> Seq<char> {
    if names_volume(path) {
        "/Volumes/"@ + crate::path::parts_of(Platform::MacOs, path).pieces[1]
    } else {
        "/"@
    }
}

/// The mount point under `/Volumes` that a path names, or the filesystem root.
pub fn volume_root_of(path: &str) -> (r: String)
    ensures
        r@ == mount_of(path@),
{
    let pieces = pieces_of(Platform::MacOs, path);
    let s = chars_of(path);
    let has_root = s.len() > 0 && s[0] == '/';
    assert(crate::path::piece_views(pieces@) == crate::path::parts_of(
        Platform::MacOs,
        path@,
    ).pieces);
    if has_root && pieces.len() >= 2 && eq_ignore_ascii_case(&pieces[0], "Volumes") {
        let name = &pieces[1];
        let is_up = name.len() == 2 && name[0] == '.' && name[1] == '.';
        assert(is_up <==> name@ =~= seq!['.', '.']);
        if !is_up {
            return string_of(&joined(&chars_of("/Volumes/"), name));
        }
    }
    string_of(&chars_of("/"))
}

/// `/Volumes` joined with a file name is a mount point.
proof fn lemma_named_mount(name: Seq<char>)
    requires
        crate::volumes::is_file_name(name),
    ensures
        mount_of("/Volumes/"@ + name) == "/Volumes/"@ + name,
{
    reveal_strlit("Volumes");
    reveal_strlit("/Volumes/");
    let pf = Platform::MacOs;
    let root = "/Volumes/"@ + name;
    let len = root.len() as int;
    assert(root[0] == '/' && root[8] == '/');
    assert(root.subrange(9, len) =~= name);
    assert(root.subrange(1, 8) =~= "Volumes"@);
    assert forall|i: int| 9 <= i < len implies !crate::path::separates(
        pf,
        false,
        #[trigger] root[i],
    ) by {
        assert(root[i] == name[i - 9]);
        assert(name.contains(name[i - 9]));
    }
    crate::path::laws::lemma_piece_start_behind(pf, false, root, 1, 9, len);
    crate::path::laws::lemma_piece_start_behind(pf, false, root, 1, 9, 9);
    crate::path::laws::lemma_piece_start_behind(pf, false, root, 1, 1, 8);
    if len == 10 {
        assert(name =~= seq![root[9]]);
    }
    assert(crate::path::last_piece(pf, false, root, 1, len) == Some((9int, len)));
    assert(crate::path::last_piece(pf, false, root, 1, 8) == Some((1int, 8int)));
    assert(crate::path::last_piece(pf, false, root, 1, 9) == Some((1int, 8int)));
    assert(crate::path::pieces(pf, false, root, 1, 1) =~= Seq::empty());
    assert(crate::path::pieces(pf, false, root, 1, 9) =~= seq!["Volumes"@]);
    assert(crate::path::pieces(pf, false, root, 1, len) =~= seq!["Volumes"@, name]);
    assert(crate::path::parts_of(pf, root).pieces =~= seq!["Volumes"@, name]);
}

proof fn lemma_root_is_a_mount()
    ensures
        mount_of("/"@) == "/"@,
{
    reveal_strlit("/");
    assert(crate::path::parts_of(Platform::MacOs, "/"@).pieces =~= Seq::empty());
}

/// The mount point of a mount point is that mount point.
pub proof fn law_mount_of_a_mount(path: Seq<char>)
    ensures
        mount_of(mount_of(path)) == mount_of(path),
{
    if names_volume(path) {
        let name = crate::path::parts_of(Platform::MacOs, path).pieces[1];
        crate::path::laws::law_pieces_are_plain(Platform::MacOs, path, 1);
        assert(!name.contains('/')) by {
            if name.contains('/') {
                let i = choose|i: int| 0 <= i < name.len() && name[i] == '/';
                assert(!crate::path::separates(Platform::MacOs, false, name[i]));
            }
        }
        lemma_named_mount(name);
    } else {
        lemma_root_is_a_mount();
    }
}

/// Each volume that is listed is a mount point.
pub proof fn lemma_volumes_are_mounts(items: Seq<crate::entry::DirItemView>, i: int)
    requires
        crate::volumes::are_entries_of(items, "/Volumes/"@),
        0 <= i < volumes_or_root(items).len(),
    ensures
        mount_of(volumes_or_root(items)[i].root) == volumes_or_root(items)[i].root,
{
    if crate::volumes::volumes_in(items).len() == 0 {
        lemma_root_is_a_mount();
    } else {
        let k = crate::volumes::lemma_volume_is_an_entry(items, i);
        assert(crate::volumes::is_entry_of(items[k], "/Volumes/"@));
        lemma_named_mount(items[k].name);
    }
}

/// What lies deeper on a volume is on the same volume as its parent.
pub proof fn law_parent_is_on_the_same_volume(path: Seq<char>)
    requires
        crate::path::parts_of(Platform::MacOs, path).pieces.len() > 2,
    ensures
        crate::path::parent_of(Platform::MacOs, path) matches Some(p) && mount_of(p) == mount_of(
            path,
        ),
{
    crate::path::laws::law_parent_drops_the_last_piece(Platform::MacOs, path);
    let pieces = crate::path::parts_of(Platform::MacOs, path).pieces;
    assert(pieces.drop_last()[0] == pieces[0]);
    assert(pieces.drop_last()[1] == pieces[1]);
}

/// A directory of `/Volumes` is a volume, and so is the filesystem root.
pub proof fn law_directories_of_volumes_are_volumes(name: Seq<char>)
    requires
        crate::volumes::is_file_name(name),
    ensures
        mount_of("/Volumes/"@ + name) == "/Volumes/"@ + name,
        mount_of("/"@) == "/"@,
{
    lemma_named_mount(name);
    lemma_root_is_a_mount();
}

/// A path that is not under `/Volumes` is on the filesystem root.
pub proof fn law_other_paths_are_on_the_root(path: Seq<char>)
    requires
        ({
            let parts = crate::path::parts_of(Platform::MacOs, path);
            !parts.has_root || parts.pieces.len() < 2 || crate::text::ascii_lower(parts.pieces[0])
                != seq!['v', 'o', 'l', 'u', 'm', 'e', 's']
        }),
    ensures
        mount_of(path) == "/"@,
{
    reveal_strlit("Volumes");
    assert(crate::text::ascii_lower("Volumes"@) =~= seq!['v', 'o', 'l', 'u', 'm', 'e', 's']);
}

/// The filesystem root is listed exactly where nothing is mounted.
pub proof fn law_root_is_listed_without_volumes(items: Seq<crate::entry::DirItemView>)
    ensures
        crate::volumes::volumes_in(items).len() == 0 ==> volumes_or_root(items) == seq![
            crate::volumes::VolumeView { root: "/"@, label: "/"@ },
        ],
        crate::volumes::volumes_in(items).len() > 0 ==> volumes_or_root(items)
            == crate::volumes::volumes_in(items),
{
}

} // verus!

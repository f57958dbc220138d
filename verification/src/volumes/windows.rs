//! Windows drives.

use vstd::prelude::*;

use crate::path::{find_prefix, Platform, Prefix};
use crate::text::{chars_of, string_of};
use crate::volumes::Volume;

verus! {

/// The letter of a drive, counted from `A`.
pub open spec fn drive_letter(i: int) -> char {
    ((0x41 + i) as u32) as char
}

/// The volume of a drive.
pub open spec fn drive(i: int) -> crate::volumes::VolumeView {
    crate::volumes::VolumeView {
        root: seq![drive_letter(i), ':', '\\'],
        label: seq![drive_letter(i), ':'],
    }
}

/// The drives among the first `n` that are present.
pub open spec fn drives(present: Seq<bool>, n: int) -> Seq<crate::volumes::VolumeView>
    decreases n,
{
    if n <= 0 {
        Seq::empty()
    } else if present[n - 1] {
        drives(present, n - 1).push(drive(n - 1))
    } else {
        drives(present, n - 1)
    }
}

fn letter(i: usize) -> (r: char)
    requires
        i < 26,
    ensures
        r == drive_letter(i as int),
{
    (0x41 + i as u8) as char
}

/// The root path of a drive, counted from `A`: the path to probe for it.
pub fn drive_root(i: usize) -> (r: String)
    requires
        i < 26,
    ensures
        r@ == drive(i as int).root,
{
    let text: Vec<char> = vec![letter(i), ':', '\\'];
    let r = string_of(&text);
    assert(r@ =~= drive(i as int).root);
    r
}

/// The drives that are present, by letter.
pub fn list_volumes(present: &Vec<bool>) -> (r: Vec<Volume>)
    requires
        present@.len() == 26,
    ensures
        crate::volumes::volume_views(r@) == drives(present@, 26),
{
    let mut out: Vec<Volume> = Vec::new();
    let mut i: usize = 0;
    assert(crate::volumes::volume_views(out@) =~= drives(present@, 0));
    while i < 26
        invariant
            i <= 26,
            present@.len() == 26,
            crate::volumes::volume_views(out@) == drives(present@, i as int),
        decreases 26 - i,
    {
        if present[i] {
            let text: Vec<char> = vec![letter(i), ':'];
            let label = string_of(&text);
            assert(label@ =~= drive(i as int).label);
            let ghost before = out@;
            out.push(Volume { root: drive_root(i), label });
            assert(crate::volumes::volume_views(out@) =~= crate::volumes::volume_views(
                before,
            ).push(drive(i as int)));
        }
        i = i + 1;
    }
    out
}

/// The root of the drive that a path names; drive C where it names none.
pub open spec fn drive_root_of(path: Seq<char>) -> Seq<char> {
    match crate::path::windows_prefix(path) {
        Some(crate::path::PrefixView::Disk(c)) => seq![c, ':', '\\'],
        Some(crate::path::PrefixView::VerbatimDisk(c)) => seq![c, ':', '\\'],
        _ => seq!['C', ':', '\\'],
    }
}

/// The root of the drive that a path names; drive C where it names none.
pub fn volume_root_of(path: &str) -> (r: String)
    ensures
        r@ == drive_root_of(path@),
{
    let s = chars_of(path);
    let prefix = find_prefix(Platform::Windows, &s);
    let c: char = match prefix {
        Some(Prefix::Disk(c)) => c,
        Some(Prefix::VerbatimDisk(c)) => c,
        _ => 'C',
    };
    let text: Vec<char> = vec![c, ':', '\\'];
    let r = string_of(&text);
    assert(r@ =~= drive_root_of(path@));
    r
}

/// The root of a drive root is that root.
pub proof fn law_root_of_a_root(path: Seq<char>)
    ensures
        drive_root_of(drive_root_of(path)) == drive_root_of(path),
{
    let root = drive_root_of(path);
    assert(crate::path::is_letter(root[0]));
    assert(crate::path::ascii_upper_char(root[0]) == root[0]);
    assert(crate::path::drive_at(root, 0));
}

/// Each drive that is listed is the root of itself.
pub proof fn lemma_drives_are_roots(present: Seq<bool>, n: int, i: int)
    requires
        n <= 26,
        0 <= i < drives(present, n).len(),
    ensures
        drive_root_of(drives(present, n)[i].root) == drives(present, n)[i].root,
    decreases n,
{
    if n > 0 {
        if i < drives(present, n - 1).len() {
            lemma_drives_are_roots(present, n - 1, i);
        } else {
            let root = drive(n - 1).root;
            assert(drives(present, n)[i] == drive(n - 1));
            assert(crate::path::is_letter(root[0]));
            assert(crate::path::ascii_upper_char(root[0]) == root[0]);
            assert(crate::path::drive_at(root, 0));
        }
    }
}

/// A path and its parent are on the same drive.
pub proof fn law_parent_is_on_the_same_drive(path: Seq<char>)
    ensures
        crate::path::parent_of(Platform::Windows, path) matches Some(p) ==> drive_root_of(p)
            == drive_root_of(path),
{
    let pieces = crate::path::parts_of(Platform::Windows, path).pieces;
    if pieces.len() > 0 {
        crate::path::laws::law_parent_drops_the_last_piece(Platform::Windows, path);
    } else {
        crate::path::laws::law_no_parent_without_pieces(Platform::Windows, path);
    }
}

/// The drives that are listed are those that are present, by letter: drive `i` is the letter `i`
/// places behind A.
pub proof fn law_present_drives_are_listed(present: Seq<bool>, n: int, i: int)
    requires
        0 <= i < n <= 26,
        n <= present.len(),
    ensures
        drives(present, n).contains(drive(i)) <==> present[i],
        drive(i).root == seq![drive_letter(i), ':', '\\'],
        drive(i).label == seq![drive_letter(i), ':'],
        drive_letter(i) as int == 'A' as int + i,
    decreases n,
{
    let all = drives(present, n);
    let fewer = drives(present, n - 1);
    if n - 1 == i {
        if present[i] {
            assert(all[fewer.len() as int] == drive(i));
        } else {
            lemma_later_drives_are_not_listed(present, n - 1, i);
        }
    } else {
        law_present_drives_are_listed(present, n - 1, i);
        if fewer.contains(drive(i)) {
            let k = choose|k: int| 0 <= k < fewer.len() && fewer[k] == drive(i);
            assert(all[k] == drive(i));
        }
        if all.contains(drive(i)) && !fewer.contains(drive(i)) {
            let k = choose|k: int| 0 <= k < all.len() && all[k] == drive(i);
            assert(k == fewer.len());
            assert(drive(n - 1).label[0] == drive(i).label[0]);
        }
    }
}

proof fn lemma_later_drives_are_not_listed(present: Seq<bool>, n: int, i: int)
    requires
        n <= i < 26,
    ensures
        !drives(present, n).contains(drive(i)),
    decreases n,
{
    if n > 0 {
        lemma_later_drives_are_not_listed(present, n - 1, i);
        let all = drives(present, n);
        let fewer = drives(present, n - 1);
        if all.contains(drive(i)) {
            let k = choose|k: int| 0 <= k < all.len() && all[k] == drive(i);
            if k < fewer.len() {
                assert(fewer[k] == drive(i));
            } else {
                assert(drive(n - 1).label[0] == drive(i).label[0]);
            }
        }
    }
}

/// No drive is listed before one with an earlier letter.
pub proof fn law_drives_go_by_letter(present: Seq<bool>, n: int, a: int, b: int)
    requires
        n <= 26,
        0 <= a < b < drives(present, n).len(),
    ensures
        drives(present, n)[a].label[0] < drives(present, n)[b].label[0],
        drives(present, n)[b].label[0] as int <= 'A' as int + n - 1,
    decreases n,
{
    let fewer = drives(present, n - 1);
    if n > 0 {
        if b < fewer.len() {
            law_drives_go_by_letter(present, n - 1, a, b);
        } else {
            lemma_letters_are_below(present, n - 1, a);
        }
    }
}

proof fn lemma_letters_are_below(present: Seq<bool>, n: int, a: int)
    requires
        n <= 26,
        0 <= a < drives(present, n).len(),
    ensures
        (drives(present, n)[a].label[0] as int) < 'A' as int + n,
    decreases n,
{
    if n > 0 && a < drives(present, n - 1).len() {
        lemma_letters_are_below(present, n - 1, a);
    }
}

/// A path that begins with a drive letter is on that drive, written in upper case, also behind
/// `\\?\`; a path that names no drive is on drive C.
pub proof fn law_paths_are_on_their_drives(letter: char, rest: Seq<char>, other: Seq<char>)
    requires
        crate::path::is_letter(letter),
        other.len() < 2 || other[1] != ':',
        other.len() == 0 || other[0] != '\\',
    ensures
        drive_root_of(seq![letter, ':'] + rest) == seq![
            crate::path::ascii_upper_char(letter),
            ':',
            '\\',
        ],
        rest.len() == 0 || rest[0] == '\\' ==> drive_root_of(
            seq!['\\', '\\', '?', '\\', letter, ':'] + rest,
        ) == seq![crate::path::ascii_upper_char(letter), ':', '\\'],
        drive_root_of(other) == seq!['C', ':', '\\'],
{
    crate::path::laws::law_drives_are_read(letter, rest);
}

} // verus!

//! Entries of local directories.

use vstd::prelude::*;

use crate::order::stable_order;
use crate::text::chars_of;

verus! {

/// An entry of a local directory.
pub struct DirItem {
    pub name: String,
    pub path: String,
    pub is_dir: bool,
}

/// An entry of a local directory.
#[verifier::ext_equal]
pub struct DirItemView {
    pub name: Seq<char>,
    pub path: Seq<char>,
    pub is_dir: bool,
}

impl View for DirItem {
    type V = DirItemView;

    open spec fn view(&self) -> DirItemView {
        DirItemView { name: self.name@, path: self.path@, is_dir: self.is_dir }
    }
}

impl DirItem {
    /// A copy of the entry.
    pub fn duplicate(&self) -> (r: DirItem)
        ensures
            r@ == self@,
    {
        DirItem { name: self.name.clone(), path: self.path.clone(), is_dir: self.is_dir }
    }
}

/// The views of a list of entries.
pub open spec fn dir_views(items: Seq<DirItem>) -> Seq<DirItemView> {
    items.map_values(|item: DirItem| item@)
}

/// The names of a list of entries.
pub open spec fn names_of(items: Seq<DirItemView>) -> Seq<Seq<char>> {
    items.map_values(|item: DirItemView| item.name)
}

/// `out` is `items` by name; entries with the same name keep their order.
pub open spec fn is_sorted_by_name(items: Seq<DirItemView>, out: Seq<DirItemView>) -> bool {
    crate::order::is_stable_sort(items, names_of(items), out)
}

/// The one list that is `items` by name.
pub open spec fn sorted_by_name(items: Seq<DirItemView>) -> Seq<DirItemView> {
    choose|out: Seq<DirItemView>| is_sorted_by_name(items, out)
}

/// There is one list only that is `items` by name.
pub proof fn law_sorted_list_is_unique(items: Seq<DirItemView>, out: Seq<DirItemView>)
    requires
        is_sorted_by_name(items, out),
    ensures
        out == sorted_by_name(items),
{
    let keys = names_of(items);
    let other = sorted_by_name(items);
    assert(is_sorted_by_name(items, other));
    let p = choose|p: Seq<int>|
        #[trigger] crate::order::is_stable_order(keys, p) && out == crate::order::picked(items, p);
    let q = choose|q: Seq<int>|
        #[trigger] crate::order::is_stable_order(keys, q) && other == crate::order::picked(
            items,
            q,
        );
    crate::order::law_stable_order_unique(keys, p, q);
}

/// Sorting by name keeps the entries: the same ones, none lost, none added.
pub proof fn law_sorting_keeps_the_entries(items: Seq<DirItemView>, item: DirItemView)
    ensures
        is_sorted_by_name(items, sorted_by_name(items)),
        sorted_by_name(items).len() == items.len(),
        items.contains(item) <==> sorted_by_name(items).contains(item),
{
    let keys = names_of(items);
    let q = crate::order::law_stable_order_exists(keys);
    assert(is_sorted_by_name(items, crate::order::picked(items, q)));
    let out = sorted_by_name(items);
    let p = choose|p: Seq<int>| #[trigger]
        crate::order::is_stable_order(keys, p) && out == crate::order::picked(items, p);
    if items.contains(item) {
        let k = choose|k: int| 0 <= k < items.len() && items[k] == item;
        assert(p.contains(k));
        let a = choose|a: int| 0 <= a < p.len() && p[a] == k;
        assert(out[a] == item);
    }
    if out.contains(item) {
        let a = choose|a: int| 0 <= a < out.len() && out[a] == item;
        assert(items[p[a]] == item);
    }
}

/// Of two entries that are sorted by name, the later one's name does not come before the
/// earlier one's.
pub proof fn law_sorted_names_do_not_fall(items: Seq<DirItemView>, i: int, j: int)
    requires
        0 <= i < j < items.len(),
    ensures
        !crate::text::text_before(sorted_by_name(items)[j].name, sorted_by_name(items)[i].name),
{
    law_sorting_keeps_the_entries(items, items[i]);
    let keys = names_of(items);
    let out = sorted_by_name(items);
    let p = choose|p: Seq<int>| #[trigger]
        crate::order::is_stable_order(keys, p) && out == crate::order::picked(items, p);
    assert(crate::order::goes_before(keys, p[i], p[j]));
    crate::order::law_goes_before_strict(keys, p[i], p[j]);
}

/// The entries by name.
pub fn sort_by_name(items: &Vec<DirItem>) -> (r: Vec<DirItem>)
    ensures
        dir_views(r@) == sorted_by_name(dir_views(items@)),
        is_sorted_by_name(dir_views(items@), dir_views(r@)),
{
    let mut keys: Vec<Vec<char>> = Vec::new();
    let mut i: usize = 0;
    while i < items.len()
        invariant
            i <= items@.len(),
            keys@.len() == i,
            forall|k: int| 0 <= k < i ==> (#[trigger] keys@[k])@ == items@[k]@.name,
        decreases items@.len() - i,
    {
        keys.push(chars_of(&items[i].name));
        i = i + 1;
    }
    let ghost views = dir_views(items@);
    assert(crate::order::key_views(keys@) =~= names_of(views));
    let p = stable_order(&keys);
    let ghost q = p@.map_values(|i: usize| i as int);
    let mut out: Vec<DirItem> = Vec::new();
    let mut a: usize = 0;
    while a < p.len()
        invariant
            a <= p@.len(),
            out@.len() == a,
            views == dir_views(items@),
            q == p@.map_values(|i: usize| i as int),
            crate::order::is_stable_order(names_of(views), q),
            forall|b: int| 0 <= b < a ==> (#[trigger] out@[b])@ == views[q[b]],
        decreases p@.len() - a,
    {
        assert(0 <= q[a as int] < views.len());
        out.push(items[p[a]].duplicate());
        a = a + 1;
    }
    proof {
        assert(dir_views(out@) =~= crate::order::picked(views, q));
        law_sorted_list_is_unique(views, dir_views(out@));
    }
    out
}

/// The directories among entries.
pub open spec fn dirs_among(items: Seq<DirItemView>) -> Seq<DirItemView> {
    items.filter(|item: DirItemView| item.is_dir)
}

/// The directories among entries, by name.
pub fn sorted_dirs(items: &Vec<DirItem>) -> (r: Vec<DirItem>)
    ensures
        dir_views(r@) == sorted_by_name(dirs_among(dir_views(items@))),
        is_sorted_by_name(dirs_among(dir_views(items@)), dir_views(r@)),
{
    let mut dirs: Vec<DirItem> = Vec::new();
    let mut i: usize = 0;
    let ghost views = dir_views(items@);
    proof {
        reveal(Seq::filter);
        assert(dir_views(dirs@) =~= dirs_among(views.take(0)));
    }
    while i < items.len()
        invariant
            i <= items@.len(),
            views == dir_views(items@),
            dir_views(dirs@) == dirs_among(views.take(i as int)),
        decreases items@.len() - i,
    {
        proof {
            reveal(Seq::filter);
            assert(views.take(i + 1).drop_last() =~= views.take(i as int));
        }
        if items[i].is_dir {
            let ghost before = dirs@;
            dirs.push(items[i].duplicate());
            assert(dir_views(dirs@) =~= dir_views(before).push(views[i as int]));
        }
        i = i + 1;
    }
    assert(views.take(i as int) =~= views);
    sort_by_name(&dirs)
}

} // verus!

//! Volumes that the file browser can navigate to.

pub mod linux;
pub mod macos;
pub mod windows;

use vstd::prelude::*;

use crate::entry::DirItem;
use crate::path::Platform;

verus! {

/// A mounted volume (drive letter, network share, or filesystem mount point).
pub struct Volume {
    /// The root path of the volume (e.g. `C:\`, `/Volumes/MyDrive`, `/mnt/usb`).
    pub root: String,
    /// Short human-readable label shown in the UI (e.g. `C:`, `MyDrive`, `usb`).
    pub label: String,
}

/// A mounted volume.
#[verifier::ext_equal]
pub struct VolumeView {
    pub root: Seq<char>,
    pub label: Seq<char>,
}

impl View for Volume {
    type V = VolumeView;

    open spec fn view(&self) -> VolumeView {
        VolumeView { root: self.root@, label: self.label@ }
    }
}

/// The views of a list of volumes.
pub open spec fn volume_views(volumes: Seq<Volume>) -> Seq<VolumeView> {
    volumes.map_values(|v: Volume| v@)
}

/// Directories as volumes: each is the root of one, labelled with its name.
pub open spec fn as_volumes(dirs: Seq<crate::entry::DirItemView>) -> Seq<VolumeView> {
    dirs.map_values(
        |d: crate::entry::DirItemView| VolumeView { root: d.path, label: d.name },
    )
}

/// The directories among `items` by name, as volumes.
pub open spec fn volumes_in(items: Seq<crate::entry::DirItemView>) -> Seq<VolumeView> {
    as_volumes(crate::entry::sorted_by_name(crate::entry::dirs_among(items)))
}

/// Appends the directories among `items` by name, as volumes.
pub fn collect_dir(items: &Vec<DirItem>, out: &mut Vec<Volume>)
    ensures
        volume_views(final(out)@) == volume_views(old(out)@) + volumes_in(
            crate::entry::dir_views(items@),
        ),
{
    let dirs = crate::entry::sorted_dirs(items);
    let ghost found = as_volumes(crate::entry::dir_views(dirs@));
    let mut i: usize = 0;
    assert(volume_views(out@) =~= volume_views(old(out)@) + found.take(0));
    while i < dirs.len()
        invariant
            i <= dirs@.len(),
            found == as_volumes(crate::entry::dir_views(dirs@)),
            volume_views(out@) == volume_views(old(out)@) + found.take(i as int),
        decreases dirs@.len() - i,
    {
        let ghost before = out@;
        out.push(Volume { root: dirs[i].path.clone(), label: dirs[i].name.clone() });
        assert(volume_views(out@) =~= volume_views(before).push(found[i as int]));
        assert(volume_views(out@) =~= volume_views(old(out)@) + found.take(i + 1));
        i = i + 1;
    }
    assert(found.take(i as int) =~= found);
}

/// What was found where volumes are mounted.
pub enum VolumeProbe {
    /// Which of the 26 drives have a root directory, from `A:` on.
    Windows(Vec<bool>),
    /// The entries of `/Volumes`.
    MacOs(Vec<DirItem>),
    /// The entries of `/mnt`, and those of `/media`, each with its own entries.
    Unix(Vec<DirItem>, Vec<crate::volumes::linux::MediaItem>),
}

/// The name is that of an entry of a directory on a Unix system.
pub open spec fn is_file_name(name: Seq<char>) -> bool {
    &&& name.len() > 0
    &&& !name.contains('/')
    &&& name != seq!['.']
    &&& name != seq!['.', '.']
}

/// `item` is an entry of the directory `dir`, which ends in a slash.
pub open spec fn is_entry_of(item: crate::entry::DirItemView, dir: Seq<char>) -> bool {
    is_file_name(item.name) && item.path == dir + item.name
}

/// `items` are entries of the directory `dir`, which ends in a slash.
pub open spec fn are_entries_of(items: Seq<crate::entry::DirItemView>, dir: Seq<char>) -> bool {
    forall|i: int| 0 <= i < items.len() ==> is_entry_of(#[trigger] items[i], dir)
}

impl VolumeProbe {
    /// The probe is complete.
    pub open spec fn wf(self) -> bool {
        self matches VolumeProbe::Windows(present) ==> present@.len() == 26
    }

    /// The platform that the probe is for.
    pub open spec fn platform(self) -> Platform {
        match self {
            VolumeProbe::Windows(_) => Platform::Windows,
            VolumeProbe::MacOs(_) => Platform::MacOs,
            VolumeProbe::Unix(_, _) => Platform::Unix,
        }
    }

    /// The entries are those of the directories that they are said to be of: each path is its
    /// directory joined with a file name.
    pub open spec fn is_read(self) -> bool {
        match self {
            VolumeProbe::Windows(_) => true,
            VolumeProbe::MacOs(items) => are_entries_of(
                crate::entry::dir_views(items@),
                "/Volumes/"@,
            ),
            VolumeProbe::Unix(mnt, media) => {
                &&& are_entries_of(crate::entry::dir_views(mnt@), "/mnt/"@)
                &&& crate::volumes::linux::are_media_entries(
                    crate::volumes::linux::media_views(media@),
                )
            },
        }
    }

    /// The volumes that the probe has found.
    pub open spec fn found(self) -> Seq<VolumeView> {
        match self {
            VolumeProbe::Windows(present) => crate::volumes::windows::drives(present@, 26),
            VolumeProbe::MacOs(items) => crate::volumes::macos::volumes_or_root(
                crate::entry::dir_views(items@),
            ),
            VolumeProbe::Unix(mnt, media) => crate::volumes::linux::mounts(
                crate::entry::dir_views(mnt@),
                crate::volumes::linux::media_views(media@),
            ),
        }
    }
}

/// The list of currently available volumes.
pub fn list_volumes(probe: &VolumeProbe) -> (r: Vec<Volume>)
    requires
        probe.wf(),
    ensures
        volume_views(r@) == probe.found(),
{
    match probe {
        VolumeProbe::Windows(present) => crate::volumes::windows::list_volumes(present),
        VolumeProbe::MacOs(items) => crate::volumes::macos::list_volumes(items),
        VolumeProbe::Unix(mnt, media) => crate::volumes::linux::list_volumes(mnt, media),
    }
}

/// The root of the volume that holds a path.
pub open spec fn root_of(platform: Platform, path: Seq<char>) -> Seq<char> {
    match platform {
        Platform::Windows => crate::volumes::windows::drive_root_of(path),
        Platform::MacOs => crate::volumes::macos::mount_of(path),
        Platform::Unix => crate::volumes::linux::mount_of(path),
    }
}

/// The root of the volume that holds `path`. Falls back to the filesystem root (or drive root
/// on Windows) if no specific volume is named.
pub fn volume_root_of(platform: Platform, path: &str) -> (r: String)
    ensures
        r@ == root_of(platform, path@),
{
    match platform {
        Platform::Windows => crate::volumes::windows::volume_root_of(path),
        Platform::MacOs => crate::volumes::macos::volume_root_of(path),
        Platform::Unix => crate::volumes::linux::volume_root_of(path),
    }
}

/// A volume that was collected from entries is one of them.
pub proof fn lemma_volume_is_an_entry(items: Seq<crate::entry::DirItemView>, i: int) -> (k: int)
    requires
        0 <= i < volumes_in(items).len(),
    ensures
        0 <= k < items.len(),
        items[k].is_dir,
        volumes_in(items)[i] == (VolumeView { root: items[k].path, label: items[k].name }),
{
    let dirs = crate::entry::dirs_among(items);
    let sorted = crate::entry::sorted_by_name(dirs);
    let d = sorted[i];
    assert(sorted.contains(d));
    crate::entry::law_sorting_keeps_the_entries(dirs, d);
    let a = choose|a: int| 0 <= a < dirs.len() && dirs[a] == d;
    lemma_dir_is_an_entry(items, a)
}

proof fn lemma_dir_is_an_entry(items: Seq<crate::entry::DirItemView>, a: int) -> (k: int)
    requires
        0 <= a < crate::entry::dirs_among(items).len(),
    ensures
        0 <= k < items.len(),
        items[k].is_dir,
        items[k] == crate::entry::dirs_among(items)[a],
    decreases items.len(),
{
    reveal(Seq::filter);
    let less = crate::entry::dirs_among(items.drop_last());
    if a < less.len() {
        lemma_dir_is_an_entry(items.drop_last(), a)
    } else {
        items.len() - 1
    }
}

/// Each volume that is listed is the root of itself.
pub proof fn law_volumes_are_their_own_roots(probe: VolumeProbe, i: int)
    requires
        probe.wf(),
        probe.is_read(),
        0 <= i < probe.found().len(),
    ensures
        root_of(probe.platform(), probe.found()[i].root) == probe.found()[i].root,
{
    match probe {
        VolumeProbe::Windows(present) => {
            crate::volumes::windows::lemma_drives_are_roots(present@, 26, i);
        },
        VolumeProbe::MacOs(items) => {
            crate::volumes::macos::lemma_volumes_are_mounts(crate::entry::dir_views(items@), i);
        },
        VolumeProbe::Unix(mnt, media) => {
            crate::volumes::linux::lemma_volumes_are_mounts(
                crate::entry::dir_views(mnt@),
                crate::volumes::linux::media_views(media@),
                i,
            );
        },
    }
}

/// Where there are no drive letters there is always a volume; on Linux the first one is the
/// filesystem root.
pub proof fn law_there_is_a_volume(probe: VolumeProbe)
    requires
        !(probe is Windows),
    ensures
        probe.found().len() > 0,
        probe is Unix ==> probe.found()[0] == (VolumeView { root: "/"@, label: "/"@ }),
{
}

/// Of the entries of a directory exactly the directories are volumes, each under its path, with its
/// name as the label.
pub proof fn law_directories_are_volumes(
    items: Seq<crate::entry::DirItemView>,
    root: Seq<char>,
    label: Seq<char>,
)
    ensures
        volumes_in(items).contains(VolumeView { root, label }) <==> items.contains(
            crate::entry::DirItemView { name: label, path: root, is_dir: true },
        ),
{
    let dirs = crate::entry::dirs_among(items);
    let sorted = crate::entry::sorted_by_name(dirs);
    let d = crate::entry::DirItemView { name: label, path: root, is_dir: true };
    let v = VolumeView { root, label };
    crate::entry::law_sorting_keeps_the_entries(dirs, d);
    crate::ui::browser::lemma_filter_contains(
        items,
        |item: crate::entry::DirItemView| item.is_dir,
        d,
    );
    if items.contains(d) {
        let k = choose|k: int| 0 <= k < sorted.len() && sorted[k] == d;
        assert(volumes_in(items)[k] == v);
    }
    if volumes_in(items).contains(v) {
        let i = choose|i: int| 0 <= i < volumes_in(items).len() && volumes_in(items)[i] == v;
        let k = lemma_volume_is_an_entry(items, i);
        assert(items[k] == d);
    }
}

/// Volumes of the same directory go by name.
pub proof fn law_volumes_go_by_name(items: Seq<crate::entry::DirItemView>, i: int, j: int)
    requires
        0 <= i < j < volumes_in(items).len(),
    ensures
        !crate::text::text_before(volumes_in(items)[j].label, volumes_in(items)[i].label),
{
    let dirs = crate::entry::dirs_among(items);
    crate::entry::law_sorting_keeps_the_entries(dirs, dirs[0]);
    crate::entry::law_sorted_names_do_not_fall(dirs, i, j);
}

/// Each platform has its own rule for roots.
pub proof fn law_roots_by_platform(path: Seq<char>)
    ensures
        root_of(Platform::Windows, path) == crate::volumes::windows::drive_root_of(path),
        root_of(Platform::MacOs, path) == crate::volumes::macos::mount_of(path),
        root_of(Platform::Unix, path) == crate::volumes::linux::mount_of(path),
{
}

} // verus!

use equirect::entry::{sort_by_name, sorted_dirs, DirItem};
use equirect::path::Platform;
use equirect::volumes::linux::MediaItem;
use equirect::volumes::windows::drive_root;
use equirect::volumes::{list_volumes, volume_root_of, VolumeProbe};

fn item(name: &str, path: &str, is_dir: bool) -> DirItem {
    DirItem { name: name.to_string(), path: path.to_string(), is_dir }
}

fn shown(probe: &VolumeProbe) -> Vec<(String, String)> {
    list_volumes(probe).into_iter().map(|v| (v.root, v.label)).collect()
}

fn pair(a: &str, b: &str) -> (String, String) {
    (a.to_string(), b.to_string())
}

#[test]
fn drives_that_are_present_are_listed() {
    let mut present = vec![false; 26];
    present[2] = true;
    present[3] = true;
    present[25] = true;
    assert_eq!(
        shown(&VolumeProbe::Windows(present)),
        vec![pair("C:\\", "C:"), pair("D:\\", "D:"), pair("Z:\\", "Z:")]
    );
    assert_eq!(drive_root(0), "A:\\");
}

#[test]
fn no_drives_no_volumes() {
    assert!(shown(&VolumeProbe::Windows(vec![false; 26])).is_empty());
}

#[test]
fn mounted_volumes_on_macos_by_name() {
    let probe = VolumeProbe::MacOs(vec![
        item("Music", "/Volumes/Music", true),
        item("Disk", "/Volumes/Disk", true),
        item("file", "/Volumes/file", false),
    ]);
    assert_eq!(shown(&probe), vec![pair("/Volumes/Disk", "Disk"), pair("/Volumes/Music", "Music")]);
}

#[test]
fn macos_without_volumes_has_the_root() {
    assert_eq!(shown(&VolumeProbe::MacOs(vec![])), vec![pair("/", "/")]);
}

#[test]
fn mounts_on_unix() {
    let probe = VolumeProbe::Unix(
        vec![item("usb", "/mnt/usb", true), item("nas", "/mnt/nas", true), item("x", "/mnt/x", false)],
        vec![
            MediaItem { item: item("cdrom", "/media/cdrom", true), children: vec![] },
            MediaItem {
                item: item("ann", "/media/ann", true),
                children: vec![item("b", "/media/ann/b", true), item("a", "/media/ann/a", true)],
            },
            MediaItem { item: item("note", "/media/note", false), children: vec![] },
        ],
    );
    assert_eq!(
        shown(&probe),
        vec![
            pair("/", "/"),
            pair("/mnt/nas", "nas"),
            pair("/mnt/usb", "usb"),
            pair("/media/cdrom", "cdrom"),
            pair("/media/ann/a", "a"),
            pair("/media/ann/b", "b"),
        ]
    );
}

#[test]
fn volume_roots_on_windows() {
    let root = |s: &str| volume_root_of(Platform::Windows, s);
    assert_eq!(root("d:\\films\\a"), "D:\\");
    assert_eq!(root("\\\\?\\E:\\x"), "E:\\");
    assert_eq!(root("\\\\server\\share\\x"), "C:\\");
    assert_eq!(root("films"), "C:\\");
    assert_eq!(root(&root("d:\\films")), "D:\\");
}

#[test]
fn volume_roots_on_macos() {
    let root = |s: &str| volume_root_of(Platform::MacOs, s);
    assert_eq!(root("/Volumes/Disk/films"), "/Volumes/Disk");
    assert_eq!(root("/volumes/Disk"), "/Volumes/Disk");
    assert_eq!(root("/Volumes"), "/");
    assert_eq!(root("/Users/ann"), "/");
    assert_eq!(root("Volumes/Disk"), "/");
    assert_eq!(root("/Volumes/../x"), "/");
    assert_eq!(root(&root("/Volumes/Disk/films")), "/Volumes/Disk");
}

#[test]
fn volume_roots_on_unix() {
    let root = |s: &str| volume_root_of(Platform::Unix, s);
    assert_eq!(root("/mnt/usb/films/a.mp4"), "/mnt/usb");
    assert_eq!(root("/mnt/"), "/");
    assert_eq!(root("/media/ann/disk/x"), "/media/ann/disk");
    assert_eq!(root("/media/disk"), "/media/disk");
    assert_eq!(root("/media/disk/"), "/media/disk");
    assert_eq!(root("/media//x"), "/");
    assert_eq!(root("/home/ann"), "/");
    assert_eq!(root(&root("/media/ann/disk/x")), "/media/ann/disk");
}

#[test]
fn entries_are_sorted_by_name_and_stay_the_same() {
    let items = vec![item("b", "1", false), item("a", "2", true), item("B", "3", false), item("a", "4", false)];
    let sorted = sort_by_name(&items);
    let paths: Vec<String> = sorted.iter().map(|i| i.path.clone()).collect();
    assert_eq!(paths, vec!["3", "2", "4", "1"]);
    let dirs = sorted_dirs(&items);
    assert_eq!(dirs.len(), 1);
    assert_eq!(dirs[0].path, "2");
}

#[test]
fn listed_volumes_are_their_own_roots() {
    let unix = VolumeProbe::Unix(
        vec![item("usb", "/mnt/usb", true)],
        vec![
            MediaItem { item: item("cdrom", "/media/cdrom", true), children: vec![] },
            MediaItem {
                item: item("ann", "/media/ann", true),
                children: vec![item("disk", "/media/ann/disk", true)],
            },
        ],
    );
    let macos = VolumeProbe::MacOs(vec![item("Disk", "/Volumes/Disk", true)]);
    let probes = vec![
        (Platform::Unix, unix, 4),
        (Platform::MacOs, macos, 1),
        (Platform::MacOs, VolumeProbe::MacOs(vec![]), 1),
        (Platform::Windows, VolumeProbe::Windows(vec![true; 26]), 26),
    ];
    for (platform, probe, n) in probes {
        let listed = shown(&probe);
        assert_eq!(listed.len(), n);
        for (root, _) in listed {
            assert_eq!(volume_root_of(platform, &root), root);
        }
    }
    assert_eq!(shown(&VolumeProbe::Unix(vec![], vec![])), vec![pair("/", "/")]);
}

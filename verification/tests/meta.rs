use equirect::path::Platform;
use equirect::video_meta::{
    load_last_dir, meta_file_name, meta_key, meta_name, resolve_dir_for_volume, save_last_dir,
    save_volume_last_dir, AppState, DirStep,
};

#[test]
fn file_name_is_the_digest_of_the_key() {
    assert_eq!(
        meta_file_name("abc"),
        "video-ba7816bf8f01cfea414140de5dae2223b00361a396177a9cb410ff61f20015ad.json"
    );
    assert_eq!(
        meta_file_name(""),
        "video-e3b0c44298fc1c149afbf4c8996fb92427ae41e4649b934ca495991b7852b855.json"
    );
    assert_ne!(meta_file_name("a"), meta_file_name("b"));
}

#[test]
fn digests_are_written_in_lower_case_hexadecimal() {
    assert_eq!(meta_name(&[0x00, 0x0f, 0xa0, 0xff]), "video-000fa0ff.json");
    assert_eq!(meta_name(&[]), "video-.json");
}

#[test]
fn urls_are_stored_under_themselves_and_files_under_their_canonical_path() {
    assert_eq!(meta_key("http://h/a.mp4", Some("/x".to_string())), "http://h/a.mp4");
    assert_eq!(meta_key("a.mp4", Some("/films/a.mp4".to_string())), "/films/a.mp4");
    assert_eq!(meta_key("a.mp4", None), "a.mp4");
}

#[test]
fn last_directory_is_remembered() {
    let mut state = AppState::new();
    assert_eq!(load_last_dir(&state, true), None);
    save_last_dir(&mut state, "/films");
    assert_eq!(load_last_dir(&state, true), Some("/films".to_string()));
    assert_eq!(load_last_dir(&state, false), None);
    save_volume_last_dir(&mut state, "/mnt/usb", "/mnt/usb/x");
    assert_eq!(load_last_dir(&state, true), Some("/films".to_string()));
}

#[test]
fn each_volume_has_its_last_directory() {
    let mut state = AppState::new();
    save_volume_last_dir(&mut state, "/mnt/usb", "/mnt/usb/a");
    save_volume_last_dir(&mut state, "/mnt/nas", "/mnt/nas/b");
    save_volume_last_dir(&mut state, "/mnt/usb", "/mnt/usb/c");
    assert_eq!(state.volume_last_dir("/mnt/usb"), Some("/mnt/usb/c".to_string()));
    assert_eq!(state.volume_last_dir("/mnt/nas"), Some("/mnt/nas/b".to_string()));
    assert_eq!(state.volume_last_dir("/"), None);
    assert_eq!(state.volume_last_dirs.len(), 2);
}

fn search(state: &AppState, root: &str, existing: &[&str]) -> (String, Vec<String>) {
    let mut probed: Vec<String> = Vec::new();
    let mut step = resolve_dir_for_volume(Platform::Unix, state, root);
    loop {
        match step {
            DirStep::Found(dir) => return (dir, probed),
            DirStep::Probe(s) => {
                let is_dir = existing.contains(&s.dir.as_str());
                probed.push(s.dir.clone());
                step = s.on_probe(is_dir);
            }
        }
    }
}

#[test]
fn search_climbs_to_the_first_directory_that_exists() {
    let mut state = AppState::new();
    save_volume_last_dir(&mut state, "/mnt/usb", "/mnt/usb/a/b/c");
    let (dir, probed) = search(&state, "/mnt/usb", &["/mnt/usb/a", "/mnt/usb", "/mnt"]);
    assert_eq!(dir, "/mnt/usb/a");
    assert_eq!(probed, vec!["/mnt/usb/a/b/c", "/mnt/usb/a/b", "/mnt/usb/a"]);
}

#[test]
fn search_does_not_climb_above_the_volume() {
    let mut state = AppState::new();
    save_volume_last_dir(&mut state, "/mnt/usb", "/mnt/usb/a");
    let (dir, probed) = search(&state, "/mnt/usb", &["/mnt", "/"]);
    assert_eq!(dir, "/mnt/usb");
    assert_eq!(probed, vec!["/mnt/usb/a", "/mnt/usb"]);
}

#[test]
fn search_without_a_saved_directory_gives_the_root() {
    let (dir, probed) = search(&AppState::new(), "/mnt/usb", &[]);
    assert_eq!(dir, "/mnt/usb");
    assert!(probed.is_empty());
}

#[test]
fn search_from_elsewhere_ends_at_the_top() {
    let mut state = AppState::new();
    save_volume_last_dir(&mut state, "/mnt/usb", "/home/ann");
    let (dir, probed) = search(&state, "/mnt/usb", &[]);
    assert_eq!(dir, "/mnt/usb");
    assert_eq!(probed, vec!["/home/ann", "/home", "/"]);
}

use equirect::entry::DirItem;
use equirect::net::RemoteItem;
use equirect::path::Platform;
use equirect::ui::browser::{
    load_local_entries, remote_entries, BrowserActions, BrowserEntry, BrowserPage, BrowserState,
    LoadRequest, Location,
};
use equirect::ui::cache::FolderCache;

const UNIX: Platform = Platform::Unix;

fn item(name: &str, is_dir: bool) -> DirItem {
    DirItem { name: name.to_string(), path: format!("/films/{name}"), is_dir }
}

fn local(p: &str) -> Location {
    Location::Local(p.to_string())
}

fn remote(u: &str) -> Location {
    Location::Remote(u.to_string())
}

fn shown(entries: &[BrowserEntry]) -> Vec<String> {
    entries
        .iter()
        .map(|e| match e {
            BrowserEntry::Parent => "..".to_string(),
            BrowserEntry::Dir(n, l) => format!("d {n} {}", l.display()),
            BrowserEntry::Video(n, l) => format!("v {n} {}", l.display()),
        })
        .collect()
}

fn sample() -> Vec<DirItem> {
    vec![
        item("b.mp4", false),
        item("sub", true),
        item(".hidden", true),
        item("a.webm", false),
        item(".x.mp4", false),
        item("notes.txt", false),
        item("Alpha", true),
    ]
}

#[test]
fn local_listing_has_parent_then_folders_then_videos() {
    let entries = load_local_entries(UNIX, &sample());
    assert_eq!(
        shown(&entries),
        vec!["..", "d Alpha /films/Alpha", "d sub /films/sub", "v a.webm /films/a.webm", "v b.mp4 /films/b.mp4"]
    );
    assert_eq!(shown(&load_local_entries(UNIX, &vec![])), vec![".."]);
}

#[test]
fn remote_listing_keeps_its_order() {
    let items = vec![
        RemoteItem { name: "d".to_string(), url: "http://h/d/".to_string(), is_dir: true },
        RemoteItem { name: "a.mp4".to_string(), url: "http://h/a.mp4".to_string(), is_dir: false },
    ];
    assert_eq!(shown(&remote_entries(items)), vec!["..", "d d http://h/d/", "v a.mp4 http://h/a.mp4"]);
}

#[test]
fn locations_have_parents_up_to_the_root() {
    let up = |l: &Location| l.parent(UNIX).map(|p| p.display());
    assert_eq!(up(&local("/films/a")), Some("/films".to_string()));
    assert_eq!(up(&local("/")), None);
    assert_eq!(up(&remote("http://h/a/b/")), Some("http://h/a/".to_string()));
    assert_eq!(up(&remote("http://h/")), None);
}

#[test]
fn locations_are_local_or_remote() {
    assert_eq!(local("/a").as_local(), Some(&"/a".to_string()));
    assert_eq!(local("/a").as_remote(), None);
    assert_eq!(remote("http://h").as_remote(), Some("http://h"));
    assert_eq!(remote("http://h").as_local(), None);
    assert!(local("/a/").is_same(UNIX, &local("/a")));
    assert!(!local("/a").is_same(UNIX, &remote("/a")));
}

#[test]
fn local_directory_is_read_at_once() {
    let (mut state, request) = BrowserState::new(local("/films"), Some(local("/films/b.mp4")), None);
    assert!(matches!(request, Some(LoadRequest::ReadDir(p)) if p == "/films"));
    assert!(!state.is_loading);
    state.on_dir_read(UNIX, &sample());
    assert!(state.just_loaded);
    assert!(matches!(state.page(), BrowserPage::List));
    assert_eq!(state.take_scroll_row(UNIX), Some(4));
    assert_eq!(state.take_scroll_row(UNIX), None);
    assert!(state.row(UNIX, 4).is_current);
    assert!(!state.row(UNIX, 3).is_current);
}

#[test]
fn remote_directory_is_loaded_in_the_background() {
    let (mut state, request) = BrowserState::new(remote("http://h/d/"), None, None);
    assert!(matches!(request, Some(LoadRequest::Fetch(u)) if u == "http://h/d/"));
    assert!(matches!(state.page(), BrowserPage::Loading));
    state.poll_loading(None);
    assert!(state.is_loading);
    state.poll_loading(Some(Ok(vec![BrowserEntry::Parent])));
    assert!(!state.is_loading);
    assert!(state.just_loaded);
    assert_eq!(state.entries.len(), 1);
    state.poll_loading(Some(Err("late".to_string())));
    assert!(state.load_error.is_none());
}

#[test]
fn load_errors_are_shown() {
    let (mut state, _) = BrowserState::new(remote("http://h/d/"), None, None);
    state.poll_loading(Some(Err("no route".to_string())));
    match state.page() {
        BrowserPage::Error(e) => assert_eq!(e, "Error: no route"),
        _ => panic!("no error"),
    }
    assert!(!state.just_loaded);
}

#[test]
fn cached_entries_need_no_reading() {
    let (mut state, request) = BrowserState::new(remote("http://h/"), None, Some(vec![BrowserEntry::Parent]));
    assert!(request.is_none());
    assert!(!state.is_loading);
    assert_eq!(state.entries.len(), 1);
    let request = state.navigate_to(local("/films"), None);
    assert!(matches!(request, Some(LoadRequest::ReadDir(p)) if p == "/films"));
    assert!(state.needs_scroll_to_current);
    assert!(state.entries.is_empty());
    assert!(!state.is_waiting);
    let request = state.navigate_to(local("/"), Some(vec![BrowserEntry::Parent, BrowserEntry::Parent]));
    assert!(request.is_none());
    assert_eq!(state.entries.len(), 2);
}

#[test]
fn clicks_become_actions() {
    let (mut state, _) = BrowserState::new(local("/films"), None, None);
    state.on_dir_read(UNIX, &sample());
    let mut actions = BrowserActions::default();
    state.activate(UNIX, 0, &mut actions);
    assert_eq!(actions.navigate.as_ref().map(|l| l.display()), Some("/".to_string()));
    state.activate(UNIX, 1, &mut actions);
    assert_eq!(actions.select_dir.as_ref().map(|l| l.display()), Some("/films/Alpha".to_string()));
    state.activate(UNIX, 3, &mut actions);
    assert_eq!(actions.play.as_ref().map(|l| l.display()), Some("/films/a.webm".to_string()));
    assert!(!actions.close);
    assert!(actions.select_volume.is_none());
}

#[test]
fn no_row_is_activated_while_the_list_is_not_shown() {
    let (mut state, _) = BrowserState::new(local("/films"), None, None);
    state.on_dir_read(UNIX, &sample());
    let mut actions = BrowserActions::default();
    state.is_loading = true;
    state.activate(UNIX, 3, &mut actions);
    state.is_loading = false;
    state.load_error = Some("no route".to_string());
    state.activate(UNIX, 0, &mut actions);
    state.activate(UNIX, 1, &mut actions);
    assert!(actions.play.is_none() && actions.navigate.is_none() && actions.select_dir.is_none());
    state.load_error = None;
    state.activate(UNIX, 3, &mut actions);
    assert!(actions.play.is_some());
}

#[test]
fn late_listing_is_not_taken() {
    let (mut state, _) = BrowserState::new(remote("http://h/d/"), None, None);
    assert!(state.is_waiting && state.is_loading);
    let rows = vec![BrowserEntry::Parent, BrowserEntry::Parent];
    assert!(state.navigate_to(remote("http://h/"), Some(rows)).is_none());
    assert!(!state.is_waiting && !state.is_loading);
    assert!(matches!(state.page(), BrowserPage::List));
    state.poll_loading(Some(Ok(vec![])));
    assert_eq!(state.entries.len(), 2);
    assert!(!state.just_loaded);
}

#[test]
fn nothing_lies_above_the_root() {
    let (mut state, _) = BrowserState::new(local("/"), None, None);
    state.on_dir_read(UNIX, &vec![]);
    let mut actions = BrowserActions::default();
    state.activate(UNIX, 0, &mut actions);
    assert!(actions.navigate.is_none());
}

#[test]
fn rows_are_labelled() {
    let (mut state, _) = BrowserState::new(local("/films"), None, None);
    state.on_dir_read(UNIX, &sample());
    assert_eq!(state.row(UNIX, 0).text, "..");
    assert_eq!(state.row(UNIX, 1).text, "📁  Alpha");
    assert_eq!(state.row(UNIX, 3).text, "a.webm");
}

#[test]
fn cache_gives_back_what_was_stored() {
    let mut cache = FolderCache::new(UNIX);
    assert!(cache.lookup(&local("/films")).is_none());
    cache.store(&local("/films"), &load_local_entries(UNIX, &sample()));
    cache.store(&remote("http://h/"), &vec![BrowserEntry::Parent]);
    assert_eq!(cache.lookup(&local("/films/")).map(|e| e.len()), Some(5));
    cache.store(&local("/films"), &vec![]);
    assert_eq!(cache.lookup(&local("/films")).map(|e| e.len()), Some(0));
    cache.invalidate(&local("/films"));
    assert!(cache.lookup(&local("/films")).is_none());
    assert_eq!(cache.lookup(&remote("http://h/")).map(|e| e.len()), Some(1));
}

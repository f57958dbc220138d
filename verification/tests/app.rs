use equirect::app::{shows_pointers, step_of, App, NeighbourStep, PanelMode};
use equirect::entry::DirItem;
use equirect::path::Platform;
use equirect::source::{
    adjacent_entry, adjacent_video, is_url, location_to_source, source_display_name,
    source_to_location,
};
use equirect::ui::browser::{BrowserEntry, LoadRequest, Location};
use equirect::ui::control_bar::ControlBarActions;
use equirect::ui::settings::{Projection, SettingsActions, StereoLayout, VideoMode, VideoSettings};
use equirect::video_meta::{load_last_dir, AppState, DirStep, VideoMeta};

const UNIX: Platform = Platform::Unix;

fn local(p: &str) -> Location {
    Location::Local(p.to_string())
}

fn app(source: Option<&str>) -> App {
    App::new(UNIX, source.map(|s| s.to_string()), None, None)
}

fn dome() -> VideoSettings {
    VideoSettings {
        mode: VideoMode::View180,
        proj: Projection::Fisheye,
        stereo: StereoLayout::LR,
        zoom_bits: 0x4000_0000,
    }
}

#[test]
fn first_panel() {
    let browsing = App::new(UNIX, None, Some("/films".to_string()), None);
    assert_eq!(browsing.panel_mode, PanelMode::Browser);
    assert_eq!(app(None).panel_mode, PanelMode::ControlBar);
    let both = App::new(UNIX, Some("a.mp4".to_string()), Some("/films".to_string()), None);
    assert_eq!(both.panel_mode, PanelMode::ControlBar);
}

#[test]
fn start_time_is_sought_once() {
    let mut a = App::new(UNIX, Some("a.mp4".to_string()), None, Some(90));
    a.on_opened("a.mp4".to_string(), Ok(600_000_000));
    assert_eq!(a.take_start_seek(5), Some(90_000_000));
    assert_eq!(a.player.control_bar.current_us, 90_000_000);
    assert_eq!(a.take_start_seek(5), None);
    let far = App::new(UNIX, None, None, Some(u64::MAX));
    assert_eq!(far.start_us, None);
}

#[test]
fn first_video_takes_its_settings() {
    let mut a = app(Some("/films/a.mp4"));
    a.on_first_meta(Some(VideoMeta { settings: dome() }));
    assert_eq!(a.settings, dome());
    a.on_first_meta(None);
    assert_eq!(a.settings, dome());
}

#[test]
fn opened_video_is_shown_by_name() {
    let mut a = app(None);
    a.on_opened("/films/My Film.mp4".to_string(), Ok(5));
    assert_eq!(a.player.control_bar.video_name, "My Film");
    assert_eq!(a.player.control_bar.duration_us, 5);
    assert_eq!(a.player.open_duration_us, Some(5));
    assert!(a.player.control_bar.is_playing);
    assert_eq!(a.video_source, Some("/films/My Film.mp4".to_string()));
}

#[test]
fn video_that_cannot_be_opened_is_reported() {
    let mut a = app(None);
    a.panel_mode = PanelMode::Hidden;
    a.on_opened("x.mp4".to_string(), Err("no codec".to_string()));
    assert_eq!(a.player.control_bar.error, Some("Can't play video: no codec".to_string()));
    assert_eq!(a.panel_mode, PanelMode::ControlBar);
    assert_eq!(a.video_source, Some("x.mp4".to_string()));
    a.on_opened("y.mp4".to_string(), Ok(1));
    assert_eq!(a.player.control_bar.error, None);
}

#[test]
fn video_without_settings_inherits_those_of_the_last_one() {
    let mut a = app(Some("a.mp4"));
    a.on_first_meta(Some(VideoMeta { settings: dome() }));
    assert_eq!(a.switch_video(None), Some(VideoMeta { settings: dome() }));
    assert_eq!(a.settings, dome());
    let flat = VideoMeta { settings: VideoSettings::new() };
    assert_eq!(a.switch_video(Some(flat)), None);
    assert_eq!(a.settings, VideoSettings::new());
    assert_eq!(a.player.open_duration_us, None);
}

#[test]
fn browser_opens_at_the_first_directory() {
    let mut a = App::new(UNIX, None, Some("/films".to_string()), None);
    assert!(matches!(a.open_first_browser(), Some(LoadRequest::ReadDir(p)) if p == "/films"));
    assert!(a.browser.is_some());
    assert!(a.open_first_browser().is_none());
}

#[test]
fn browser_opens_in_the_folder_of_the_video() {
    let mut a = app(Some("/films/a.mp4"));
    let request = a.show_browser("/home".to_string());
    assert!(matches!(request, Some(LoadRequest::ReadDir(p)) if p == "/films"));
    assert_eq!(a.panel_mode, PanelMode::Browser);
    assert!(a.show_browser("/home".to_string()).is_none());
    let mut b = app(Some("http://h/v/a.mp4"));
    assert!(matches!(b.show_browser("/home".to_string()), Some(LoadRequest::Fetch(u)) if u == "http://h/v/"));
    let mut c = app(None);
    assert!(matches!(c.show_browser("/home".to_string()), Some(LoadRequest::ReadDir(p)) if p == "/home"));
}

#[test]
fn going_up_uses_the_cache_and_clicking_a_folder_does_not() {
    let mut memory = AppState::new();
    let mut a = App::new(UNIX, None, Some("/mnt/usb/films".to_string()), None);
    a.open_first_browser();
    a.browser.as_mut().unwrap().on_dir_read(UNIX, &vec![]);
    a.cache_loaded();
    assert!(!a.browser.as_ref().unwrap().just_loaded);
    let request = a.select_dir(local("/mnt/usb/films/sub"), &mut memory);
    assert!(matches!(request, Some(LoadRequest::ReadDir(p)) if p == "/mnt/usb/films/sub"));
    assert!(a.navigate(local("/mnt/usb/films"), &mut memory).is_none());
    assert_eq!(a.browser.as_ref().unwrap().entries.len(), 1);
    assert_eq!(load_last_dir(&memory, true), Some("/mnt/usb/films".to_string()));
    assert_eq!(memory.volume_last_dir("/mnt/usb"), Some("/mnt/usb/films".to_string()));
    assert!(a.select_dir(local("/mnt/usb/films"), &mut memory).is_some());
    assert!(a.navigate(local("/mnt/usb/films"), &mut memory).is_some());
}

#[test]
fn volumes_are_left_and_entered() {
    let mut memory = AppState::new();
    let mut a = App::new(UNIX, None, Some("/mnt/usb/films".to_string()), None);
    a.open_first_browser();
    match a.select_volume("/mnt/nas", &mut memory) {
        DirStep::Found(dir) => {
            assert_eq!(dir, "/mnt/nas");
            assert!(matches!(a.enter_volume(dir, &mut memory), Some(LoadRequest::ReadDir(p)) if p == "/mnt/nas"));
        }
        DirStep::Probe(_) => panic!("nothing was saved"),
    }
    assert_eq!(memory.volume_last_dir("/mnt/usb"), Some("/mnt/usb/films".to_string()));
    assert_eq!(load_last_dir(&memory, true), Some("/mnt/nas".to_string()));
    match a.select_volume("/mnt/usb", &mut memory) {
        DirStep::Probe(s) => assert_eq!(s.dir, "/mnt/usb/films"),
        DirStep::Found(_) => panic!("nothing is probed"),
    }
}

#[test]
fn playing_leaves_the_browser() {
    let mut memory = AppState::new();
    let mut a = App::new(UNIX, None, Some("/films".to_string()), None);
    a.open_first_browser();
    assert_eq!(a.play(local("/films/x/a.mp4"), &mut memory), "/films/x/a.mp4");
    assert!(a.browser.is_none());
    assert_eq!(a.panel_mode, PanelMode::Hidden);
    assert_eq!(load_last_dir(&memory, true), Some("/films/x".to_string()));
    assert_eq!(a.play(Location::Remote("http://h/a.mp4".to_string()), &mut memory), "http://h/a.mp4");
    assert_eq!(load_last_dir(&memory, true), Some("/films/x".to_string()));
}

#[test]
fn closing_panels_leads_to_the_control_bar() {
    let mut a = App::new(UNIX, None, Some("/films".to_string()), None);
    a.open_first_browser();
    a.close_browser();
    assert!(a.browser.is_none());
    assert_eq!(a.panel_mode, PanelMode::ControlBar);
    a.show_settings();
    assert_eq!(a.on_settings_actions(SettingsActions { close: true, changed: true }), None);
    assert_eq!(a.panel_mode, PanelMode::ControlBar);
    let mut b = app(Some("a.mp4"));
    let saved = b.on_settings_actions(SettingsActions { close: false, changed: true });
    assert_eq!(saved, Some(VideoMeta { settings: VideoSettings::new() }));
}

#[test]
fn menu_button_shows_and_hides() {
    let menu = ControlBarActions { menu_toggle: true, ..ControlBarActions::default() };
    let mut a = app(None);
    a.on_panel_actions(&menu, String::new());
    assert_eq!(a.panel_mode, PanelMode::Hidden);
    a.on_panel_actions(&menu, String::new());
    assert_eq!(a.panel_mode, PanelMode::ControlBar);
    let settings = ControlBarActions { show_settings: true, ..ControlBarActions::default() };
    a.on_panel_actions(&settings, String::new());
    assert_eq!(a.panel_mode, PanelMode::Settings);
    a.on_panel_actions(&menu, String::new());
    assert_eq!(a.panel_mode, PanelMode::ControlBar);
    let browse = ControlBarActions { show_browser: true, ..ControlBarActions::default() };
    assert!(a.on_panel_actions(&browse, "/home".to_string()).is_some());
    assert_eq!(a.panel_mode, PanelMode::Browser);
    a.on_panel_actions(&menu, String::new());
    assert_eq!(a.panel_mode, PanelMode::ControlBar);
    assert!(a.browser.is_some());
    assert!(shows_pointers(PanelMode::Browser));
    assert!(!shows_pointers(PanelMode::Hidden));
}

#[test]
fn steps_of_the_buttons() {
    let step = |prev, next| step_of(&ControlBarActions { prev, next, ..ControlBarActions::default() });
    assert_eq!(step(true, true), Some(-1));
    assert_eq!(step(false, true), Some(1));
    assert_eq!(step(false, false), None);
}

#[test]
fn sources_and_locations() {
    assert!(is_url("https://h/a"));
    assert!(!is_url("/http://h"));
    assert_eq!(source_display_name(UNIX, "http://h/v/My%20Film.mp4/"), "My Film.mp4");
    assert_eq!(source_display_name(UNIX, "/"), "");
    assert_eq!(location_to_source(source_to_location("http://h/a")), "http://h/a");
    assert!(matches!(source_to_location("/a"), Location::Local(_)));
    assert!(matches!(source_to_location("https://a"), Location::Remote(_)));
}

#[test]
fn neighbours_in_a_directory() {
    let item = |name: &str, is_dir: bool| DirItem {
        name: name.to_string(),
        path: format!("/films/{name}"),
        is_dir,
    };
    let items = vec![item("c.mp4", false), item("a.mkv", false), item("n.txt", false), item("b.M4V", false)];
    let step = |current: &str, delta: i32| adjacent_video(UNIX, current, &items, delta);
    assert_eq!(step("/films/a.mkv", 1), Some("/films/b.M4V".to_string()));
    assert_eq!(step("/films/c.mp4", 1), Some("/films/a.mkv".to_string()));
    assert_eq!(step("/films/a.mkv", -1), Some("/films/c.mp4".to_string()));
    assert_eq!(step("/films//a.mkv", 7), Some("/films/b.M4V".to_string()));
    assert_eq!(step("/films/n.txt", 1), None);
    assert_eq!(adjacent_video(UNIX, "/films/a.mkv", &vec![], 1), None);
    let next = step("/films/b.M4V", 1).unwrap();
    assert_eq!(step(&next, -1), Some("/films/b.M4V".to_string()));
}

#[test]
fn neighbours_in_a_remote_listing() {
    let remote = |u: &str| Location::Remote(u.to_string());
    let entries = vec![
        BrowserEntry::Parent,
        BrowserEntry::Dir("d".to_string(), remote("http://h/d/")),
        BrowserEntry::Video("a".to_string(), remote("http://h/a.mp4")),
        BrowserEntry::Video("b".to_string(), remote("http://h/b.mp4")),
    ];
    let step = |u: &str, delta: i32| adjacent_entry(UNIX, &remote(u), &entries, delta).map(|l| l.display());
    assert_eq!(step("http://h/a.mp4", 1), Some("http://h/b.mp4".to_string()));
    assert_eq!(step("http://h/b.mp4", 1), Some("http://h/a.mp4".to_string()));
    assert_eq!(step("http://h/a.mp4", -1), Some("http://h/b.mp4".to_string()));
    assert_eq!(step("http://h/d/", 1), None);
}

#[test]
fn neighbour_of_a_local_video_is_searched_in_its_folder() {
    let item = |name: &str, is_dir| DirItem {
        name: name.to_string(),
        path: format!("/films/{name}"),
        is_dir,
    };
    let a = app(Some("/films/b.mp4"));
    assert!(matches!(a.find_neighbour(1), NeighbourStep::ReadDir(d) if d == "/films"));
    let items = vec![item("c.mkv", false), item("a.webm", false), item("b.mp4", false), item("d", true)];
    assert_eq!(a.neighbour_in_dir(&items, 1).as_deref(), Some("/films/c.mkv"));
    assert_eq!(a.neighbour_in_dir(&items, -1).as_deref(), Some("/films/a.webm"));
    assert_eq!(a.neighbour_in_dir(&items, 2).as_deref(), Some("/films/a.webm"));
    assert!(matches!(app(None).find_neighbour(1), NeighbourStep::Nothing));
    assert_eq!(app(None).neighbour_in_dir(&items, 1), None);
}

#[test]
fn neighbour_of_a_remote_video_is_searched_in_its_listing() {
    let video = |name: &str| {
        BrowserEntry::Video(name.to_string(), Location::Remote(format!("http://host/films/{name}")))
    };
    let mut a = app(Some("http://host/films/b.mp4"));
    assert!(matches!(a.find_neighbour(1), NeighbourStep::Fetch(u) if u == "http://host/films/"));
    let entries = vec![BrowserEntry::Parent, video("a.mp4"), video("b.mp4"), video("c.mp4")];
    assert_eq!(a.neighbour_in_listing(&entries, 1).as_deref(), Some("http://host/films/c.mp4"));
    assert_eq!(a.neighbour_in_listing(&entries, -2).as_deref(), Some("http://host/films/c.mp4"));
    a.cache.store(&Location::Remote("http://host/films/".to_string()), &entries);
    assert!(matches!(a.find_neighbour(1), NeighbourStep::Play(u) if u == "http://host/films/c.mp4"));
    let gone = vec![BrowserEntry::Parent, video("a.mp4")];
    assert_eq!(a.neighbour_in_listing(&gone, 1), None);
}

#[test]
fn browser_waits_only_for_remote_listings() {
    let mut memory = AppState::new();
    let remote = |u: &str| Location::Remote(u.to_string());
    let mut a = app(Some("http://h/v/a.mp4"));
    let browse = ControlBarActions { show_browser: true, ..ControlBarActions::default() };
    assert!(matches!(a.on_panel_actions(&browse, "/home".to_string()), Some(LoadRequest::Fetch(_))));
    let b = a.browser.as_mut().unwrap();
    assert!(b.is_loading && b.is_waiting && b.needs_scroll_to_current);
    assert_eq!(b.current_video.as_ref().unwrap().display(), "http://h/v/a.mp4");
    b.needs_scroll_to_current = false;
    a.cache.store(&remote("http://h/"), &vec![BrowserEntry::Parent]);
    assert!(a.navigate(remote("http://h/"), &mut memory).is_none());
    let b = a.browser.as_mut().unwrap();
    assert!(!b.is_loading && !b.is_waiting && b.needs_scroll_to_current);
    b.poll_loading(Some(Ok(vec![])));
    assert_eq!(b.entries.len(), 1);
    b.needs_scroll_to_current = false;
    a.cache_loaded();
    assert_eq!(a.cache.lookup(&remote("http://h/")).unwrap().len(), 1);
    assert!(a.select_dir(local("/films"), &mut memory).is_some());
    let b = a.browser.as_ref().unwrap();
    assert!(!b.is_loading && !b.is_waiting && b.needs_scroll_to_current);
    assert_eq!(b.current_video.as_ref().unwrap().display(), "http://h/v/a.mp4");
}

#[test]
fn browser_opened_without_a_video_has_no_current_one() {
    let mut a = App::new(UNIX, None, Some("/films".to_string()), None);
    a.open_first_browser();
    let b = a.browser.as_ref().unwrap();
    assert!(b.current_video.is_none());
    assert!(!b.is_loading && !b.is_waiting && b.needs_scroll_to_current);
}

#[test]
fn whole_rounds_of_videos_lead_back() {
    let item = |name: &str| DirItem {
        name: name.to_string(),
        path: format!("/films/{name}"),
        is_dir: false,
    };
    let items = vec![item("c.mp4"), item("a.mkv"), item("n.txt"), item("b.M4V")];
    for delta in [0, 3, -3, 6, -9] {
        assert_eq!(adjacent_video(UNIX, "/films/b.M4V", &items, delta).as_deref(), Some("/films/b.M4V"));
    }
    let mut current = "/films/b.M4V".to_string();
    let mut seen = vec![];
    for _ in 0..3 {
        current = adjacent_video(UNIX, &current, &items, 1).unwrap();
        seen.push(current.clone());
    }
    assert_eq!(seen, vec!["/films/c.mp4", "/films/a.mkv", "/films/b.M4V"]);
    assert_eq!(adjacent_video(UNIX, "/films/gone.mp4", &items, 1), None);
}

#[test]
fn whole_rounds_of_rows_lead_back() {
    let remote = |u: &str| Location::Remote(u.to_string());
    let entries = vec![
        BrowserEntry::Parent,
        BrowserEntry::Video("a".to_string(), remote("http://h/a.mp4")),
        BrowserEntry::Video("b".to_string(), remote("http://h/b.mp4")),
    ];
    let step = |u: &str, delta: i32| adjacent_entry(UNIX, &remote(u), &entries, delta).map(|l| l.display());
    for delta in [0, 2, -2, 8] {
        assert_eq!(step("http://h/a.mp4", delta).as_deref(), Some("http://h/a.mp4"));
    }
    let next = step("http://h/a.mp4", 1).unwrap();
    assert_eq!(next, "http://h/b.mp4");
    assert_eq!(step(&next, 1).as_deref(), Some("http://h/a.mp4"));
}

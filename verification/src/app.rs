//! The app: which video is played, which panel is shown, and what the panels' actions do.

use vstd::prelude::*;

use crate::net::parent_url;
use crate::path::{parent, Platform};
use crate::player::Player;
use crate::source::{is_url, source_display_name, source_to_location};
use crate::text::text_pair;
use crate::ui::browser::{BrowserState, LoadRequest, Location};
use crate::ui::cache::FolderCache;
use crate::ui::control_bar::ControlBarActions;
use crate::ui::settings::{SettingsActions, VideoSettings};
use crate::video_meta::{
    resolve_dir_for_volume, save_last_dir, save_volume_last_dir, AppState, DirStep, VideoMeta,
};
use crate::volumes::volume_root_of;

verus! {

/// Which panel is shown.
#[derive(Clone, Copy, PartialEq, Eq, Structural, Debug)]
pub enum PanelMode {
    ControlBar,
    Browser,
    Settings,
    Hidden,
}

/// The largest start time in seconds that the video reader can be sent to.
pub const MAX_START_SECS: u64 = 1_844_674_407_370;

/// The app.
pub struct App {
    pub platform: Platform,
    pub player: Player,
    /// Current video source: a local file path or an http(s):// URL.
    pub video_source: Option<String>,
    pub browser: Option<BrowserState>,
    pub cache: FolderCache,
    /// Directory to show in the browser at startup; consumed on first use.
    pub initial_browser_dir: Option<String>,
    /// Where to start the first video, in microseconds; consumed on first use.
    pub start_us: Option<u64>,
    pub settings: VideoSettings,
    pub panel_mode: PanelMode,
}

/// The panel after the menu button: the control bar appears or disappears, and the other panels
/// give way to it.
pub open spec fn toggled_panel(mode: PanelMode) -> PanelMode {
    if mode == PanelMode::ControlBar {
        PanelMode::Hidden
    } else {
        PanelMode::ControlBar
    }
}

/// Where the browser opens: in the folder of the current video, or in the working directory
/// where there is no video or it has no folder.
pub open spec fn browse_start(
    platform: Platform,
    source: Option<Seq<char>>,
    working_dir: Seq<char>,
) -> crate::ui::browser::LocationView {
    match source {
        None => crate::ui::browser::LocationView::Local(working_dir),
        Some(s) => if crate::net::is_http(s) {
            crate::ui::browser::LocationView::Remote(crate::net::parent_of_url(s))
        } else {
            match crate::path::parent_of(platform, s) {
                Some(dir) => crate::ui::browser::LocationView::Local(dir),
                None => crate::ui::browser::LocationView::Local(working_dir),
            }
        },
    }
}

/// The location of an optional source.
pub open spec fn source_location(source: Option<Seq<char>>) -> Option<
    crate::ui::browser::LocationView,
> {
    match source {
        Some(s) => Some(crate::source::location_of(s)),
        None => None,
    }
}

/// What is remembered after browsing to a location: of a local one, that it is the last
/// directory, of all and of its volume.
pub open spec fn remembered(
    platform: Platform,
    memory: crate::video_meta::AppStateView,
    loc: crate::ui::browser::LocationView,
) -> crate::video_meta::AppStateView {
    match loc {
        crate::ui::browser::LocationView::Local(dir) => memory.with_last_dir(dir).with_volume_dir(
            crate::volumes::root_of(platform, dir),
            dir,
        ),
        crate::ui::browser::LocationView::Remote(_) => memory,
    }
}

/// The listing that the cache holds for a location.
pub open spec fn cached_rows(
    cache: FolderCache,
    loc: crate::ui::browser::LocationView,
) -> Option<Seq<crate::ui::browser::EntryView>> {
    if cache@.contains_key(loc.key(cache.platform)) {
        Some(cache@[loc.key(cache.platform)])
    } else {
        None
    }
}

/// `browser` is at `loc`, about to scroll to the current video: with the rows given, or with its
/// entries asked for, where it waits for a remote listing. With rows it waits for nothing.
pub open spec fn is_at(
    browser: BrowserState,
    request: Option<LoadRequest>,
    loc: crate::ui::browser::LocationView,
    rows: Option<Seq<crate::ui::browser::EntryView>>,
) -> bool {
    &&& browser.location@ == loc
    &&& browser.needs_scroll_to_current
    &&& browser.load_error is None
    &&& !browser.just_loaded
    &&& match rows {
        Some(rows) => {
            &&& request is None
            &&& crate::ui::browser::entry_views(browser.entries@) == rows
            &&& !browser.is_loading
            &&& !browser.is_waiting
        },
        None => {
            &&& crate::ui::browser::asks_for(request, loc)
            &&& browser.entries@.len() == 0
            &&& browser.is_loading == loc is Remote
            &&& browser.is_waiting == loc is Remote
        },
    }
}

/// `browser` is newly opened at `loc`, with `current` as the video that is playing.
pub open spec fn is_opened_at(
    browser: BrowserState,
    request: Option<LoadRequest>,
    loc: crate::ui::browser::LocationView,
    rows: Option<Seq<crate::ui::browser::EntryView>>,
    current: Option<crate::ui::browser::LocationView>,
) -> bool {
    &&& is_at(browser, request, loc, rows)
    &&& crate::ui::browser::location_view(browser.current_video) == current
}

/// `browser` has come to `loc` from where `before` was.
pub open spec fn has_gone_to(
    before: BrowserState,
    browser: BrowserState,
    request: Option<LoadRequest>,
    loc: crate::ui::browser::LocationView,
    rows: Option<Seq<crate::ui::browser::EntryView>>,
) -> bool {
    &&& is_at(browser, request, loc, rows)
    &&& browser.current_video == before.current_video
}

/// The first panel.
pub open spec fn first_panel(has_video: bool, has_dir: bool) -> PanelMode {
    if !has_video && has_dir {
        PanelMode::Browser
    } else {
        PanelMode::ControlBar
    }
}

/// Where to start the first video, in microseconds.
pub open spec fn start_of(start_secs: Option<u64>) -> Option<u64> {
    match start_secs {
        Some(secs) => if secs <= MAX_START_SECS {
            Some((secs * 1_000_000) as u64)
        } else {
            None
        },
        None => None,
    }
}

/// The settings for a video with this metadata, coming from one with the given settings.
pub open spec fn settings_for(meta: Option<VideoMeta>, last: VideoSettings) -> VideoSettings {
    match meta {
        Some(m) => m.settings,
        None => last,
    }
}

/// The settings to save for a video that has none.
pub open spec fn settings_to_save(meta: Option<VideoMeta>, last: VideoSettings) -> Option<
    VideoMeta,
> {
    match meta {
        Some(_) => None,
        None => Some(VideoMeta { settings: last }),
    }
}

/// What is remembered after a video has been played.
pub open spec fn remembered_playing(
    platform: Platform,
    memory: crate::video_meta::AppStateView,
    loc: crate::ui::browser::LocationView,
) -> crate::video_meta::AppStateView {
    match loc {
        crate::ui::browser::LocationView::Local(path) => match crate::path::parent_of(
            platform,
            path,
        ) {
            Some(dir) => memory.with_last_dir(dir),
            None => memory,
        },
        crate::ui::browser::LocationView::Remote(_) => memory,
    }
}

/// What is remembered when the browser leaves for another volume.
pub open spec fn remembered_leaving(
    platform: Platform,
    memory: crate::video_meta::AppStateView,
    loc: Option<crate::ui::browser::LocationView>,
) -> crate::video_meta::AppStateView {
    match loc {
        Some(crate::ui::browser::LocationView::Local(dir)) => memory.with_volume_dir(
            crate::volumes::root_of(platform, dir),
            dir,
        ),
        _ => memory,
    }
}

/// The panel after the actions of the control bar.
pub open spec fn panel_after(mode: PanelMode, actions: ControlBarActions) -> PanelMode {
    let shown = if actions.show_browser {
        PanelMode::Browser
    } else if actions.show_settings {
        PanelMode::Settings
    } else {
        mode
    };
    if actions.menu_toggle {
        toggled_panel(shown)
    } else {
        shown
    }
}

/// How many videos to step on.
pub open spec fn steps(actions: ControlBarActions) -> Option<i32> {
    if actions.prev {
        Some(-1i32)
    } else if actions.next {
        Some(1i32)
    } else {
        None
    }
}

/// The settings to save after the actions of the settings panel.
pub open spec fn settings_changed(
    actions: SettingsActions,
    settings: VideoSettings,
    has_video: bool,
) -> Option<VideoMeta> {
    if actions.changed && has_video {
        Some(VideoMeta { settings })
    } else {
        None
    }
}

/// Remembers a local location as the last directory.
fn remember(platform: Platform, memory: &mut AppState, loc: &Location)
    requires
        old(memory).wf(),
    ensures
        final(memory).wf(),
        final(memory)@ == remembered(platform, old(memory)@, loc@),
{
    if let Some(dir) = loc.as_local() {
        let root = volume_root_of(platform, dir);
        save_last_dir(memory, dir);
        save_volume_last_dir(memory, &root, dir);
    }
}

impl App {
    /// The player is sound, and the cache is for the same platform.
    pub open spec fn wf(self) -> bool {
        self.player.wf() && self.cache.platform == self.platform
    }

    /// The text of the current source.
    pub open spec fn source(self) -> Option<Seq<char>> {
        crate::video_meta::text_of(self.video_source)
    }

    /// The app at its start: with a directory to browse and no video it shows the browser,
    /// otherwise the control bar.
    pub fn new(
        platform: Platform,
        video_source: Option<String>,
        initial_browser_dir: Option<String>,
        start_secs: Option<u64>,
    ) -> (r: App)
        ensures
            r.wf(),
            r.platform == platform,
            r.source() == crate::video_meta::text_of(video_source),
            r.initial_browser_dir == initial_browser_dir,
            r.browser is None,
            r.cache@ == Map::<
                crate::ui::browser::LocationKey,
                Seq<crate::ui::browser::EntryView>,
            >::empty(),
            r.settings == (VideoSettings {
                mode: crate::ui::settings::VideoMode::Flat2D,
                proj: crate::ui::settings::Projection::Equirect,
                stereo: crate::ui::settings::StereoLayout::OneView,
                zoom_bits: crate::ui::settings::ONE_BITS,
            }),
            r.player.open_duration_us is None,
            r.panel_mode == first_panel(video_source is Some, initial_browser_dir is Some),
            r.start_us == start_of(start_secs),
            r.panel_mode == if video_source is None && initial_browser_dir is Some {
                PanelMode::Browser
            } else {
                PanelMode::ControlBar
            },
            match start_secs {
                Some(secs) => r.start_us == if secs <= MAX_START_SECS {
                    Some((secs * 1_000_000) as u64)
                } else {
                    None
                },
                None => r.start_us is None,
            },
    {
        let panel_mode = if video_source.is_none() && initial_browser_dir.is_some() {
            PanelMode::Browser
        } else {
            PanelMode::ControlBar
        };
        let start_us: Option<u64> = match start_secs {
            Some(secs) => if secs <= MAX_START_SECS {
                Some(secs * 1_000_000)
            } else {
                None
            },
            None => None,
        };
        App {
            platform,
            player: Player::new(),
            video_source,
            browser: None,
            cache: FolderCache::new(platform),
            initial_browser_dir,
            start_us,
            settings: VideoSettings::new(),
            panel_mode,
        }
    }

    // ── opening videos ──────────────────────────────────────────────────────

    /// Takes the metadata of the video that the app starts with: its settings, if it has any.
    pub fn on_first_meta(&mut self, meta: Option<VideoMeta>)
        ensures
            final(self).settings == settings_for(meta, old(self).settings),
            *final(self) == (App {
                settings: match meta {
                    Some(m) => m.settings,
                    None => old(self).settings,
                },
                ..*old(self)
            }),
    {
        if let Some(m) = meta {
            self.settings = m.settings;
        }
    }

    /// Closes the current video and takes the metadata of the one to play next. A video without
    /// settings inherits those of the last one; they are returned, to be saved for it.
    pub fn switch_video(&mut self, meta: Option<VideoMeta>) -> (r: Option<VideoMeta>)
        ensures
            final(self).settings == settings_for(meta, old(self).settings),
            r == settings_to_save(meta, old(self).settings),
            *final(self) == (App {
                settings: match meta {
                    Some(m) => m.settings,
                    None => old(self).settings,
                },
                player: Player { open_duration_us: None, ..old(self).player },
                ..*old(self)
            }),
            r == match meta {
                Some(_) => None,
                None => Some(VideoMeta { settings: old(self).settings }),
            },
    {
        self.player.open_duration_us = None;
        match meta {
            Some(m) => {
                self.settings = m.settings;
                None
            },
            None => Some(VideoMeta { settings: self.settings }),
        }
    }

    /// Takes what opening a video came to: its duration (0 if not known), or an error, which the
    /// control bar shows.
    pub fn on_opened(&mut self, source: String, result: Result<u64, String>)
        requires
            old(self).wf(),
        ensures
            final(self).wf(),
            final(self).source() == Some(source@),
            *final(self) == (App {
                video_source: final(self).video_source,
                player: final(self).player,
                panel_mode: final(self).panel_mode,
                ..*old(self)
            }),
            match result {
                Ok(duration) => {
                    &&& final(self).panel_mode == old(self).panel_mode
                    &&& final(self).player.control_bar.video_name@ == crate::source::name_of(
                        old(self).platform,
                        source@,
                    )
                    &&& final(self).player == (Player {
                        open_duration_us: Some(duration),
                        control_bar: crate::ui::control_bar::ControlBarState {
                            video_name: final(self).player.control_bar.video_name,
                            error: None,
                            is_playing: true,
                            current_us: 0,
                            duration_us: duration,
                            ..old(self).player.control_bar
                        },
                        ..old(self).player
                    })
                },
                Err(e) => {
                    &&& final(self).panel_mode == PanelMode::ControlBar
                    &&& crate::video_meta::text_of(final(self).player.control_bar.error) == Some(
                        "Can't play video: "@ + e@,
                    )
                    &&& final(self).player == (Player {
                        control_bar: crate::ui::control_bar::ControlBarState {
                            error: final(self).player.control_bar.error,
                            ..old(self).player.control_bar
                        },
                        ..old(self).player
                    })
                },
            },
    {
        match result {
            Err(e) => {
                self.player.control_bar.error = Some(text_pair("Can't play video: ", &e));
                self.panel_mode = PanelMode::ControlBar;
            },
            Ok(duration) => {
                self.player.control_bar.error = None;
                self.player.control_bar.video_name = source_display_name(self.platform, &source);
                self.player.control_bar.duration_us = duration;
                self.player.control_bar.current_us = 0;
                self.player.control_bar.is_playing = true;
                self.player.open_duration_us = Some(duration);
            },
        }
        self.video_source = Some(source);
    }

    /// Seeks to the start time that was asked for, once.
    pub fn take_start_seek(&mut self, now_ns: u64) -> (r: Option<u64>)
        requires
            old(self).wf(),
        ensures
            final(self).wf(),
            *final(self) == (App {
                start_us: None,
                player: match old(self).start_us {
                    Some(us) => old(self).player.sought(us as int, now_ns),
                    None => old(self).player,
                },
                ..*old(self)
            }),
            r == if old(self).player.can_seek() {
                old(self).start_us
            } else {
                None
            },
    {
        let start = self.start_us;
        self.start_us = None;
        match start {
            Some(us) => self.player.seek_to(us, now_ns),
            None => None,
        }
    }

    // ── browser ─────────────────────────────────────────────────────────────

    fn current_location(&self) -> (r: Option<Location>)
        ensures
            crate::ui::browser::location_view(r) == source_location(self.source()),
    {
        match &self.video_source {
            Some(s) => Some(source_to_location(s)),
            None => None,
        }
    }

    /// Opens the browser at the directory that the app starts with, if there is one.
    pub fn open_first_browser(&mut self) -> (r: Option<LoadRequest>)
        ensures
            final(self).initial_browser_dir is None,
            *final(self) == (App {
                initial_browser_dir: None,
                browser: final(self).browser,
                ..*old(self)
            }),
            match old(self).initial_browser_dir {
                Some(dir) => final(self).browser matches Some(b) && is_opened_at(
                    b,
                    r,
                    crate::ui::browser::LocationView::Local(dir@),
                    None,
                    source_location(old(self).source()),
                ),
                None => r is None && final(self).browser == old(self).browser,
            },
    {
        match self.initial_browser_dir.take() {
            Some(dir) => {
                let current = self.current_location();
                let (browser, request) = BrowserState::new(Location::Local(dir), current, None);
                self.browser = Some(browser);
                request
            },
            None => None,
        }
    }

    /// Closes the browser.
    pub fn close_browser(&mut self)
        ensures
            *final(self) == (App {
                browser: None,
                panel_mode: PanelMode::ControlBar,
                ..*old(self)
            }),
    {
        self.browser = None;
        self.panel_mode = PanelMode::ControlBar;
    }

    /// Takes the browser elsewhere.
    fn go_to(
        &mut self,
        loc: Location,
        cached: Option<Vec<crate::ui::browser::BrowserEntry>>,
    ) -> (r: Option<LoadRequest>)
        ensures
            *final(self) == (App { browser: final(self).browser, ..*old(self) }),
            match old(self).browser {
                Some(before) => final(self).browser matches Some(b) && has_gone_to(
                    before,
                    b,
                    r,
                    loc@,
                    crate::ui::cache::optional_rows(cached),
                ),
                None => final(self).browser is None && r is None,
            },
    {
        match self.browser.take() {
            Some(browser) => {
                let mut browser = browser;
                let request = browser.navigate_to(loc, cached);
                self.browser = Some(browser);
                request
            },
            None => None,
        }
    }

    /// Goes up in the browser. The listing may come from the cache.
    pub fn navigate(&mut self, loc: Location, memory: &mut AppState) -> (r: Option<LoadRequest>)
        requires
            old(self).wf(),
            old(memory).wf(),
        ensures
            final(self).wf(),
            final(memory).wf(),
            final(memory)@ == remembered(old(self).platform, old(memory)@, loc@),
            *final(self) == (App { browser: final(self).browser, ..*old(self) }),
            match old(self).browser {
                Some(before) => final(self).browser matches Some(b) && has_gone_to(
                    before,
                    b,
                    r,
                    loc@,
                    cached_rows(old(self).cache, loc@),
                ),
                None => final(self).browser is None && r is None,
            },
    {
        remember(self.platform, memory, &loc);
        let cached = self.cache.lookup(&loc);
        self.go_to(loc, cached)
    }

    /// Goes to a folder that was clicked. Its listing is read afresh.
    pub fn select_dir(&mut self, loc: Location, memory: &mut AppState) -> (r: Option<LoadRequest>)
        requires
            old(self).wf(),
            old(memory).wf(),
        ensures
            final(self).wf(),
            final(memory).wf(),
            final(memory)@ == remembered(old(self).platform, old(memory)@, loc@),
            final(self).cache@ == old(self).cache@.remove(loc@.key(old(self).platform)),
            *final(self) == (App {
                browser: final(self).browser,
                cache: final(self).cache,
                ..*old(self)
            }),
            match old(self).browser {
                Some(before) => final(self).browser matches Some(b) && has_gone_to(
                    before,
                    b,
                    r,
                    loc@,
                    None,
                ),
                None => final(self).browser is None && r is None,
            },
    {
        remember(self.platform, memory, &loc);
        self.cache.invalidate(&loc);
        self.go_to(loc, None)
    }

    /// Begins to go to a volume: remembers where the browser is on its own volume, and searches
    /// the directory to go to.
    pub fn select_volume(&self, volume_root: &str, memory: &mut AppState) -> (r: DirStep)
        requires
            old(memory).wf(),
        ensures
            final(memory).wf(),
            final(memory)@ == remembered_leaving(
                self.platform,
                old(memory)@,
                match self.browser {
                    Some(b) => Some(b.location@),
                    None => None,
                },
            ),
            final(memory)@ == match self.browser {
                Some(b) => match b.location@ {
                    crate::ui::browser::LocationView::Local(dir) => old(memory)@.with_volume_dir(
                        crate::volumes::root_of(self.platform, dir),
                        dir,
                    ),
                    crate::ui::browser::LocationView::Remote(_) => old(memory)@,
                },
                None => old(memory)@,
            },
            match r {
                DirStep::Probe(s) => s.platform == self.platform && s.root@ == volume_root@ && Some(
                    s.dir@,
                ) == final(memory)@.volume_dir(volume_root@),
                DirStep::Found(dir) => final(memory)@.volume_dir(volume_root@) is None && dir@
                    == volume_root@,
            },
    {
        if let Some(browser) = &self.browser {
            if let Some(dir) = browser.location.as_local() {
                let root = volume_root_of(self.platform, dir);
                save_volume_last_dir(memory, &root, dir);
            }
        }
        resolve_dir_for_volume(self.platform, memory, volume_root)
    }

    /// Goes to the directory that was found on a volume.
    pub fn enter_volume(&mut self, dir: String, memory: &mut AppState) -> (r: Option<LoadRequest>)
        requires
            old(self).wf(),
            old(memory).wf(),
        ensures
            final(self).wf(),
            final(memory).wf(),
            final(memory)@ == old(memory)@.with_last_dir(dir@),
            *final(self) == (App { browser: final(self).browser, ..*old(self) }),
            match old(self).browser {
                Some(before) => final(self).browser matches Some(b) && has_gone_to(
                    before,
                    b,
                    r,
                    crate::ui::browser::LocationView::Local(dir@),
                    None,
                ),
                None => final(self).browser is None && r is None,
            },
    {
        save_last_dir(memory, &dir);
        self.go_to(Location::Local(dir), None)
    }

    /// Leaves the browser to play a video. The directory of a local one is remembered. Returns
    /// the source to play.
    pub fn play(&mut self, loc: Location, memory: &mut AppState) -> (r: String)
        requires
            old(memory).wf(),
        ensures
            final(memory).wf(),
            final(memory)@ == remembered_playing(old(self).platform, old(memory)@, loc@),
            final(memory)@ == match loc@ {
                crate::ui::browser::LocationView::Local(path) => match crate::path::parent_of(
                    old(self).platform,
                    path,
                ) {
                    Some(dir) => old(memory)@.with_last_dir(dir),
                    None => old(memory)@,
                },
                crate::ui::browser::LocationView::Remote(_) => old(memory)@,
            },
            *final(self) == (App { browser: None, panel_mode: PanelMode::Hidden, ..*old(self) }),
            r@ == loc@.text(),
    {
        if let Some(path) = loc.as_local() {
            if let Some(dir) = parent(self.platform, path) {
                save_last_dir(memory, &dir);
            }
        }
        self.browser = None;
        self.panel_mode = PanelMode::Hidden;
        crate::source::location_to_source(loc)
    }

    /// Puts a listing that has just been loaded into the cache.
    pub fn cache_loaded(&mut self)
        requires
            old(self).wf(),
        ensures
            final(self).wf(),
            match old(self).browser {
                Some(b) if b.just_loaded => {
                    &&& final(self).cache@ == old(self).cache@.insert(
                        b.location@.key(old(self).platform),
                        crate::ui::browser::entry_views(b.entries@),
                    )
                    &&& *final(self) == (App {
                        cache: final(self).cache,
                        browser: Some(BrowserState { just_loaded: false, ..b }),
                        ..*old(self)
                    })
                },
                _ => *final(self) == *old(self),
            },
    {
        match self.browser.take() {
            Some(browser) => {
                let mut browser = browser;
                if browser.just_loaded {
                    self.cache.store(&browser.location, &browser.entries);
                    browser.just_loaded = false;
                }
                self.browser = Some(browser);
            },
            None => {},
        }
    }

    // ── settings ────────────────────────────────────────────────────────────

    /// Takes the actions of the settings panel. Changed settings are returned, to be saved for
    /// the current video.
    pub fn on_settings_actions(&mut self, actions: SettingsActions) -> (r: Option<VideoMeta>)
        ensures
            *final(self) == (App {
                panel_mode: if actions.close {
                    PanelMode::ControlBar
                } else {
                    old(self).panel_mode
                },
                ..*old(self)
            }),
            r == settings_changed(actions, old(self).settings, old(self).video_source is Some),
            r == if actions.changed && old(self).video_source is Some {
                Some(VideoMeta { settings: old(self).settings })
            } else {
                None
            },
    {
        if actions.close {
            self.panel_mode = PanelMode::ControlBar;
        }
        if actions.changed && self.video_source.is_some() {
            Some(VideoMeta { settings: self.settings })
        } else {
            None
        }
    }

    // ── control bar ─────────────────────────────────────────────────────────

    /// Shows the settings panel.
    pub fn show_settings(&mut self)
        ensures
            *final(self) == (App { panel_mode: PanelMode::Settings, ..*old(self) }),
    {
        self.panel_mode = PanelMode::Settings;
    }

    /// Shows the browser: the one that is open, or a new one in the folder of the current video.
    pub fn show_browser(&mut self, working_dir: String) -> (r: Option<LoadRequest>)
        requires
            old(self).wf(),
        ensures
            final(self).wf(),
            *final(self) == (App {
                panel_mode: PanelMode::Browser,
                browser: final(self).browser,
                ..*old(self)
            }),
            match old(self).browser {
                Some(b) => final(self).browser == Some(b) && r is None,
                None => final(self).browser matches Some(b) && is_opened_at(
                    b,
                    r,
                    browse_start(old(self).platform, old(self).source(), working_dir@),
                    cached_rows(
                        old(self).cache,
                        browse_start(old(self).platform, old(self).source(), working_dir@),
                    ),
                    source_location(old(self).source()),
                ),
            },
    {
        self.panel_mode = PanelMode::Browser;
        if self.browser.is_some() {
            return None;
        }
        let start = match &self.video_source {
            None => Location::Local(working_dir),
            Some(s) => if is_url(s) {
                Location::Remote(parent_url(s))
            } else {
                match parent(self.platform, s) {
                    Some(dir) => Location::Local(dir),
                    None => Location::Local(working_dir),
                }
            },
        };
        let current = self.current_location();
        let cached = self.cache.lookup(&start);
        let (browser, request) = BrowserState::new(start, current, cached);
        self.browser = Some(browser);
        request
    }

    /// Takes the actions of the control bar that concern panels: the settings or the browser are
    /// shown unless they are shown already, then the menu button is heeded.
    pub fn on_panel_actions(&mut self, actions: &ControlBarActions, working_dir: String) -> (r:
        Option<LoadRequest>)
        requires
            old(self).wf(),
        ensures
            final(self).wf(),
            *final(self) == (App {
                panel_mode: final(self).panel_mode,
                browser: final(self).browser,
                ..*old(self)
            }),
            final(self).panel_mode == panel_after(old(self).panel_mode, *actions),
            ({
                let shown = if actions.show_browser {
                    PanelMode::Browser
                } else if actions.show_settings {
                    PanelMode::Settings
                } else {
                    old(self).panel_mode
                };
                final(self).panel_mode == if actions.menu_toggle {
                    toggled_panel(shown)
                } else {
                    shown
                }
            }),
            ({
                let opens = actions.show_browser && (actions.show_settings || old(self).panel_mode
                    != PanelMode::Browser) && old(self).browser is None;
                let start = browse_start(old(self).platform, old(self).source(), working_dir@);
                if opens {
                    final(self).browser matches Some(b) && is_opened_at(
                        b,
                        r,
                        start,
                        cached_rows(old(self).cache, start),
                        source_location(old(self).source()),
                    )
                } else {
                    final(self).browser == old(self).browser && r is None
                }
            }),
    {
        if actions.show_settings && self.panel_mode != PanelMode::Settings {
            self.show_settings();
        }
        let request = if actions.show_browser && self.panel_mode != PanelMode::Browser {
            self.show_browser(working_dir)
        } else {
            None
        };
        if actions.menu_toggle {
            self.panel_mode = match self.panel_mode {
                PanelMode::Hidden => PanelMode::ControlBar,
                PanelMode::ControlBar => PanelMode::Hidden,
                PanelMode::Settings => PanelMode::ControlBar,
                PanelMode::Browser => PanelMode::ControlBar,
            };
        }
        request
    }
}

/// What is needed to find the video before or after the current one.
pub enum NeighbourStep {
    /// There is none.
    Nothing,
    /// Read this local directory.
    ReadDir(String),
    /// List this remote directory.
    Fetch(String),
    /// Play this source.
    Play(String),
}

/// `step` begins to find the video `delta` steps on: a local directory is read; a remote listing
/// is taken from the cache, or fetched.
pub open spec fn begins_search(
    step: NeighbourStep,
    platform: Platform,
    source: Option<Seq<char>>,
    cache: FolderCache,
    delta: int,
) -> bool {
    match source {
        None => step is Nothing,
        Some(s) => if crate::net::is_http(s) {
            let folder = crate::net::parent_of_url(s);
            match cached_rows(cache, crate::ui::browser::LocationView::Remote(folder)) {
                Some(rows) => match crate::source::neighbour_row(
                    platform,
                    crate::source::location_of(s),
                    rows,
                    delta,
                ) {
                    Some(loc) => step matches NeighbourStep::Play(p) && p@ == loc.text(),
                    None => step is Nothing,
                },
                None => step matches NeighbourStep::Fetch(u) && u@ == folder,
            }
        } else {
            match crate::path::parent_of(platform, s) {
                Some(dir) => step matches NeighbourStep::ReadDir(d) && d@ == dir,
                None => step is Nothing,
            }
        },
    }
}

impl App {
    /// Begins to find the video `delta` steps from the current one.
    pub fn find_neighbour(&self, delta: i32) -> (r: NeighbourStep)
        requires
            self.wf(),
        ensures
            begins_search(r, self.platform, self.source(), self.cache, delta as int),
    {
        let source = match &self.video_source {
            None => {
                return NeighbourStep::Nothing;
            },
            Some(s) => s,
        };
        if !is_url(source) {
            return match parent(self.platform, source) {
                Some(dir) => NeighbourStep::ReadDir(dir),
                None => NeighbourStep::Nothing,
            };
        }
        let folder = Location::Remote(parent_url(source));
        match self.cache.lookup(&folder) {
            Some(entries) => match self.neighbour_in_listing(&entries, delta) {
                Some(next) => NeighbourStep::Play(next),
                None => NeighbourStep::Nothing,
            },
            None => NeighbourStep::Fetch(crate::source::location_to_source(folder)),
        }
    }

    /// The video `delta` steps from the current one in the local directory that was read.
    pub fn neighbour_in_dir(&self, items: &Vec<crate::entry::DirItem>, delta: i32) -> (r: Option<
        String,
    >)
        ensures
            crate::video_meta::text_of(r) == match self.source() {
                Some(s) => crate::source::neighbour(
                    self.platform,
                    s,
                    crate::entry::dir_views(items@),
                    delta as int,
                ),
                None => None,
            },
    {
        match &self.video_source {
            Some(s) => crate::source::adjacent_video(self.platform, s, items, delta),
            None => None,
        }
    }

    /// The video `delta` steps from the current one in a listing.
    pub fn neighbour_in_listing(
        &self,
        entries: &Vec<crate::ui::browser::BrowserEntry>,
        delta: i32,
    ) -> (r: Option<String>)
        ensures
            crate::video_meta::text_of(r) == match self.source() {
                Some(s) => match crate::source::neighbour_row(
                    self.platform,
                    crate::source::location_of(s),
                    crate::ui::browser::entry_views(entries@),
                    delta as int,
                ) {
                    Some(loc) => Some(loc.text()),
                    None => None,
                },
                None => None,
            },
    {
        match self.current_location() {
            Some(current) => match crate::source::adjacent_entry(
                self.platform,
                &current,
                entries,
                delta,
            ) {
                Some(loc) => Some(crate::source::location_to_source(loc)),
                None => None,
            },
            None => None,
        }
    }
}

/// How many videos to step on: one back for the previous button, one on for the next button.
pub fn step_of(actions: &ControlBarActions) -> (r: Option<i32>)
    ensures
        r == steps(*actions),
        r == if actions.prev {
            Some(-1i32)
        } else if actions.next {
            Some(1i32)
        } else {
            None
        },
{
    if actions.prev {
        Some(-1)
    } else if actions.next {
        Some(1)
    } else {
        None
    }
}

/// Whether the pointers are drawn: only while a panel is shown.
pub fn shows_pointers(mode: PanelMode) -> (r: bool)
    ensures
        r <==> mode != PanelMode::Hidden,
{
    mode != PanelMode::Hidden
}

// ── laws ────────────────────────────────────────────────────────────────────

/// A listing that was asked for before the browser went elsewhere and found its rows in the cache
/// is not taken when it arrives: the rows stay those of the new location, and nothing is cached
/// for it.
pub proof fn law_late_listing_is_not_taken(
    before: BrowserState,
    gone: BrowserState,
    request: Option<LoadRequest>,
    loc: crate::ui::browser::LocationView,
    rows: Seq<crate::ui::browser::EntryView>,
    reply: Option<Result<Vec<crate::ui::browser::BrowserEntry>, String>>,
    after: BrowserState,
)
    requires
        has_gone_to(before, gone, request, loc, Some(rows)),
        crate::ui::browser::is_polled(gone, reply, after),
    ensures
        after.location@ == loc,
        crate::ui::browser::entry_views(after.entries@) == rows,
        !after.just_loaded,
        after == gone,
{
}

/// The menu button pressed twice brings the control bar back to where it was, and from the other
/// panels leads to no panel.
pub proof fn law_menu_button_twice(mode: PanelMode)
    ensures
        mode == PanelMode::ControlBar || mode == PanelMode::Hidden ==> toggled_panel(
            toggled_panel(mode),
        ) == mode,
        mode == PanelMode::Browser || mode == PanelMode::Settings ==> toggled_panel(mode)
            == PanelMode::ControlBar && toggled_panel(toggled_panel(mode)) == PanelMode::Hidden,
{
}

/// The browser opens in the folder that the neighbours of the current video are taken from, and
/// going there is remembered.
pub proof fn law_browser_opens_in_the_folder_of_the_video(
    platform: Platform,
    source: Seq<char>,
    working_dir: Seq<char>,
)
    ensures
        ({
            let loc = crate::source::location_of(source);
            match loc.parent(platform) {
                Some(up) => browse_start(platform, Some(source), working_dir) == up,
                None => true,
            }
        }),
{
}

/// After browsing to a local directory, the next start without an argument opens the browser
/// there while it exists.
pub proof fn law_next_start_is_where_browsing_ended(
    platform: Platform,
    memory: crate::video_meta::AppStateView,
    dir: Seq<char>,
    probe: crate::cli::StartProbe,
)
    requires
        crate::video_meta::text_of(probe.last_dir) == remembered(
            platform,
            memory,
            crate::ui::browser::LocationView::Local(dir),
        ).loaded_last_dir(true),
    ensures
        crate::cli::startup_of(platform, None, probe).browser_dir == Some(dir),
        crate::cli::startup_of(platform, None, probe).video_source is None,
{
}

/// The browser is the first panel where there is a directory to browse and no video to play.
pub proof fn law_first_panel(has_video: bool, has_dir: bool)
    ensures
        has_video ==> first_panel(has_video, has_dir) == PanelMode::ControlBar,
        !has_dir ==> first_panel(has_video, has_dir) == PanelMode::ControlBar,
        !has_video && has_dir ==> first_panel(has_video, has_dir) == PanelMode::Browser,
{
}

/// A start time is kept to the microsecond wherever it can be counted in tenths of a microsecond in
/// 64 bits, and dropped beyond.
pub proof fn law_start_times_are_kept(secs: u64)
    ensures
        secs * 10_000_000 <= u64::MAX ==> (start_of(Some(secs)) matches Some(us) && us == secs
            * 1_000_000),
        secs * 10_000_000 > u64::MAX ==> start_of(Some(secs)) is None,
        start_of(None) is None,
{
}

/// A video with settings of its own gets them, and nothing is saved for it; a video without inherits
/// those of the last one, and they become its own: played again, whatever came between, it has the
/// same.
pub proof fn law_settings_are_inherited_once(
    meta: VideoMeta,
    last: VideoSettings,
    other: VideoSettings,
)
    ensures
        settings_for(Some(meta), last) == meta.settings,
        settings_to_save(Some(meta), last) is None,
        settings_for(None, last) == last,
        settings_to_save(None, last) is Some,
        settings_for(settings_to_save(None, last), other) == settings_for(None, last),
{
}

/// Playing a local video makes its directory the last one, and changes nothing else; playing a
/// remote one changes nothing.
pub proof fn law_played_directory_is_remembered(
    platform: Platform,
    memory: crate::video_meta::AppStateView,
    path: Seq<char>,
    volume: Seq<char>,
)
    ensures
        crate::path::parent_of(platform, path) is Some ==> remembered_playing(
            platform,
            memory,
            crate::ui::browser::LocationView::Local(path),
        ).loaded_last_dir(true) == crate::path::parent_of(platform, path),
        crate::path::parent_of(platform, path) is None ==> remembered_playing(
            platform,
            memory,
            crate::ui::browser::LocationView::Local(path),
        ) == memory,
        remembered_playing(
            platform,
            memory,
            crate::ui::browser::LocationView::Local(path),
        ).volume_dir(volume) == memory.volume_dir(volume),
        remembered_playing(platform, memory, crate::ui::browser::LocationView::Remote(path))
            == memory,
{
}

/// Browsing to a local directory makes it the last one, of all and of its volume, and leaves the
/// other volumes as they were; browsing to a URL changes nothing.
pub proof fn law_browsed_directory_is_remembered(
    platform: Platform,
    memory: crate::video_meta::AppStateView,
    dir: Seq<char>,
    volume: Seq<char>,
)
    ensures
        ({
            let loc = crate::ui::browser::LocationView::Local(dir);
            let after = remembered(platform, memory, loc);
            &&& after.loaded_last_dir(true) == Some(dir)
            &&& after.volume_dir(crate::volumes::root_of(platform, dir)) == Some(dir)
            &&& volume != crate::volumes::root_of(platform, dir) ==> after.volume_dir(volume)
                == memory.volume_dir(volume)
        }),
        remembered(platform, memory, crate::ui::browser::LocationView::Remote(dir)) == memory,
{
}

/// Leaving a volume and coming back leads to the directory that was left; going there does not
/// change what was the last directory of all.
pub proof fn law_coming_back_to_a_volume(
    platform: Platform,
    memory: crate::video_meta::AppStateView,
    dir: Seq<char>,
    volume: Seq<char>,
)
    ensures
        ({
            let left = remembered_leaving(
                platform,
                memory,
                Some(crate::ui::browser::LocationView::Local(dir)),
            );
            &&& left.volume_dir(crate::volumes::root_of(platform, dir)) == Some(dir)
            &&& volume != crate::volumes::root_of(platform, dir) ==> left.volume_dir(volume)
                == memory.volume_dir(volume)
            &&& left.last_dir == memory.last_dir
        }),
        remembered_leaving(
            platform,
            memory,
            Some(crate::ui::browser::LocationView::Remote(dir)),
        ) == memory,
        remembered_leaving(platform, memory, None) == memory,
{
}

/// A button shows its own panel from wherever it is pressed, the browser before the settings;
/// without a button the panel stays, and the menu button alone shows or hides the control bar.
pub proof fn law_buttons_show_their_panels(mode: PanelMode, actions: ControlBarActions)
    ensures
        !actions.menu_toggle && actions.show_browser ==> panel_after(mode, actions)
            == PanelMode::Browser,
        !actions.menu_toggle && !actions.show_browser && actions.show_settings ==> panel_after(
            mode,
            actions,
        ) == PanelMode::Settings,
        !actions.menu_toggle && !actions.show_browser && !actions.show_settings ==> panel_after(
            mode,
            actions,
        ) == mode,
        actions.menu_toggle && !actions.show_browser && !actions.show_settings ==> (panel_after(
            mode,
            actions,
        ) == PanelMode::Hidden <==> mode == PanelMode::ControlBar),
        actions.menu_toggle ==> panel_after(mode, actions) == PanelMode::ControlBar || panel_after(
            mode,
            actions,
        ) == PanelMode::Hidden,
        actions.menu_toggle && (actions.show_browser || actions.show_settings) ==> panel_after(
            mode,
            actions,
        ) == PanelMode::ControlBar,
{
}

/// The previous button leads one back and the next button one on; the previous button goes first.
pub proof fn law_steps_of_the_buttons(actions: ControlBarActions)
    ensures
        actions.prev ==> steps(actions) == Some(-1i32),
        !actions.prev && actions.next ==> steps(actions) == Some(1i32),
        !actions.prev && !actions.next ==> steps(actions) is None,
{
}

/// The browser opens in the working directory where nothing is played, and else in the folder of
/// what is played: of a URL at the URL of its folder, of a file in its directory.
pub proof fn law_where_the_browser_opens(
    platform: Platform,
    scheme: Seq<char>,
    authority: Seq<char>,
    path: Seq<char>,
    name: Seq<char>,
    local: Seq<char>,
    working_dir: Seq<char>,
)
    requires
        crate::net::laws::are_url_parts(scheme, authority, path),
        authority.len() > 0,
        path.len() > 0,
        path.last() == '/',
        name.len() > 0,
        crate::net::laws::is_without(name, '/'),
        crate::net::is_http(crate::net::laws::url_text(scheme, authority, path) + name),
        !crate::net::is_http(local),
    ensures
        browse_start(platform, None, working_dir) == crate::ui::browser::LocationView::Local(
            working_dir,
        ),
        browse_start(
            platform,
            Some(crate::net::laws::url_text(scheme, authority, path) + name),
            working_dir,
        ) == crate::ui::browser::LocationView::Remote(
            crate::net::laws::url_text(scheme, authority, path),
        ),
        browse_start(platform, Some(local), working_dir) is Local,
        crate::path::parent_of(platform, local) matches Some(dir) ==> browse_start(
            platform,
            Some(local),
            working_dir,
        ).text() == dir,
        crate::path::parent_of(platform, local) is None ==> browse_start(
            platform,
            Some(local),
            working_dir,
        ).text() == working_dir,
{
    crate::net::laws::law_parent_url_is_the_folder(scheme, authority, path, name);
}

/// The neighbours of a file are looked for in its directory, those of a URL in its folder; without
/// a video there are none, and a folder whose listing is known is not fetched again.
pub proof fn law_where_neighbours_are_looked_for(
    step: NeighbourStep,
    platform: Platform,
    source: Seq<char>,
    cache: FolderCache,
    delta: int,
)
    requires
        begins_search(step, platform, Some(source), cache, delta),
    ensures
        !crate::net::is_http(source) ==> (match step {
            NeighbourStep::ReadDir(dir) => Some(dir@) == crate::path::parent_of(platform, source),
            NeighbourStep::Nothing => crate::path::parent_of(platform, source) is None,
            _ => false,
        }),
        crate::net::is_http(source) ==> (match step {
            NeighbourStep::Fetch(url) => url@ == crate::net::parent_of_url(source) && cached_rows(
                cache,
                crate::ui::browser::LocationView::Remote(crate::net::parent_of_url(source)),
            ) is None,
            NeighbourStep::ReadDir(_) => false,
            _ => cached_rows(
                cache,
                crate::ui::browser::LocationView::Remote(crate::net::parent_of_url(source)),
            ) is Some,
        }),
{
}

/// Changed settings are saved for the video that is played, whether or not the panel closes; without
/// a video or a change nothing is saved.
pub proof fn law_changed_settings_are_saved(actions: SettingsActions, settings: VideoSettings)
    ensures
        settings_changed(actions, settings, true) is Some <==> actions.changed,
        settings_changed(actions, settings, true) matches Some(meta) ==> meta.settings == settings,
        settings_changed(actions, settings, false) is None,
{
}

/// A browser that opens with a known listing shows it at once; otherwise it asks for the listing of
/// the place it is at, and waits for it where it is remote. Either way it knows what is played, and
/// looks for it in the list.
pub proof fn law_opened_browser_shows_its_place(
    browser: BrowserState,
    request: Option<LoadRequest>,
    loc: crate::ui::browser::LocationView,
    rows: Option<Seq<crate::ui::browser::EntryView>>,
    source: Seq<char>,
)
    requires
        is_opened_at(browser, request, loc, rows, source_location(Some(source))),
    ensures
        browser.location@ == loc,
        browser.needs_scroll_to_current,
        browser.current_video matches Some(video) && video@.text() == source && (video@ is Remote
            <==> crate::net::is_http(source)),
        browser.is_loading <==> rows is None && loc is Remote,
        browser.is_waiting == browser.is_loading,
        rows matches Some(shown) ==> crate::ui::browser::entry_views(browser.entries@) == shown
            && request is None,
        rows is None ==> match request {
            Some(LoadRequest::ReadDir(dir)) => loc == crate::ui::browser::LocationView::Local(dir@),
            Some(LoadRequest::Fetch(url)) => loc == crate::ui::browser::LocationView::Remote(url@),
            None => false,
        },
        source_location(None) is None,
{
}

/// A browser that goes elsewhere still knows what is played, looks for it in the new list, and shows
/// no error of the place it left.
pub proof fn law_browser_keeps_the_current_video(
    before: BrowserState,
    browser: BrowserState,
    request: Option<LoadRequest>,
    loc: crate::ui::browser::LocationView,
    rows: Option<Seq<crate::ui::browser::EntryView>>,
)
    requires
        has_gone_to(before, browser, request, loc, rows),
    ensures
        browser.location@ == loc,
        crate::ui::browser::location_view(browser.current_video)
            == crate::ui::browser::location_view(before.current_video),
        browser.needs_scroll_to_current,
        browser.load_error is None,
        rows is None ==> browser.entries@.len() == 0 && request is Some,
{
}

/// The rows that are known for a location are those that were stored last for it; once they are
/// forgotten none are known.
pub proof fn law_known_rows(
    before: FolderCache,
    stored: FolderCache,
    forgotten: FolderCache,
    loc: crate::ui::browser::LocationView,
    rows: Seq<crate::ui::browser::EntryView>,
)
    requires
        stored@ == before@.insert(loc.key(stored.platform), rows),
        forgotten@ == before@.remove(loc.key(forgotten.platform)),
    ensures
        cached_rows(stored, loc) == Some(rows),
        cached_rows(forgotten, loc) is None,
{
}

} // verus!

//! The file browser: where it is, what it lists, and what a click means.

use vstd::prelude::*;

use crate::entry::{sort_by_name, DirItem};
use crate::net::{is_video_extension, parent_url, RemoteItem};
use crate::path::{extension, same_path, Platform};
use crate::text::{chars_of, same_str, same_text, string_of, text_pair, trim_end};

verus! {

// ── Location ────────────────────────────────────────────────────────────────

/// A location in the browser: either a local filesystem path or a remote URL.
pub enum Location {
    Local(String),
    /// An `http://` or `https://` URL (file or directory).
    Remote(String),
}

/// A location in the browser.
#[verifier::ext_equal]
pub enum LocationView {
    Local(Seq<char>),
    Remote(Seq<char>),
}

impl View for Location {
    type V = LocationView;

    open spec fn view(&self) -> LocationView {
        match self {
            Location::Local(p) => LocationView::Local(p@),
            Location::Remote(u) => LocationView::Remote(u@),
        }
    }
}

/// The view of an optional location.
pub open spec fn location_view(l: Option<Location>) -> Option<LocationView> {
    match l {
        Some(l) => Some(l@),
        None => None,
    }
}

impl LocationView {
    /// The text of the location.
    pub open spec fn text(self) -> Seq<char> {
        match self {
            LocationView::Local(p) => p,
            LocationView::Remote(u) => u,
        }
    }

    /// Parent location, or none at a root.
    pub open spec fn parent(self, platform: Platform) -> Option<LocationView> {
        match self {
            LocationView::Local(p) => match crate::path::parent_of(platform, p) {
                Some(up) => Some(LocationView::Local(up)),
                None => None,
            },
            LocationView::Remote(u) => {
                let up = crate::net::parent_of_url(u);
                if crate::text::trimmed_end(up, '/') == crate::text::trimmed_end(u, '/') {
                    None
                } else {
                    Some(LocationView::Remote(up))
                }
            },
        }
    }

    /// What tells locations apart: the parts of a path, the text of a URL.
    pub open spec fn key(self, platform: Platform) -> LocationKey {
        match self {
            LocationView::Local(p) => LocationKey::Local(crate::path::parts_of(platform, p)),
            LocationView::Remote(u) => LocationKey::Remote(u),
        }
    }
}

/// What tells locations apart.
#[verifier::ext_equal]
pub enum LocationKey {
    Local(crate::path::PathParts),
    Remote(Seq<char>),
}

impl Location {
    /// Human-readable string shown in the header bar.
    pub fn display(&self) -> (r: String)
        ensures
            r@ == self@.text(),
    {
        match self {
            Location::Local(p) => p.clone(),
            Location::Remote(u) => u.clone(),
        }
    }

    /// Parent location, or `None` if already at root.
    pub fn parent(&self, platform: Platform) -> (r: Option<Location>)
        ensures
            location_view(r) == self@.parent(platform),
    {
        match self {
            Location::Local(p) => match crate::path::parent(platform, p) {
                Some(up) => Some(Location::Local(up)),
                None => None,
            },
            Location::Remote(u) => {
                let up = parent_url(u);
                let a = trim_end(&chars_of(&up), '/');
                let b = trim_end(&chars_of(u), '/');
                if same_text(&a, &b) {
                    None
                } else {
                    Some(Location::Remote(up))
                }
            },
        }
    }

    /// The path of a local location.
    pub fn as_local(&self) -> (r: Option<&String>)
        ensures
            match r {
                Some(p) => self@ == LocationView::Local(p@),
                None => self is Remote,
            },
    {
        match self {
            Location::Local(p) => Some(p),
            Location::Remote(_) => None,
        }
    }

    /// The URL of a remote location.
    pub fn as_remote(&self) -> (r: Option<&str>)
        ensures
            match r {
                Some(u) => self@ == LocationView::Remote(u@),
                None => self is Local,
            },
    {
        match self {
            Location::Local(_) => None,
            Location::Remote(u) => Some(u.as_str()),
        }
    }

    /// A copy of the location.
    pub fn duplicate(&self) -> (r: Location)
        ensures
            r@ == self@,
    {
        match self {
            Location::Local(p) => Location::Local(p.clone()),
            Location::Remote(u) => Location::Remote(u.clone()),
        }
    }

    /// Whether two locations are the same.
    pub fn is_same(&self, platform: Platform, other: &Location) -> (r: bool)
        ensures
            r == (self@.key(platform) == other@.key(platform)),
    {
        match (self, other) {
            (Location::Local(a), Location::Local(b)) => same_path(platform, a, b),
            (Location::Remote(a), Location::Remote(b)) => same_str(a, b),
            _ => false,
        }
    }
}

// ── BrowserEntry ────────────────────────────────────────────────────────────

/// A row of the browser.
pub enum BrowserEntry {
    /// The row that leads to the parent location.
    Parent,
    Dir(String, Location),
    Video(String, Location),
}

/// A row of the browser.
#[verifier::ext_equal]
pub enum EntryView {
    Parent,
    Dir(Seq<char>, LocationView),
    Video(Seq<char>, LocationView),
}

impl View for BrowserEntry {
    type V = EntryView;

    open spec fn view(&self) -> EntryView {
        match self {
            BrowserEntry::Parent => EntryView::Parent,
            BrowserEntry::Dir(name, loc) => EntryView::Dir(name@, loc@),
            BrowserEntry::Video(name, loc) => EntryView::Video(name@, loc@),
        }
    }
}

/// The views of a list of rows.
pub open spec fn entry_views(entries: Seq<BrowserEntry>) -> Seq<EntryView> {
    entries.map_values(|e: BrowserEntry| e@)
}

impl BrowserEntry {
    /// A copy of the row.
    pub fn duplicate(&self) -> (r: BrowserEntry)
        ensures
            r@ == self@,
    {
        match self {
            BrowserEntry::Parent => BrowserEntry::Parent,
            BrowserEntry::Dir(name, loc) => BrowserEntry::Dir(name.clone(), loc.duplicate()),
            BrowserEntry::Video(name, loc) => BrowserEntry::Video(name.clone(), loc.duplicate()),
        }
    }
}

/// Copies of the rows of a list.
pub fn duplicate_entries(entries: &Vec<BrowserEntry>) -> (r: Vec<BrowserEntry>)
    ensures
        entry_views(r@) == entry_views(entries@),
{
    let mut out: Vec<BrowserEntry> = Vec::new();
    let mut i: usize = 0;
    while i < entries.len()
        invariant
            i <= entries@.len(),
            out@.len() == i,
            forall|j: int| 0 <= j < i ==> (#[trigger] out@[j])@ == entries@[j]@,
        decreases entries@.len() - i,
    {
        out.push(entries[i].duplicate());
        i = i + 1;
    }
    assert(entry_views(out@) =~= entry_views(entries@));
    out
}

/// The row of a remote item.
pub open spec fn remote_entry(item: crate::net::RemoteItemView) -> EntryView {
    if item.is_dir {
        EntryView::Dir(item.name, LocationView::Remote(item.url))
    } else {
        EntryView::Video(item.name, LocationView::Remote(item.url))
    }
}

/// The rows of a remote listing: the parent first, then the items in their order.
pub open spec fn remote_rows(items: Seq<crate::net::RemoteItemView>) -> Seq<EntryView> {
    seq![EntryView::Parent] + items.map_values(
        |item: crate::net::RemoteItemView| remote_entry(item),
    )
}

/// The rows of a remote HTTP listing.
pub fn remote_entries(items: Vec<RemoteItem>) -> (r: Vec<BrowserEntry>)
    ensures
        entry_views(r@) == remote_rows(crate::net::item_views(items@)),
{
    let mut entries: Vec<BrowserEntry> = Vec::new();
    entries.push(BrowserEntry::Parent);
    let ghost views = crate::net::item_views(items@);
    let mut i: usize = 0;
    while i < items.len()
        invariant
            i <= items@.len(),
            views == crate::net::item_views(items@),
            entries@.len() == i + 1,
            entries@[0]@ == EntryView::Parent,
            forall|j: int| 0 <= j < i ==> (#[trigger] entries@[j + 1])@ == remote_entry(views[j]),
        decreases items@.len() - i,
    {
        let loc = Location::Remote(items[i].url.clone());
        if items[i].is_dir {
            entries.push(BrowserEntry::Dir(items[i].name.clone(), loc));
        } else {
            entries.push(BrowserEntry::Video(items[i].name.clone(), loc));
        }
        i = i + 1;
    }
    assert forall|k: int| 0 <= k < entries@.len() implies entry_views(entries@)[k] == remote_rows(
        views,
    )[k] by {
        if k > 0 {
            assert(entries@[(k - 1) + 1]@ == remote_entry(views[k - 1]));
        }
    }
    assert(entry_views(entries@) =~= remote_rows(views));
    entries
}

/// The name does not begin with a dot.
pub open spec fn is_visible(name: Seq<char>) -> bool {
    name.len() == 0 || name[0] != '.'
}

/// The extension of the path is that of a kind of video.
pub open spec fn is_video_path(platform: Platform, path: Seq<char>) -> bool {
    crate::path::extension_of(platform, path) matches Some(ext) && crate::net::is_video_ext(ext)
}

/// Whether the extension of a path is that of a kind of video.
pub fn has_video_extension(platform: Platform, path: &str) -> (r: bool)
    ensures
        r == is_video_path(platform, path@),
{
    match extension(platform, path) {
        Some(ext) => is_video_extension(&ext),
        None => false,
    }
}

/// The directories that a listing shows.
pub open spec fn visible_dirs(items: Seq<crate::entry::DirItemView>) -> Seq<
    crate::entry::DirItemView,
> {
    items.filter(|item: crate::entry::DirItemView| is_visible(item.name) && item.is_dir)
}

/// The videos that a listing shows.
pub open spec fn visible_videos(
    platform: Platform,
    items: Seq<crate::entry::DirItemView>,
) -> Seq<crate::entry::DirItemView> {
    items.filter(
        |item: crate::entry::DirItemView|
            is_visible(item.name) && !item.is_dir && is_video_path(platform, item.path),
    )
}

/// The rows of a local directory: the parent first, then the directories by name, then the
/// videos by name. What begins with a dot is not shown.
pub open spec fn local_rows(
    platform: Platform,
    items: Seq<crate::entry::DirItemView>,
) -> Seq<EntryView> {
    seq![EntryView::Parent] + crate::entry::sorted_by_name(visible_dirs(items)).map_values(
        |d: crate::entry::DirItemView| EntryView::Dir(d.name, LocationView::Local(d.path)),
    ) + crate::entry::sorted_by_name(visible_videos(platform, items)).map_values(
        |v: crate::entry::DirItemView| EntryView::Video(v.name, LocationView::Local(v.path)),
    )
}

/// The rows of a local directory with the given entries.
pub fn load_local_entries(platform: Platform, items: &Vec<DirItem>) -> (r: Vec<BrowserEntry>)
    ensures
        entry_views(r@) == local_rows(platform, crate::entry::dir_views(items@)),
{
    let mut dirs: Vec<DirItem> = Vec::new();
    let mut videos: Vec<DirItem> = Vec::new();
    let mut i: usize = 0;
    let ghost views = crate::entry::dir_views(items@);
    proof {
        reveal(Seq::filter);
        assert(crate::entry::dir_views(dirs@) =~= visible_dirs(views.take(0)));
        assert(crate::entry::dir_views(videos@) =~= visible_videos(platform, views.take(0)));
    }
    while i < items.len()
        invariant
            i <= items@.len(),
            views == crate::entry::dir_views(items@),
            crate::entry::dir_views(dirs@) == visible_dirs(views.take(i as int)),
            crate::entry::dir_views(videos@) == visible_videos(platform, views.take(i as int)),
        decreases items@.len() - i,
    {
        proof {
            reveal(Seq::filter);
            assert(views.take(i + 1).drop_last() =~= views.take(i as int));
        }
        let item = &items[i];
        let name = chars_of(&item.name);
        let ghost d = dirs@;
        let ghost v = videos@;
        if name.len() == 0 || name[0] != '.' {
            if item.is_dir {
                dirs.push(item.duplicate());
                assert(crate::entry::dir_views(dirs@) =~= crate::entry::dir_views(d).push(
                    views[i as int],
                ));
            } else if has_video_extension(platform, &item.path) {
                videos.push(item.duplicate());
                assert(crate::entry::dir_views(videos@) =~= crate::entry::dir_views(v).push(
                    views[i as int],
                ));
            }
        }
        i = i + 1;
    }
    assert(views.take(i as int) =~= views);
    let dirs = sort_by_name(&dirs);
    let videos = sort_by_name(&videos);
    let mut entries: Vec<BrowserEntry> = Vec::new();
    entries.push(BrowserEntry::Parent);
    let ghost dir_rows = crate::entry::dir_views(dirs@).map_values(
        |d: crate::entry::DirItemView| EntryView::Dir(d.name, LocationView::Local(d.path)),
    );
    let ghost video_rows = crate::entry::dir_views(videos@).map_values(
        |v: crate::entry::DirItemView| EntryView::Video(v.name, LocationView::Local(v.path)),
    );
    let ghost first = seq![EntryView::Parent];
    assert(entry_views(entries@) =~= first + dir_rows.take(0));
    let mut i: usize = 0;
    while i < dirs.len()
        invariant
            i <= dirs@.len(),
            dir_rows == crate::entry::dir_views(dirs@).map_values(
                |d: crate::entry::DirItemView| EntryView::Dir(d.name, LocationView::Local(d.path)),
            ),
            entry_views(entries@) == first + dir_rows.take(i as int),
        decreases dirs@.len() - i,
    {
        let ghost before = entries@;
        entries.push(BrowserEntry::Dir(dirs[i].name.clone(), Location::Local(dirs[i].path.clone())));
        assert(entry_views(entries@) =~= entry_views(before).push(dir_rows[i as int]));
        assert(entry_views(entries@) =~= first + dir_rows.take(i + 1));
        i = i + 1;
    }
    assert(dir_rows.take(i as int) =~= dir_rows);
    let ghost second = first + dir_rows;
    assert(entry_views(entries@) =~= second + video_rows.take(0));
    let mut i: usize = 0;
    while i < videos.len()
        invariant
            i <= videos@.len(),
            video_rows == crate::entry::dir_views(videos@).map_values(
                |v: crate::entry::DirItemView|
                    EntryView::Video(v.name, LocationView::Local(v.path)),
            ),
            entry_views(entries@) == second + video_rows.take(i as int),
        decreases videos@.len() - i,
    {
        let ghost before = entries@;
        entries.push(
            BrowserEntry::Video(videos[i].name.clone(), Location::Local(videos[i].path.clone())),
        );
        assert(entry_views(entries@) =~= entry_views(before).push(video_rows[i as int]));
        assert(entry_views(entries@) =~= second + video_rows.take(i + 1));
        i = i + 1;
    }
    assert(video_rows.take(i as int) =~= video_rows);
    entries
}

// ── BrowserState ────────────────────────────────────────────────────────────

/// The state of the browser.
pub struct BrowserState {
    pub location: Location,
    pub entries: Vec<BrowserEntry>,
    pub current_video: Option<Location>,
    /// Set to true after creation or navigation; causes the list to scroll to the current video
    /// on the next draw.
    pub needs_scroll_to_current: bool,
    /// Set to true when entries are freshly loaded (not served from cache). The app reads this
    /// to update the folder cache, then clears it.
    pub just_loaded: bool,
    /// A remote listing has been asked for and its reply has not been taken yet.
    pub is_waiting: bool,
    pub is_loading: bool,
    pub load_error: Option<String>,
}

/// Entries that the app has to fetch for the browser.
pub enum LoadRequest {
    /// Read this local directory, now.
    ReadDir(String),
    /// List this remote directory in the background. A reply that is still outstanding is no
    /// longer wanted.
    Fetch(String),
}

/// `request` asks for the entries at `loc`.
pub open spec fn asks_for(request: Option<LoadRequest>, loc: LocationView) -> bool {
    match loc {
        LocationView::Local(p) => request matches Some(LoadRequest::ReadDir(q)) && q@ == p,
        LocationView::Remote(u) => request matches Some(LoadRequest::Fetch(q)) && q@ == u,
    }
}

/// Actions the browser UI wants the app to perform.
pub struct BrowserActions {
    pub play: Option<Location>,
    /// Navigate via ".." (go up); the destination may be served from cache.
    pub navigate: Option<Location>,
    /// The user explicitly clicked a folder in the list: its cache entry is invalid.
    pub select_dir: Option<Location>,
    pub close: bool,
    /// The root path of the volume the user selected in the volumes popup. The app resolves
    /// which directory to navigate to within that volume.
    pub select_volume: Option<String>,
}

/// Actions the browser UI wants the app to perform.
#[verifier::ext_equal]
pub struct BrowserActionsView {
    pub play: Option<LocationView>,
    pub navigate: Option<LocationView>,
    pub select_dir: Option<LocationView>,
    pub close: bool,
    pub select_volume: Option<Seq<char>>,
}

impl View for BrowserActions {
    type V = BrowserActionsView;

    open spec fn view(&self) -> BrowserActionsView {
        BrowserActionsView {
            play: location_view(self.play),
            navigate: location_view(self.navigate),
            select_dir: location_view(self.select_dir),
            close: self.close,
            select_volume: crate::video_meta::text_of(self.select_volume),
        }
    }
}

impl Default for BrowserActions {
    fn default() -> (r: BrowserActions)
        ensures
            r@ == (BrowserActionsView {
                play: None,
                navigate: None,
                select_dir: None,
                close: false,
                select_volume: None,
            }),
    {
        BrowserActions {
            play: None,
            navigate: None,
            select_dir: None,
            close: false,
            select_volume: None,
        }
    }
}

/// What the browser shows below its header.
pub enum BrowserPage {
    Loading,
    Error(String),
    List,
}

/// A row as it is drawn.
pub struct Row {
    pub text: String,
    /// The row is the video that is playing.
    pub is_current: bool,
}

/// The text of a row.
pub open spec fn row_text(entry: EntryView) -> Seq<char> {
    match entry {
        EntryView::Parent => ".."@,
        EntryView::Dir(name, _) => "📁  "@ + name,
        EntryView::Video(name, _) => name,
    }
}

/// The row is the given video.
pub open spec fn is_row_of(
    platform: Platform,
    entry: EntryView,
    video: Option<LocationView>,
) -> bool {
    match (entry, video) {
        (EntryView::Video(_, loc), Some(v)) => loc.key(platform) == v.key(platform),
        _ => false,
    }
}

/// A browser that was waiting for a listing has taken the reply to it, if one has arrived; any
/// other browser is unchanged.
pub open spec fn is_polled(
    before: BrowserState,
    reply: Option<Result<Vec<BrowserEntry>, String>>,
    after: BrowserState,
) -> bool {
    &&& !before.is_waiting || reply is None ==> after == before
    &&& before.is_waiting && reply is Some ==> {
        &&& !after.is_waiting && !after.is_loading
        &&& after.location == before.location
        &&& after.current_video == before.current_video
        &&& after.needs_scroll_to_current == before.needs_scroll_to_current
        &&& match reply->0 {
            Ok(entries) => after.entries == entries && after.load_error is None
                && after.just_loaded,
            Err(e) => after.entries == before.entries && after.load_error == Some(e)
                && after.just_loaded == before.just_loaded,
        }
    }
}

/// What activating a row adds to the actions.
pub open spec fn activated(
    platform: Platform,
    browser: BrowserState,
    row: EntryView,
    actions: BrowserActionsView,
) -> BrowserActionsView {
    if browser.is_loading || browser.load_error is Some {
        actions
    } else {
        match row {
            EntryView::Parent => match browser.location@.parent(platform) {
                Some(up) => BrowserActionsView { navigate: Some(up), ..actions },
                None => actions,
            },
            EntryView::Dir(_, loc) => BrowserActionsView { select_dir: Some(loc), ..actions },
            EntryView::Video(_, loc) => BrowserActionsView { play: Some(loc), ..actions },
        }
    }
}

impl BrowserState {
    /// Opens the browser at `location`. With entries from the folder cache in `cached` nothing
    /// is read; otherwise the entries are asked for.
    pub fn new(
        location: Location,
        current_video: Option<Location>,
        cached: Option<Vec<BrowserEntry>>,
    ) -> (r: (BrowserState, Option<LoadRequest>))
        ensures
            r.0.location@ == location@,
            location_view(r.0.current_video) == location_view(current_video),
            r.0.needs_scroll_to_current,
            !r.0.just_loaded,
            r.0.load_error is None,
            match cached {
                Some(entries) => entry_views(r.0.entries@) == entry_views(entries@) && r.1 is None
                    && !r.0.is_loading && !r.0.is_waiting,
                None => r.0.entries@.len() == 0 && asks_for(r.1, location@) && r.0.is_loading
                    == r.0.location is Remote && r.0.is_waiting == r.0.location is Remote,
            },
    {
        let mut s = BrowserState {
            location,
            entries: Vec::new(),
            current_video,
            needs_scroll_to_current: true,
            just_loaded: false,
            is_waiting: false,
            is_loading: false,
            load_error: None,
        };
        match cached {
            Some(entries) => {
                s.entries = entries;
                (s, None)
            },
            None => {
                let request = s.start_load();
                (s, Some(request))
            },
        }
    }

    /// Navigates to `location`. With cached entries nothing is read, and a listing that is being
    /// loaded is no longer waited for; with `None` the entries are always read fresh.
    pub fn navigate_to(&mut self, location: Location, cached: Option<Vec<BrowserEntry>>) -> (r:
        Option<LoadRequest>)
        ensures
            final(self).location@ == location@,
            final(self).current_video == old(self).current_video,
            final(self).needs_scroll_to_current,
            !final(self).just_loaded,
            final(self).load_error is None,
            match cached {
                Some(entries) => entry_views(final(self).entries@) == entry_views(entries@)
                    && r is None && !final(self).is_loading && !final(self).is_waiting,
                None => final(self).entries@.len() == 0 && asks_for(r, location@)
                    && final(self).is_loading == final(self).location is Remote
                    && final(self).is_waiting == final(self).location is Remote,
            },
    {
        self.location = location;
        self.entries = Vec::new();
        self.load_error = None;
        self.needs_scroll_to_current = true;
        self.just_loaded = false;
        match cached {
            Some(entries) => {
                self.entries = entries;
                self.is_loading = false;
                self.is_waiting = false;
                None
            },
            None => Some(self.start_load()),
        }
    }

    /// Call once per frame. Takes the reply to a remote listing, if one has arrived.
    pub fn poll_loading(&mut self, reply: Option<Result<Vec<BrowserEntry>, String>>)
        ensures
            is_polled(*old(self), reply, *final(self)),
    {
        if !self.is_waiting {
            return;
        }
        match reply {
            None => {},
            Some(result) => {
                self.is_waiting = false;
                self.is_loading = false;
                match result {
                    Ok(entries) => {
                        self.entries = entries;
                        self.load_error = None;
                        self.just_loaded = true;
                    },
                    Err(e) => {
                        self.load_error = Some(e);
                    },
                }
            },
        }
    }

    /// Asks for the entries of the current location.
    fn start_load(&mut self) -> (r: LoadRequest)
        ensures
            asks_for(Some(r), old(self).location@),
            *final(self) == (BrowserState {
                is_loading: old(self).location is Remote,
                is_waiting: old(self).location is Remote,
                ..*old(self)
            }),
    {
        match &self.location {
            Location::Local(path) => {
                let request = LoadRequest::ReadDir(path.clone());
                self.is_loading = false;
                self.is_waiting = false;
                request
            },
            Location::Remote(url) => {
                let request = LoadRequest::Fetch(url.clone());
                self.is_loading = true;
                self.is_waiting = true;
                request
            },
        }
    }

    /// Takes the entries of the local directory that was asked for.
    pub fn on_dir_read(&mut self, platform: Platform, items: &Vec<DirItem>)
        ensures
            entry_views(final(self).entries@) == local_rows(
                platform,
                crate::entry::dir_views(items@),
            ),
            *final(self) == (BrowserState {
                entries: final(self).entries,
                just_loaded: true,
                ..*old(self)
            }),
    {
        self.entries = load_local_entries(platform, items);
        self.just_loaded = true;
    }

    /// What is shown below the header.
    pub fn page(&self) -> (r: BrowserPage)
        ensures
            r is Loading <==> self.is_loading,
            r is Error <==> !self.is_loading && self.load_error is Some,
            r matches BrowserPage::Error(text) ==> text@ == "Error: "@ + self.load_error->0@,
            r is List <==> !self.is_loading && self.load_error is None,
    {
        if self.is_loading {
            return BrowserPage::Loading;
        }
        match &self.load_error {
            Some(e) => BrowserPage::Error(text_pair("Error: ", e)),
            None => BrowserPage::List,
        }
    }

    /// A row of the list.
    pub fn row(&self, platform: Platform, i: usize) -> (r: Row)
        requires
            i < self.entries@.len(),
        ensures
            r.text@ == row_text(self.entries@[i as int]@),
            r.is_current == is_row_of(
                platform,
                self.entries@[i as int]@,
                location_view(self.current_video),
            ),
    {
        let text = match &self.entries[i] {
            BrowserEntry::Parent => string_of(&chars_of("..")),
            BrowserEntry::Dir(name, _) => text_pair("📁  ", name),
            BrowserEntry::Video(name, _) => name.clone(),
        };
        Row { text, is_current: self.is_current(platform, i) }
    }

    fn is_current(&self, platform: Platform, i: usize) -> (r: bool)
        requires
            i < self.entries@.len(),
        ensures
            r == is_row_of(
                platform,
                self.entries@[i as int]@,
                location_view(self.current_video),
            ),
    {
        match (&self.entries[i], &self.current_video) {
            (BrowserEntry::Video(_, loc), Some(video)) => loc.is_same(platform, video),
            _ => false,
        }
    }

    /// The row to scroll to, once after the browser has been opened: that of the current video,
    /// if it is listed.
    pub fn take_scroll_row(&mut self, platform: Platform) -> (r: Option<usize>)
        ensures
            *final(self) == (BrowserState { needs_scroll_to_current: false, ..*old(self) }),
            match r {
                Some(i) => old(self).needs_scroll_to_current && i < old(self).entries@.len()
                    && is_row_of(
                    platform,
                    old(self).entries@[i as int]@,
                    location_view(old(self).current_video),
                ) && forall|j: int|
                    0 <= j < i ==> !is_row_of(
                        platform,
                        (#[trigger] old(self).entries@[j])@,
                        location_view(old(self).current_video),
                    ),
                None => old(self).needs_scroll_to_current ==> forall|j: int|
                    0 <= j < old(self).entries@.len() ==> !is_row_of(
                        platform,
                        (#[trigger] old(self).entries@[j])@,
                        location_view(old(self).current_video),
                    ),
            },
    {
        let wanted = self.needs_scroll_to_current;
        self.needs_scroll_to_current = false;
        if !wanted {
            return None;
        }
        let mut i: usize = 0;
        while i < self.entries.len()
            invariant
                i <= self.entries@.len(),
                self.entries == old(self).entries,
                self.current_video == old(self).current_video,
                *self == (BrowserState { needs_scroll_to_current: false, ..*old(self) }),
                old(self).needs_scroll_to_current,
                forall|j: int|
                    0 <= j < i ==> !is_row_of(
                        platform,
                        (#[trigger] self.entries@[j])@,
                        location_view(self.current_video),
                    ),
            decreases self.entries@.len() - i,
        {
            if self.is_current(platform, i) {
                return Some(i);
            }
            i = i + 1;
        }
        None
    }

    /// Notes what activating a row means: a video is played, a folder is selected, and the first
    /// row leads up, unless there is nothing above. While the list is not shown, because it is
    /// loading or could not be loaded, no row can be activated.
    pub fn activate(&self, platform: Platform, i: usize, actions: &mut BrowserActions)
        requires
            i < self.entries@.len(),
        ensures
            final(actions)@ == activated(platform, *self, self.entries@[i as int]@, old(actions)@),
            final(actions)@ == if self.is_loading || self.load_error is Some {
                old(actions)@
            } else {
                match self.entries@[i as int]@ {
                    EntryView::Parent => match self.location@.parent(platform) {
                        Some(up) => BrowserActionsView { navigate: Some(up), ..old(actions)@ },
                        None => old(actions)@,
                    },
                    EntryView::Dir(_, loc) => BrowserActionsView {
                        select_dir: Some(loc),
                        ..old(actions)@
                    },
                    EntryView::Video(_, loc) => BrowserActionsView {
                        play: Some(loc),
                        ..old(actions)@
                    },
                }
            },
    {
        if self.is_loading || self.load_error.is_some() {
            return;
        }
        match &self.entries[i] {
            BrowserEntry::Parent => {
                let up = self.location.parent(platform);
                if up.is_some() {
                    actions.navigate = up;
                }
            },
            BrowserEntry::Dir(_, loc) => {
                actions.select_dir = Some(loc.duplicate());
            },
            BrowserEntry::Video(_, loc) => {
                actions.play = Some(loc.duplicate());
            },
        }
    }
}

// ── laws ────────────────────────────────────────────────────────────────────

/// Every listing begins with the row that leads up, and has no other such row.
pub proof fn law_listings_begin_with_the_parent(
    platform: Platform,
    local: Seq<crate::entry::DirItemView>,
    remote: Seq<crate::net::RemoteItemView>,
    k: int,
)
    requires
        0 <= k,
    ensures
        local_rows(platform, local)[0] == EntryView::Parent,
        0 < k < local_rows(platform, local).len() ==> local_rows(platform, local)[k]
            != EntryView::Parent,
        remote_rows(remote)[0] == EntryView::Parent,
        0 < k < remote_rows(remote).len() ==> remote_rows(remote)[k] != EntryView::Parent,
{
}

/// In a local listing no folder comes after a video.
pub proof fn law_folders_come_before_videos(
    platform: Platform,
    items: Seq<crate::entry::DirItemView>,
    i: int,
    j: int,
)
    requires
        0 <= i < j < local_rows(platform, items).len(),
    ensures
        !(local_rows(platform, items)[i] is Video && local_rows(platform, items)[j] is Dir),
{
}

/// A local listing shows every visible folder and every visible video, and nothing else.
pub proof fn law_listing_shows_folders_and_videos(
    platform: Platform,
    items: Seq<crate::entry::DirItemView>,
    item: crate::entry::DirItemView,
)
    ensures
        local_rows(platform, items).contains(
            EntryView::Dir(item.name, LocationView::Local(item.path)),
        ) <==> exists|k: int|
            0 <= k < items.len() && (#[trigger] items[k]).name == item.name && items[k].path
                == item.path && is_visible(item.name) && items[k].is_dir,
        local_rows(platform, items).contains(
            EntryView::Video(item.name, LocationView::Local(item.path)),
        ) <==> exists|k: int|
            0 <= k < items.len() && (#[trigger] items[k]).name == item.name && items[k].path
                == item.path && is_visible(item.name) && !items[k].is_dir && is_video_path(
                platform,
                item.path,
            ),
{
    let dirs = visible_dirs(items);
    let videos = visible_videos(platform, items);
    let dir = crate::entry::DirItemView { is_dir: true, ..item };
    let video = crate::entry::DirItemView { is_dir: false, ..item };
    let rows = local_rows(platform, items);
    let dir_row = EntryView::Dir(item.name, LocationView::Local(item.path));
    let video_row = EntryView::Video(item.name, LocationView::Local(item.path));
    lemma_filter_contains(
        items,
        |i: crate::entry::DirItemView| is_visible(i.name) && i.is_dir,
        dir,
    );
    lemma_filter_contains(
        items,
        |i: crate::entry::DirItemView|
            is_visible(i.name) && !i.is_dir && is_video_path(platform, i.path),
        video,
    );
    crate::entry::law_sorting_keeps_the_entries(dirs, dir);
    crate::entry::law_sorting_keeps_the_entries(videos, video);
    let sd = crate::entry::sorted_by_name(dirs);
    let sv = crate::entry::sorted_by_name(videos);
    assert forall|i: int| 0 <= i < sd.len() implies #[trigger] rows[1 + i] == EntryView::Dir(
        sd[i].name,
        LocationView::Local(sd[i].path),
    ) by {}
    assert forall|i: int| 0 <= i < sv.len() implies #[trigger] rows[1 + sd.len() + i]
        == EntryView::Video(sv[i].name, LocationView::Local(sv[i].path)) by {}
    if dirs.contains(dir) {
        let a = choose|a: int| 0 <= a < sd.len() && sd[a] == dir;
        assert(rows[1 + a] == dir_row);
    }
    if videos.contains(video) {
        let a = choose|a: int| 0 <= a < sv.len() && sv[a] == video;
        assert(rows[1 + sd.len() + a] == video_row);
    }
    if rows.contains(dir_row) {
        let a = choose|a: int| 0 <= a < rows.len() && rows[a] == dir_row;
        let i = a - 1;
        assert(rows[1 + i] == dir_row);
        lemma_filter_contains(
            items,
            |i: crate::entry::DirItemView| is_visible(i.name) && i.is_dir,
            sd[i],
        );
        crate::entry::law_sorting_keeps_the_entries(dirs, sd[i]);
        assert(sd.contains(sd[i]));
        assert(sd[i] == dir);
    }
    if rows.contains(video_row) {
        let a = choose|a: int| 0 <= a < rows.len() && rows[a] == video_row;
        let i = a - 1 - sd.len();
        assert(rows[1 + sd.len() + i] == video_row);
        lemma_filter_contains(
            items,
            |i: crate::entry::DirItemView|
                is_visible(i.name) && !i.is_dir && is_video_path(platform, i.path),
            sv[i],
        );
        crate::entry::law_sorting_keeps_the_entries(videos, sv[i]);
        assert(sv.contains(sv[i]));
        assert(sv[i] == video);
    }
}

pub proof fn lemma_filter_contains(
    items: Seq<crate::entry::DirItemView>,
    keep: spec_fn(crate::entry::DirItemView) -> bool,
    item: crate::entry::DirItemView,
)
    ensures
        items.filter(keep).contains(item) <==> items.contains(item) && keep(item),
    decreases items.len(),
{
    reveal(Seq::filter);
    if items.len() > 0 {
        let rest = items.drop_last();
        lemma_filter_contains(rest, keep, item);
        assert(items =~= rest.push(items.last()));
        if items.contains(item) && item != items.last() {
            let k = choose|k: int| 0 <= k < items.len() && items[k] == item;
            assert(rest[k] == item);
        }
        if rest.contains(item) {
            let k = choose|k: int| 0 <= k < rest.len() && rest[k] == item;
            assert(items[k] == item);
        }
        assert(items[items.len() - 1] == items.last());
        let kept = rest.filter(keep);
        if keep(items.last()) {
            let all = kept.push(items.last());
            assert(items.filter(keep) == all);
            assert(all[kept.len() as int] == items.last());
            if kept.contains(item) {
                let k = choose|k: int| 0 <= k < kept.len() && kept[k] == item;
                assert(all[k] == item);
            }
            if all.contains(item) && item != items.last() {
                let k = choose|k: int| 0 <= k < all.len() && all[k] == item;
                assert(kept[k] == item);
            }
        }
    }
}

/// Going up from a location and coming to the top ends: a parent is never the location itself.
pub proof fn law_parent_is_another_location(platform: Platform, loc: LocationView)
    ensures
        loc.parent(platform) matches Some(up) ==> up != loc,
{
    match loc {
        LocationView::Local(p) => {
            crate::path::laws::law_parent_is_shorter(platform, p);
        },
        LocationView::Remote(_) => {},
    }
}

/// A local listing has a row for what leads up, one for each folder that is shown and one for each
/// video that is shown.
pub proof fn law_rows_are_as_many(
    platform: Platform,
    items: Seq<crate::entry::DirItemView>,
    item: crate::entry::DirItemView,
)
    ensures
        local_rows(platform, items.push(item)).len() == local_rows(platform, items).len() + if !(
        item.name.len() > 0 && item.name[0] == '.') && (item.is_dir || is_video_path(
            platform,
            item.path,
        )) {
            1int
        } else {
            0
        },
        local_rows(platform, seq![]).len() == 1,
{
    reveal(Seq::filter);
    let more = items.push(item);
    assert(more.drop_last() =~= items);
    crate::entry::law_sorting_keeps_the_entries(visible_dirs(items), item);
    crate::entry::law_sorting_keeps_the_entries(visible_dirs(more), item);
    crate::entry::law_sorting_keeps_the_entries(visible_videos(platform, items), item);
    crate::entry::law_sorting_keeps_the_entries(visible_videos(platform, more), item);
    let none = Seq::<crate::entry::DirItemView>::empty();
    crate::entry::law_sorting_keeps_the_entries(visible_dirs(none), item);
    crate::entry::law_sorting_keeps_the_entries(visible_videos(platform, none), item);
}

/// In a local listing the folders go by their names, and so do the videos.
pub proof fn law_rows_go_by_name(
    platform: Platform,
    items: Seq<crate::entry::DirItemView>,
    i: int,
    j: int,
)
    requires
        0 <= i < j < local_rows(platform, items).len(),
    ensures
        match (local_rows(platform, items)[i], local_rows(platform, items)[j]) {
            (EntryView::Dir(a, _), EntryView::Dir(b, _)) => !crate::text::text_before(b, a),
            (EntryView::Video(a, _), EntryView::Video(b, _)) => !crate::text::text_before(b, a),
            _ => true,
        },
{
    let dirs = visible_dirs(items);
    let videos = visible_videos(platform, items);
    crate::entry::law_sorting_keeps_the_entries(dirs, items[0]);
    crate::entry::law_sorting_keeps_the_entries(videos, items[0]);
    let n = dirs.len() as int;
    let rows = local_rows(platform, items);
    if 1 <= i && j < 1 + n {
        crate::entry::law_sorted_names_do_not_fall(dirs, i - 1, j - 1);
        assert(rows[i] == EntryView::Dir(
            crate::entry::sorted_by_name(dirs)[i - 1].name,
            LocationView::Local(crate::entry::sorted_by_name(dirs)[i - 1].path),
        ));
        assert(rows[j] == EntryView::Dir(
            crate::entry::sorted_by_name(dirs)[j - 1].name,
            LocationView::Local(crate::entry::sorted_by_name(dirs)[j - 1].path),
        ));
    } else if 1 + n <= i {
        crate::entry::law_sorted_names_do_not_fall(videos, i - 1 - n, j - 1 - n);
        assert(rows[i] == EntryView::Video(
            crate::entry::sorted_by_name(videos)[i - 1 - n].name,
            LocationView::Local(crate::entry::sorted_by_name(videos)[i - 1 - n].path),
        ));
        assert(rows[j] == EntryView::Video(
            crate::entry::sorted_by_name(videos)[j - 1 - n].name,
            LocationView::Local(crate::entry::sorted_by_name(videos)[j - 1 - n].path),
        ));
    }
}

/// A remote listing has, behind the row that leads up, a row for each item in its place: a folder
/// for a folder, a video for a video, with its name and its URL.
pub proof fn law_remote_rows_are_the_items(items: Seq<crate::net::RemoteItemView>, i: int)
    requires
        0 <= i < items.len(),
    ensures
        remote_rows(items).len() == items.len() + 1,
        remote_rows(items)[i + 1] is Dir <==> items[i].is_dir,
        match remote_rows(items)[i + 1] {
            EntryView::Parent => false,
            EntryView::Dir(name, loc) => name == items[i].name && loc == LocationView::Remote(
                items[i].url,
            ),
            EntryView::Video(name, loc) => name == items[i].name && loc == LocationView::Remote(
                items[i].url,
            ),
        },
{
}

/// What begins with a dot is hidden, and nothing else.
pub proof fn law_hidden_names(c: char, rest: Seq<char>)
    ensures
        is_visible(seq![c] + rest) <==> c != '.',
        is_visible(seq![]),
{
    assert((seq![c] + rest)[0] == c);
}

/// A file is a video where its name ends in a dot and the extension of a video, in whatever case,
/// behind at least one character.
pub proof fn law_which_files_are_videos(
    platform: Platform,
    path: Seq<char>,
    stem: Seq<char>,
    ext: Seq<char>,
    first: char,
)
    requires
        !ext.contains('.'),
    ensures
        stem.len() > 0 && crate::path::file_name_of(platform, path) == Some(
            stem + seq!['.'] + ext,
        ) ==> (is_video_path(platform, path) <==> crate::net::is_video_ext(ext)),
        crate::path::file_name_of(platform, path) == Some(seq![first] + ext) ==> !is_video_path(
            platform,
            path,
        ),
        crate::path::file_name_of(platform, path) is None ==> !is_video_path(platform, path),
{
    if stem.len() > 0 && crate::path::file_name_of(platform, path) == Some(
        stem + seq!['.'] + ext,
    ) {
        crate::path::laws::law_extension_follows_the_last_dot(platform, path, stem, ext);
    }
    if crate::path::file_name_of(platform, path) == Some(seq![first] + ext) {
        crate::path::laws::law_names_without_extension(platform, path, first, ext);
    }
}

/// The rows show the names: two dots for what leads up, a folder behind a picture of one, a video
/// by itself.
pub proof fn law_rows_show_the_names(name: Seq<char>, loc: LocationView)
    ensures
        row_text(EntryView::Parent) == seq!['.', '.'],
        row_text(EntryView::Video(name, loc)) == name,
        row_text(EntryView::Dir(name, loc)).len() == name.len() + 3,
        row_text(EntryView::Dir(name, loc)).skip(3) == name,
        row_text(EntryView::Dir(name, loc)).subrange(1, 3) == seq![' ', ' '],
{
    reveal_strlit("..");
    reveal_strlit("📁  ");
    assert(".."@ =~= seq!['.', '.']);
    assert(row_text(EntryView::Dir(name, loc)).skip(3) =~= name);
    assert(row_text(EntryView::Dir(name, loc)).subrange(1, 3) =~= seq![' ', ' ']);
}

/// The video that is playing is the row of its own location, and only a video is.
pub proof fn law_current_row(platform: Platform, name: Seq<char>, loc: LocationView, row: EntryView)
    ensures
        is_row_of(platform, EntryView::Video(name, loc), Some(loc)),
        !is_row_of(platform, row, None),
        is_row_of(platform, row, Some(loc)) ==> (row matches EntryView::Video(_, at) && (at
            is Remote <==> loc is Remote) && (loc is Remote ==> at == loc)),
{
}

/// Remote locations are the same where their texts are, local ones where their paths have the same
/// parts, and one of each never is.
pub proof fn law_same_locations(platform: Platform, a: Seq<char>, b: Seq<char>)
    ensures
        LocationView::Remote(a).key(platform) == LocationView::Remote(b).key(platform) <==> a == b,
        LocationView::Local(a).key(platform) == LocationView::Local(b).key(platform)
            <==> crate::path::parts_of(platform, a) == crate::path::parts_of(platform, b),
        LocationView::Local(a).key(platform) != LocationView::Remote(b).key(platform),
{
}

/// Up from what lies in a remote folder is the folder, from the root of a server nothing; up from a
/// local path is its parent.
pub proof fn law_way_up(
    platform: Platform,
    scheme: Seq<char>,
    authority: Seq<char>,
    path: Seq<char>,
    name: Seq<char>,
    local: Seq<char>,
)
    requires
        crate::net::laws::are_url_parts(scheme, authority, path),
        authority.len() > 0,
        path.len() > 0,
        path.last() == '/',
        name.len() > 0,
        crate::net::laws::is_without(name, '/'),
    ensures
        ({
            let folder = crate::net::laws::url_text(scheme, authority, path);
            let root = crate::net::laws::url_text(scheme, authority, seq!['/']);
            &&& LocationView::Remote(folder + name).parent(platform) == Some(
                LocationView::Remote(folder),
            )
            &&& LocationView::Remote(folder + name + seq!['/']).parent(platform) == Some(
                LocationView::Remote(folder),
            )
            &&& LocationView::Remote(root).parent(platform) is None
        }),
        match LocationView::Local(local).parent(platform) {
            Some(up) => up is Local && crate::path::parent_of(platform, local) == Some(up.text()),
            None => crate::path::parent_of(platform, local) is None,
        },
{
    let folder = crate::net::laws::url_text(scheme, authority, path);
    let s = folder + name;
    let t = s + seq!['/'];
    crate::net::laws::law_parent_url_is_the_folder(scheme, authority, path, name);
    crate::net::laws::law_server_root_is_its_own_parent(scheme, authority);
    assert(s.last() == name.last());
    assert(crate::text::trimmed_end(s, '/') == s);
    assert(t.drop_last() =~= s);
    assert(crate::text::trimmed_end(t, '/') == s);
    crate::text::lemma_trimmed_end(folder, '/');
    assert(crate::text::trimmed_end(folder, '/').len() < s.len());
}

/// A click plays a video, opens a folder or goes up, each to where the row leads and nothing else;
/// while the list is not shown, and at the top, it does nothing.
pub proof fn law_clicks_go_where_the_row_leads(
    platform: Platform,
    browser: BrowserState,
    name: Seq<char>,
    loc: LocationView,
    row: EntryView,
    before: BrowserActionsView,
)
    ensures
        !browser.is_loading && browser.load_error is None ==> {
            &&& activated(platform, browser, EntryView::Video(name, loc), before).play == Some(loc)
            &&& activated(platform, browser, EntryView::Dir(name, loc), before).select_dir == Some(
                loc,
            )
            &&& browser.location@.parent(platform) is Some ==> activated(
                platform,
                browser,
                EntryView::Parent,
                before,
            ).navigate == browser.location@.parent(platform)
        },
        browser.location@.parent(platform) is None ==> activated(
            platform,
            browser,
            EntryView::Parent,
            before,
        ) == before,
        browser.is_loading || browser.load_error is Some ==> activated(
            platform,
            browser,
            row,
            before,
        ) == before,
        !(row is Video) ==> activated(platform, browser, row, before).play == before.play,
        !(row is Dir) ==> activated(platform, browser, row, before).select_dir == before.select_dir,
        !(row is Parent) ==> activated(platform, browser, row, before).navigate == before.navigate,
        activated(platform, browser, row, before).close == before.close,
        activated(platform, browser, row, before).select_volume == before.select_volume,
{
}

/// A listing that was waited for is shown once it arrives, in place of what was there before, and
/// is new to the cache; an error is shown in its place.
pub proof fn law_listings_are_shown_when_they_arrive(
    before: BrowserState,
    entries: Vec<BrowserEntry>,
    error: String,
    taken: BrowserState,
    failed: BrowserState,
)
    requires
        before.is_waiting,
        is_polled(before, Some(Ok(entries)), taken),
        is_polled(before, Some(Err(error)), failed),
    ensures
        taken.entries@ == entries@,
        taken.load_error is None && !taken.is_loading && !taken.is_waiting && taken.just_loaded,
        failed.load_error == Some(error),
        !failed.is_loading && !failed.is_waiting,
        failed.just_loaded == before.just_loaded,
        taken.location@ == before.location@ && failed.location@ == before.location@,
{
}

} // verus!

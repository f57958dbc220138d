//! What is remembered between runs: settings per video, and the folders last browsed.

use sha2::{Digest, Sha256};
use vstd::prelude::*;

use crate::path::{parent, same_path, Platform};
use crate::text::{chars_of, joined, same_str, string_of};
use crate::ui::settings::VideoSettings;

verus! {

/// Per-video metadata stored in the user config directory.
/// Saved as `video-<sha256-of-absolute-path>.json`.
#[derive(Clone, Copy, PartialEq, Eq, Structural, Debug)]
pub struct VideoMeta {
    pub settings: VideoSettings,
}

// ── file names ──────────────────────────────────────────────────────────────

/// The SHA-256 digest of `data`.
pub uninterp spec fn sha256_of(data: Seq<u8>) -> Seq<u8>;

/// `sha2::Sha256::digest`: the digest is a function of the bytes hashed, and 32 bytes long.
#[verifier::external_body]
fn sha256(data: &[u8]) -> (r: Vec<u8>)
    ensures
        r@ == sha256_of(data@),
        r@.len() == 32,
{
    Sha256::digest(data).to_vec()
}

/// The lower-case hexadecimal digit of `n`.
pub open spec fn hex_char(n: int) -> char {
    if n < 10 {
        ((0x30 + n) as u32) as char
    } else {
        ((0x57 + n) as u32) as char
    }
}

/// `bytes` in lower-case hexadecimal, two digits each.
pub open spec fn hex_of(bytes: Seq<u8>) -> Seq<char>
    decreases bytes.len(),
{
    if bytes.len() == 0 {
        Seq::empty()
    } else {
        hex_of(bytes.drop_last()).push(hex_char(bytes.last() as int / 16)).push(
            hex_char(bytes.last() as int % 16),
        )
    }
}

/// The name of the file for a digest.
pub open spec fn meta_name_of(digest: Seq<u8>) -> Seq<char> {
    "video-"@ + hex_of(digest) + ".json"@
}

fn hex_digit(n: u8) -> (r: char)
    requires
        n < 16,
    ensures
        r == hex_char(n as int),
{
    if n < 10 {
        (0x30 + n) as char
    } else {
        (0x57 + n) as char
    }
}

/// The name of the file for a digest.
pub fn meta_name(digest: &[u8]) -> (r: String)
    ensures
        r@ == meta_name_of(digest@),
{
    let mut hex: Vec<char> = Vec::new();
    let mut i: usize = 0;
    assert(hex@ =~= hex_of(digest@.take(0)));
    while i < digest.len()
        invariant
            i <= digest@.len(),
            hex@ == hex_of(digest@.take(i as int)),
        decreases digest@.len() - i,
    {
        assert(digest@.take(i + 1).drop_last() =~= digest@.take(i as int));
        hex.push(hex_digit(digest[i] / 16));
        hex.push(hex_digit(digest[i] % 16));
        i = i + 1;
    }
    assert(digest@.take(i as int) =~= digest@);
    string_of(&joined(&joined(&chars_of("video-"), &hex), &chars_of(".json")))
}

/// The name of the file that holds the metadata stored under a key.
pub fn meta_file_name(key: &str) -> (r: String)
    ensures
        r@ == meta_name_of(sha256_of(vstd::utf8::encode_utf8(key@))),
{
    let digest = sha256(key.as_bytes());
    meta_name(&digest)
}

/// What the metadata of a video is stored under.
pub open spec fn key_of(source: Seq<char>, canonical: Option<Seq<char>>) -> Seq<char> {
    if crate::net::is_http(source) {
        source
    } else {
        match canonical {
            Some(path) => path,
            None => source,
        }
    }
}

/// What the metadata of a video is stored under: a URL as it is, a file by its canonical path
/// where it has one.
pub fn meta_key(source: &str, canonical: Option<String>) -> (r: String)
    ensures
        r@ == key_of(source@, text_of(canonical)),
        r@ == if crate::net::is_http(source@) {
            source@
        } else {
            match canonical {
                Some(path) => path@,
                None => source@,
            }
        },
{
    if crate::source::is_url(source) {
        return string_of(&chars_of(source));
    }
    match canonical {
        Some(path) => path,
        None => string_of(&chars_of(source)),
    }
}

/// Different digests are stored in different files.
pub proof fn law_each_digest_has_its_file(a: Seq<u8>, b: Seq<u8>)
    requires
        meta_name_of(a) == meta_name_of(b),
    ensures
        a == b,
{
    let x = hex_of(a);
    let y = hex_of(b);
    let front = "video-"@;
    let back = ".json"@;
    assert(meta_name_of(a).len() == front.len() + x.len() + back.len());
    assert(meta_name_of(b).len() == front.len() + y.len() + back.len());
    assert(x.len() == y.len());
    assert forall|i: int| 0 <= i < x.len() implies x[i] == y[i] by {
        assert(meta_name_of(a)[front.len() + i] == x[i]);
        assert(meta_name_of(b)[front.len() + i] == y[i]);
    }
    assert(x =~= y);
    lemma_hex_injective(a, b);
}

proof fn lemma_hex_injective(a: Seq<u8>, b: Seq<u8>)
    requires
        hex_of(a) == hex_of(b),
    ensures
        a == b,
    decreases a.len(),
{
    if a.len() == 0 {
        assert(hex_of(a).len() == 0);
        if b.len() > 0 {
            assert(hex_of(b).len() >= 2);
        }
        assert(a =~= b);
    } else {
        assert(hex_of(a).len() >= 2);
        assert(b.len() > 0);
        let x = hex_of(a);
        let n = x.len();
        assert(x[n - 1] == hex_char(a.last() as int % 16));
        assert(x[n - 1] == hex_char(b.last() as int % 16));
        assert(x[n - 2] == hex_char(a.last() as int / 16));
        assert(x[n - 2] == hex_char(b.last() as int / 16));
        lemma_hex_char_injective(a.last() as int % 16, b.last() as int % 16);
        lemma_hex_char_injective(a.last() as int / 16, b.last() as int / 16);
        assert(a.last() == b.last());
        assert(hex_of(a).take(n - 2) =~= hex_of(a.drop_last()));
        assert(hex_of(b).take(n - 2) =~= hex_of(b.drop_last()));
        lemma_hex_injective(a.drop_last(), b.drop_last());
        assert(a =~= a.drop_last().push(a.last()));
        assert(b =~= b.drop_last().push(b.last()));
    }
}

proof fn lemma_hex_char_injective(m: int, n: int)
    requires
        0 <= m < 16,
        0 <= n < 16,
        hex_char(m) == hex_char(n),
    ensures
        m == n,
{
    assert(hex_char(m) as int == if m < 10 {
        0x30 + m
    } else {
        0x57 + m
    });
    assert(hex_char(n) as int == if n < 10 {
        0x30 + n
    } else {
        0x57 + n
    });
}

// ── app-wide state ──────────────────────────────────────────────────────────

/// The folder last browsed on a volume.
pub struct VolumeDir {
    pub root: String,
    pub dir: String,
}

/// What is remembered of the folders browsed.
pub struct AppState {
    pub last_dir: Option<String>,
    /// One entry at most for each volume root.
    pub volume_last_dirs: Vec<VolumeDir>,
}

/// What is remembered of the folders browsed: the last of all, and the last on each volume.
#[verifier::ext_equal]
pub struct AppStateView {
    pub last_dir: Option<Seq<char>>,
    pub volume_last_dirs: Map<Seq<char>, Seq<char>>,
}

impl AppStateView {
    /// With another directory as the last one browsed.
    pub open spec fn with_last_dir(self, dir: Seq<char>) -> AppStateView {
        AppStateView { last_dir: Some(dir), ..self }
    }

    /// With another directory as the last one browsed on a volume.
    pub open spec fn with_volume_dir(self, root: Seq<char>, dir: Seq<char>) -> AppStateView {
        AppStateView { volume_last_dirs: self.volume_last_dirs.insert(root, dir), ..self }
    }

    /// The last directory browsed, if there is still a directory there.
    pub open spec fn loaded_last_dir(self, is_dir: bool) -> Option<Seq<char>> {
        if is_dir {
            self.last_dir
        } else {
            None
        }
    }

    /// The last directory browsed on a volume.
    pub open spec fn volume_dir(self, root: Seq<char>) -> Option<Seq<char>> {
        if self.volume_last_dirs.contains_key(root) {
            Some(self.volume_last_dirs[root])
        } else {
            None
        }
    }
}

/// The text of an optional string.
pub open spec fn text_of(s: Option<String>) -> Option<Seq<char>> {
    match s {
        Some(s) => Some(s@),
        None => None,
    }
}

/// The folders by their volume roots.
pub open spec fn by_root(dirs: Seq<VolumeDir>) -> Map<Seq<char>, Seq<char>>
    decreases dirs.len(),
{
    if dirs.len() == 0 {
        Map::empty()
    } else {
        by_root(dirs.drop_last()).insert(dirs.last().root@, dirs.last().dir@)
    }
}

impl View for AppState {
    type V = AppStateView;

    open spec fn view(&self) -> AppStateView {
        AppStateView {
            last_dir: text_of(self.last_dir),
            volume_last_dirs: by_root(self.volume_last_dirs@),
        }
    }
}

/// No two entries have the same root.
pub open spec fn roots_differ(dirs: Seq<VolumeDir>) -> bool {
    forall|i: int, j: int|
        0 <= i < j < dirs.len() ==> (#[trigger] dirs[i]).root@ != (#[trigger] dirs[j]).root@
}

proof fn lemma_by_root(dirs: Seq<VolumeDir>)
    requires
        roots_differ(dirs),
    ensures
        forall|i: int|
            0 <= i < dirs.len() ==> by_root(dirs).contains_key((#[trigger] dirs[i]).root@)
                && by_root(dirs)[dirs[i].root@] == dirs[i].dir@,
        forall|k: Seq<char>|
            by_root(dirs).contains_key(k) ==> exists|i: int|
                0 <= i < dirs.len() && (#[trigger] dirs[i]).root@ == k,
    decreases dirs.len(),
{
    if dirs.len() > 0 {
        let rest = dirs.drop_last();
        lemma_by_root(rest);
        assert forall|i: int| 0 <= i < dirs.len() implies by_root(dirs).contains_key(
            (#[trigger] dirs[i]).root@,
        ) && by_root(dirs)[dirs[i].root@] == dirs[i].dir@ by {
            if i < rest.len() {
                assert(rest[i] == dirs[i]);
            }
        }
        assert forall|k: Seq<char>| by_root(dirs).contains_key(k) implies exists|i: int|
            0 <= i < dirs.len() && (#[trigger] dirs[i]).root@ == k by {
            if by_root(rest).contains_key(k) {
                let i = choose|i: int| 0 <= i < rest.len() && (#[trigger] rest[i]).root@ == k;
                assert(dirs[i].root@ == k);
            } else {
                assert(dirs[dirs.len() - 1].root@ == k);
            }
        }
    }
}

/// Replacing the folder of a root is the same as inserting it.
proof fn lemma_by_root_update(dirs: Seq<VolumeDir>, at: int, entry: VolumeDir)
    requires
        roots_differ(dirs),
        0 <= at < dirs.len(),
        dirs[at].root@ == entry.root@,
    ensures
        roots_differ(dirs.update(at, entry)),
        by_root(dirs.update(at, entry)) == by_root(dirs).insert(entry.root@, entry.dir@),
{
    let new = dirs.update(at, entry);
    assert(roots_differ(new)) by {
        assert forall|i: int, j: int| 0 <= i < j < new.len() implies (#[trigger] new[i]).root@ != (
        #[trigger] new[j]).root@ by {
            assert(dirs[i].root@ != dirs[j].root@);
        }
    }
    lemma_by_root(dirs);
    lemma_by_root(new);
    let left = by_root(new);
    let right = by_root(dirs).insert(entry.root@, entry.dir@);
    assert forall|k: Seq<char>| left.contains_key(k) <==> right.contains_key(k) by {
        if left.contains_key(k) {
            let i = choose|i: int| 0 <= i < new.len() && (#[trigger] new[i]).root@ == k;
            assert(dirs[i].root@ == k);
        }
        if by_root(dirs).contains_key(k) {
            let i = choose|i: int| 0 <= i < dirs.len() && (#[trigger] dirs[i]).root@ == k;
            assert(new[i].root@ == k);
        }
        assert(new[at].root@ == entry.root@);
    }
    assert forall|k: Seq<char>| left.contains_key(k) implies left[k] == right[k] by {
        let i = choose|i: int| 0 <= i < new.len() && (#[trigger] new[i]).root@ == k;
        assert(left[k] == new[i].dir@);
        if i != at {
            assert(new[i] == dirs[i]);
            if i < at {
                assert(dirs[i].root@ != dirs[at].root@);
            } else {
                assert(dirs[at].root@ != dirs[i].root@);
            }
        }
    }
    assert(left =~= right);
}

impl AppState {
    /// Each volume root occurs once.
    pub open spec fn wf(self) -> bool {
        roots_differ(self.volume_last_dirs@)
    }

    /// Nothing is remembered.
    pub fn new() -> (r: AppState)
        ensures
            r.wf(),
            r@.last_dir is None,
            r@.volume_last_dirs == Map::<Seq<char>, Seq<char>>::empty(),
    {
        AppState { last_dir: None, volume_last_dirs: Vec::new() }
    }

    /// The index of the entry for a root.
    fn find(&self, root: &str) -> (r: Option<usize>)
        ensures
            match r {
                Some(i) => i < self.volume_last_dirs@.len() && self.volume_last_dirs@[i as int].root@
                    == root@,
                None => forall|j: int|
                    0 <= j < self.volume_last_dirs@.len() ==> (
                    #[trigger] self.volume_last_dirs@[j]).root@ != root@,
            },
    {
        let mut i: usize = 0;
        while i < self.volume_last_dirs.len()
            invariant
                i <= self.volume_last_dirs@.len(),
                forall|j: int|
                    0 <= j < i ==> (#[trigger] self.volume_last_dirs@[j]).root@ != root@,
            decreases self.volume_last_dirs@.len() - i,
        {
            if same_str(&self.volume_last_dirs[i].root, root) {
                return Some(i);
            }
            i = i + 1;
        }
        None
    }

    /// The folder last browsed on a volume.
    pub fn volume_last_dir(&self, root: &str) -> (r: Option<String>)
        requires
            self.wf(),
        ensures
            text_of(r) == self@.volume_dir(root@),
    {
        proof {
            lemma_by_root(self.volume_last_dirs@);
        }
        match self.find(root) {
            Some(i) => Some(self.volume_last_dirs[i].dir.clone()),
            None => None,
        }
    }
}

/// The last browsed directory, if one was saved and it still exists; `is_dir` says whether
/// there is a directory at the saved path.
pub fn load_last_dir(state: &AppState, is_dir: bool) -> (r: Option<String>)
    ensures
        text_of(r) == state@.loaded_last_dir(is_dir),
{
    if !is_dir {
        return None;
    }
    match &state.last_dir {
        Some(dir) => Some(dir.clone()),
        None => None,
    }
}

/// Remembers `dir` as the last browsed directory.
pub fn save_last_dir(state: &mut AppState, dir: &str)
    requires
        old(state).wf(),
    ensures
        final(state).wf(),
        final(state)@ == old(state)@.with_last_dir(dir@),
{
    state.last_dir = Some(string_of(&chars_of(dir)));
}

/// Remembers `dir` as the last browsed directory of the volume at `volume_root`.
pub fn save_volume_last_dir(state: &mut AppState, volume_root: &str, dir: &str)
    requires
        old(state).wf(),
    ensures
        final(state).wf(),
        final(state)@ == old(state)@.with_volume_dir(volume_root@, dir@),
{
    let entry = VolumeDir {
        root: string_of(&chars_of(volume_root)),
        dir: string_of(&chars_of(dir)),
    };
    let ghost before = state.volume_last_dirs@;
    match state.find(volume_root) {
        Some(i) => {
            proof {
                lemma_by_root_update(before, i as int, entry);
            }
            state.volume_last_dirs.set(i, entry);
        },
        None => {
            state.volume_last_dirs.push(entry);
            proof {
                let after = state.volume_last_dirs@;
                assert(after.drop_last() =~= before);
                assert forall|i: int, j: int| 0 <= i < j < after.len() implies (
                #[trigger] after[i]).root@ != (#[trigger] after[j]).root@ by {
                    assert(after[i] == before[i]);
                    if j < before.len() {
                        assert(after[j] == before[j]);
                    }
                }
            }
        },
    }
}

// ── finding a directory on a volume ─────────────────────────────────────────

/// The directory to show for a volume: starting from `dir`, the first on the way up that exists,
/// but no higher than the volume root; the root itself if there is none.
pub open spec fn resolved(
    platform: Platform,
    dir: Seq<char>,
    root: Seq<char>,
    exists_dir: spec_fn(Seq<char>) -> bool,
) -> Seq<char>
    decreases dir.len(),
{
    proof {
        crate::path::laws::law_parent_is_shorter(platform, dir);
    }
    if exists_dir(dir) {
        dir
    } else if crate::path::parts_of(platform, dir) == crate::path::parts_of(platform, root) {
        root
    } else {
        match crate::path::parent_of(platform, dir) {
            Some(p) => resolved(platform, p, root, exists_dir),
            None => root,
        }
    }
}

/// The search for a directory on a volume, while a path is being probed.
pub struct DirSearch {
    pub platform: Platform,
    pub root: String,
    /// The path to probe.
    pub dir: String,
}

/// What to do next in the search for a directory on a volume.
pub enum DirStep {
    /// Probe the path of the search.
    Probe(DirSearch),
    Found(String),
}

/// `step` comes to `found` if what exists is as `exists_dir` says.
pub open spec fn leads_to(
    step: DirStep,
    exists_dir: spec_fn(Seq<char>) -> bool,
    found: Seq<char>,
) -> bool {
    match step {
        DirStep::Probe(s) => resolved(s.platform, s.dir@, s.root@, exists_dir) == found,
        DirStep::Found(dir) => dir@ == found,
    }
}

/// Begins the search for the best directory to navigate to when the user selects the volume at
/// `volume_root`: the last one saved for it or, where that is gone, the first on the way up from
/// it that exists. Falls back to `volume_root` itself.
pub fn resolve_dir_for_volume(platform: Platform, state: &AppState, volume_root: &str) -> (r:
    DirStep)
    requires
        state.wf(),
    ensures
        match r {
            DirStep::Probe(s) => s.platform == platform && s.root@ == volume_root@ && Some(s.dir@)
                == state@.volume_dir(volume_root@),
            DirStep::Found(dir) => state@.volume_dir(volume_root@) is None && dir@ == volume_root@,
        },
{
    match state.volume_last_dir(volume_root) {
        Some(dir) => DirStep::Probe(
            DirSearch { platform, root: string_of(&chars_of(volume_root)), dir },
        ),
        None => DirStep::Found(string_of(&chars_of(volume_root))),
    }
}

/// `step` is what follows in a search when a directory was found at the probed path or not: a
/// directory that exists is taken; the volume root is where the search ends; otherwise it goes
/// on one level up.
pub open spec fn follows(search: DirSearch, is_dir: bool, step: DirStep) -> bool {
    let parts = crate::path::parts_of(search.platform, search.dir@);
    let at_root = parts == crate::path::parts_of(search.platform, search.root@);
    let up = crate::path::parent_of(search.platform, search.dir@);
    match step {
        DirStep::Found(dir) => if is_dir {
            dir@ == search.dir@
        } else {
            dir@ == search.root@ && (at_root || up is None)
        },
        DirStep::Probe(s) => !is_dir && !at_root && s.platform == search.platform && s.root@
            == search.root@ && Some(s.dir@) == up,
    }
}

impl DirSearch {
    /// Takes whether there is a directory at the path that was probed.
    pub fn on_probe(self, is_dir: bool) -> (r: DirStep)
        ensures
            follows(self, is_dir, r),
            r matches DirStep::Probe(s) ==> s.dir@.len() < self.dir@.len(),
    {
        if is_dir {
            return DirStep::Found(self.dir);
        }
        if same_path(self.platform, &self.dir, &self.root) {
            return DirStep::Found(self.root);
        }
        proof {
            crate::path::laws::law_parent_is_shorter(self.platform, self.dir@);
        }
        match parent(self.platform, &self.dir) {
            Some(dir) => DirStep::Probe(
                DirSearch { platform: self.platform, root: self.root, dir },
            ),
            None => DirStep::Found(self.root),
        }
    }
}

// ── laws ────────────────────────────────────────────────────────────────────

/// The last directory that was saved is the one that is loaded while it exists; it is not loaded
/// once it is gone.
pub proof fn law_last_dir_is_remembered(state: AppStateView, dir: Seq<char>)
    ensures
        state.with_last_dir(dir).loaded_last_dir(true) == Some(dir),
        state.with_last_dir(dir).loaded_last_dir(false) is None,
        state.with_last_dir(dir).volume_last_dirs == state.volume_last_dirs,
{
}

/// The directory that was saved last for a volume is the one remembered for it; those of other
/// volumes and the last directory of all stay.
pub proof fn law_volume_dir_is_remembered(
    state: AppStateView,
    root: Seq<char>,
    dir: Seq<char>,
    other: Seq<char>,
)
    ensures
        state.with_volume_dir(root, dir).volume_dir(root) == Some(dir),
        other != root ==> state.with_volume_dir(root, dir).volume_dir(other) == state.volume_dir(
            other,
        ),
        state.with_volume_dir(root, dir).last_dir == state.last_dir,
{
}

/// What the search finds exists, or is the volume root.
pub proof fn law_found_dir_exists(
    platform: Platform,
    dir: Seq<char>,
    root: Seq<char>,
    exists_dir: spec_fn(Seq<char>) -> bool,
)
    ensures
        exists_dir(resolved(platform, dir, root, exists_dir)) || resolved(
            platform,
            dir,
            root,
            exists_dir,
        ) == root,
    decreases dir.len(),
{
    crate::path::laws::law_parent_is_shorter(platform, dir);
    if !exists_dir(dir) {
        match crate::path::parent_of(platform, dir) {
            Some(p) => law_found_dir_exists(platform, p, root, exists_dir),
            None => {},
        }
    }
}

/// A saved directory that still exists is the one that is found.
pub proof fn law_existing_dir_is_found(
    platform: Platform,
    dir: Seq<char>,
    root: Seq<char>,
    exists_dir: spec_fn(Seq<char>) -> bool,
)
    requires
        exists_dir(dir),
    ensures
        resolved(platform, dir, root, exists_dir) == dir,
{
}

/// Answering a probe truthfully does not change what the search comes to.
pub proof fn law_probes_keep_the_result(
    search: DirSearch,
    step: DirStep,
    exists_dir: spec_fn(Seq<char>) -> bool,
)
    requires
        follows(search, exists_dir(search.dir@), step),
    ensures
        leads_to(
            step,
            exists_dir,
            resolved(search.platform, search.dir@, search.root@, exists_dir),
        ),
{
}

/// Settings are kept for a URL by its text, and for a file by its canonical path, so that it does
/// not matter how the file was named.
pub proof fn law_settings_are_kept_per_video(a: Seq<char>, b: Seq<char>, path: Seq<char>)
    ensures
        crate::net::is_http(a) ==> key_of(a, Some(path)) == a && key_of(a, None) == a,
        !crate::net::is_http(a) && !crate::net::is_http(b) ==> key_of(a, Some(path)) == key_of(
            b,
            Some(path),
        ) && key_of(a, Some(path)) == path,
        !crate::net::is_http(a) ==> key_of(a, None) == a,
{
}

/// The name of a metadata file holds the digest in lower-case hexadecimal: two digits for each
/// byte, the higher one first, which read back give the byte.
pub proof fn law_digests_are_written_in_hexadecimal(bytes: Seq<u8>, i: int)
    requires
        0 <= i < bytes.len(),
    ensures
        hex_of(bytes).len() == 2 * bytes.len(),
        crate::net::hex_value(hex_of(bytes)[2 * i]) == Some((bytes[i] / 16) as u8),
        crate::net::hex_value(hex_of(bytes)[2 * i + 1]) == Some((bytes[i] % 16) as u8),
        !('A' <= hex_of(bytes)[2 * i] && hex_of(bytes)[2 * i] <= 'F'),
        !('A' <= hex_of(bytes)[2 * i + 1] && hex_of(bytes)[2 * i + 1] <= 'F'),
    decreases bytes.len(),
{
    let front = bytes.drop_last();
    lemma_hex_len(front);
    if i < front.len() {
        law_digests_are_written_in_hexadecimal(front, i);
    } else {
        let b = bytes.last() as int;
        let (h, l) = (b / 16, b % 16);
        assert(0 <= h < 16 && 0 <= l < 16);
        assert(hex_of(bytes)[2 * i] == hex_char(h));
        assert(hex_of(bytes)[2 * i + 1] == hex_char(l));
        crate::net::laws::law_hexadecimal_digits(hex_char(h), h);
        crate::net::laws::law_hexadecimal_digits(hex_char(l), l);
    }
}

proof fn lemma_hex_len(bytes: Seq<u8>)
    ensures
        hex_of(bytes).len() == 2 * bytes.len(),
    decreases bytes.len(),
{
    if bytes.len() > 0 {
        lemma_hex_len(bytes.drop_last());
    }
}

/// Metadata files are named `video-`, the digest, and `.json`.
pub proof fn law_names_of_metadata_files(digest: Seq<u8>)
    ensures
        meta_name_of(digest) == seq!['v', 'i', 'd', 'e', 'o', '-'] + hex_of(digest) + seq![
            '.',
            'j',
            's',
            'o',
            'n',
        ],
{
    reveal_strlit("video-");
    reveal_strlit(".json");
    assert("video-"@ =~= seq!['v', 'i', 'd', 'e', 'o', '-']);
    assert(".json"@ =~= seq!['.', 'j', 's', 'o', 'n']);
}

/// A directory that is gone is replaced by what its parent comes to, up to the volume root, which
/// is where the search ends.
pub proof fn law_search_goes_up(
    platform: Platform,
    dir: Seq<char>,
    root: Seq<char>,
    exists_dir: spec_fn(Seq<char>) -> bool,
)
    requires
        !exists_dir(dir),
    ensures
        crate::path::parts_of(platform, dir) == crate::path::parts_of(platform, root) ==> resolved(
            platform,
            dir,
            root,
            exists_dir,
        ) == root,
        crate::path::parts_of(platform, dir) != crate::path::parts_of(platform, root) ==> match crate::path::parent_of(
            platform,
            dir,
        ) {
            Some(up) => resolved(platform, dir, root, exists_dir) == resolved(
                platform,
                up,
                root,
                exists_dir,
            ),
            None => resolved(platform, dir, root, exists_dir) == root,
        },
{
}

/// A search probes a directory, takes it where it is there, and else probes its parent; it ends at
/// the volume root.
pub proof fn law_search_probes_one_level_after_the_other(search: DirSearch, is_dir: bool, step: DirStep)
    requires
        follows(search, is_dir, step),
    ensures
        is_dir ==> (step matches DirStep::Found(dir) && dir@ == search.dir@),
        !is_dir && step is Found ==> step->Found_0@ == search.root@,
        !is_dir && crate::path::parts_of(search.platform, search.dir@) == crate::path::parts_of(
            search.platform,
            search.root@,
        ) ==> step is Found,
        step matches DirStep::Probe(next) ==> Some(next.dir@) == crate::path::parent_of(
            search.platform,
            search.dir@,
        ) && next.root@ == search.root@ && next.platform == search.platform,
{
}

/// The folder that was saved last for a volume is the one that it has, and those of other volumes
/// stay.
pub proof fn law_later_folder_counts(dirs: Seq<VolumeDir>, dir: VolumeDir, root: Seq<char>)
    ensures
        by_root(dirs.push(dir)).contains_key(dir.root@),
        by_root(dirs.push(dir))[dir.root@] == dir.dir@,
        root != dir.root@ ==> by_root(dirs.push(dir)).contains_key(root) == by_root(
            dirs,
        ).contains_key(root),
        root != dir.root@ && by_root(dirs).contains_key(root) ==> by_root(dirs.push(dir))[root]
            == by_root(dirs)[root],
        !by_root(seq![]).contains_key(root),
{
    assert(dirs.push(dir).drop_last() =~= dirs);
}

} // verus!

//! The VR session: texture formats, session states, and what the controllers' buttons mean.

use vstd::prelude::*;

use crate::text::{chars_of, same_str, slice_of, string_of};

verus! {

// ── texture formats ─────────────────────────────────────────────────────────

/// A texture format that both the VR runtime and the renderer know.
#[derive(Clone, Copy, PartialEq, Eq, Structural, Debug)]
pub enum SwapFormat {
    Rgba8Unorm,
    Rgba8UnormSrgb,
    Bgra8Unorm,
    Bgra8UnormSrgb,
}

/// The number by which Vulkan knows a format.
pub open spec fn vk_code(format: SwapFormat) -> int {
    match format {
        SwapFormat::Rgba8Unorm => 37,
        SwapFormat::Rgba8UnormSrgb => 43,
        SwapFormat::Bgra8Unorm => 44,
        SwapFormat::Bgra8UnormSrgb => 50,
    }
}

/// The format that Vulkan knows by a number.
pub fn vk_to_wgpu(vk: u32) -> (r: Option<SwapFormat>)
    ensures
        match r {
            Some(format) => vk_code(format) == vk,
            None => forall|format: SwapFormat| vk_code(format) != vk,
        },
{
    if vk == 37 {
        Some(SwapFormat::Rgba8Unorm)
    } else if vk == 43 {
        Some(SwapFormat::Rgba8UnormSrgb)
    } else if vk == 44 {
        Some(SwapFormat::Bgra8Unorm)
    } else if vk == 50 {
        Some(SwapFormat::Bgra8UnormSrgb)
    } else {
        None
    }
}

/// The number by which Vulkan knows a format.
pub fn wgpu_to_vk(format: SwapFormat) -> (r: u32)
    ensures
        r == vk_code(format),
{
    match format {
        SwapFormat::Rgba8Unorm => 37,
        SwapFormat::Rgba8UnormSrgb => 43,
        SwapFormat::Bgra8Unorm => 44,
        SwapFormat::Bgra8UnormSrgb => 50,
    }
}

/// Vulkan knows a format by the number.
pub open spec fn is_known(vk: u32) -> bool {
    vk == 37 || vk == 43 || vk == 44 || vk == 50
}

/// The first number from `from` on that Vulkan knows a format by.
pub open spec fn first_known(supported: Seq<u32>, from: int) -> Option<u32>
    decreases supported.len() - from,
{
    if from >= supported.len() {
        None
    } else if is_known(supported[from]) {
        Some(supported[from])
    } else {
        first_known(supported, from + 1)
    }
}

/// The runtime supports the format of the desktop window.
pub open spec fn supports_desktop(desktop: Option<SwapFormat>, supported: Seq<u32>) -> bool {
    match desktop {
        Some(f) => exists|k: int| 0 <= k < supported.len() && #[trigger] supported[k] == vk_code(f),
        None => false,
    }
}

/// The format for the eye textures: that of the desktop window if the runtime supports it,
/// otherwise the first that the runtime lists and the renderer knows.
pub fn pick_format(desktop: Option<SwapFormat>, supported: &Vec<u32>) -> (r: Option<
    (u32, SwapFormat),
>)
    ensures
        r matches Some((vk, f)) ==> vk == vk_code(f),
        supports_desktop(desktop, supported@) ==> r is Some && Some((r->0).1) == desktop,
        !supports_desktop(desktop, supported@) ==> match first_known(supported@, 0) {
            Some(vk) => r is Some && (r->0).0 == vk,
            None => r is None,
        },
{
    if let Some(f) = desktop {
        let vk = wgpu_to_vk(f);
        let mut i: usize = 0;
        while i < supported.len()
            invariant
                i <= supported@.len(),
                vk == vk_code(f),
                desktop == Some(f),
                forall|j: int| 0 <= j < i ==> #[trigger] supported@[j] != vk,
            decreases supported@.len() - i,
        {
            if supported[i] == vk {
                assert(supported@[i as int] == vk_code(f));
                return Some((vk, f));
            }
            i = i + 1;
        }
    }
    assert(!supports_desktop(desktop, supported@));
    let mut i: usize = 0;
    while i < supported.len()
        invariant
            i <= supported@.len(),
            !supports_desktop(desktop, supported@),
            first_known(supported@, 0) == first_known(supported@, i as int),
        decreases supported@.len() - i,
    {
        let vk = supported[i];
        if let Some(f) = vk_to_wgpu(vk) {
            return Some((vk, f));
        }
        assert(!is_known(vk)) by {
            assert(vk_code(SwapFormat::Rgba8Unorm) != vk);
            assert(vk_code(SwapFormat::Rgba8UnormSrgb) != vk);
            assert(vk_code(SwapFormat::Bgra8Unorm) != vk);
            assert(vk_code(SwapFormat::Bgra8UnormSrgb) != vk);
        }
        i = i + 1;
    }
    None
}

// ── extension names ─────────────────────────────────────────────────────────

/// Space, tab, line feed, form feed or carriage return.
pub open spec fn is_ascii_space(c: char) -> bool {
    c == ' ' || c == '\t' || c == '\n' || c == '\x0c' || c == '\r'
}

/// Where the word that starts at `at` ends.
pub open spec fn word_end(s: Seq<char>, at: int) -> int
    decreases s.len() - at,
{
    if at >= s.len() || is_ascii_space(s[at]) {
        at
    } else {
        word_end(s, at + 1)
    }
}

pub proof fn lemma_word_end(s: Seq<char>, at: int)
    requires
        0 <= at <= s.len(),
    ensures
        at <= word_end(s, at) <= s.len(),
        word_end(s, at) < s.len() ==> is_ascii_space(s[word_end(s, at)]),
    decreases s.len() - at,
{
    if at < s.len() && !is_ascii_space(s[at]) {
        lemma_word_end(s, at + 1);
    }
}

/// The words of `s` from `at` on, separated by white space.
pub open spec fn words_from(s: Seq<char>, at: int) -> Seq<Seq<char>>
    decreases s.len() - at,
{
    proof {
        if 0 <= at < s.len() && !is_ascii_space(s[at]) {
            lemma_word_end(s, at + 1);
        }
    }
    if at < 0 || at >= s.len() {
        Seq::empty()
    } else if is_ascii_space(s[at]) {
        words_from(s, at + 1)
    } else {
        seq![s.subrange(at, word_end(s, at))] + words_from(s, word_end(s, at))
    }
}

/// The texts of words.
pub open spec fn word_views(words: Seq<String>) -> Seq<Seq<char>> {
    words.map_values(|w: String| w@)
}

fn ascii_space(c: char) -> (r: bool)
    ensures
        r == is_ascii_space(c),
{
    c == ' ' || c == '\t' || c == '\n' || c == '\x0c' || c == '\r'
}

/// The device extensions that the runtime requires, from the text in which it lists them.
pub fn required_device_extensions(list: &str) -> (r: Vec<String>)
    ensures
        word_views(r@) == words_from(list@, 0),
{
    let s = chars_of(list);
    let mut words: Vec<String> = Vec::new();
    let mut i: usize = 0;
    assert(word_views(words@) + words_from(s@, 0) =~= words_from(s@, 0));
    while i < s.len()
        invariant
            i <= s@.len(),
            word_views(words@) + words_from(s@, i as int) == words_from(s@, 0),
        decreases s@.len() - i,
    {
        if ascii_space(s[i]) {
            i = i + 1;
        } else {
            let start: usize = i;
            i = i + 1;
            while i < s.len() && !ascii_space(s[i])
                invariant
                    start < i <= s@.len(),
                    !is_ascii_space(s@[start as int]),
                    word_end(s@, start as int) == word_end(s@, i as int),
                decreases s@.len() - i,
            {
                i = i + 1;
            }
            let word = slice_of(&s, start, i);
            let ghost before = words@;
            words.push(string_of(&word));
            proof {
                assert(word_views(words@) =~= word_views(before).push(word@));
                assert(word_views(before) + words_from(s@, start as int) =~= word_views(words@)
                    + words_from(s@, i as int));
            }
        }
    }
    assert(word_views(words@) + words_from(s@, i as int) =~= word_views(words@));
    words
}

/// `enabled` with those of the first `n` required extensions that the device supports and that
/// are not enabled yet.
pub open spec fn with_required(
    enabled: Seq<Seq<char>>,
    required: Seq<Seq<char>>,
    supported: Seq<bool>,
    n: int,
) -> Seq<Seq<char>>
    decreases n,
{
    if n <= 0 {
        enabled
    } else {
        let before = with_required(enabled, required, supported, n - 1);
        if supported[n - 1] && !before.contains(required[n - 1]) {
            before.push(required[n - 1])
        } else {
            before
        }
    }
}

fn holds_word(words: &Vec<String>, word: &str) -> (r: bool)
    ensures
        r == word_views(words@).contains(word@),
{
    let ghost views = word_views(words@);
    let mut i: usize = 0;
    while i < words.len()
        invariant
            i <= words@.len(),
            views == word_views(words@),
            forall|j: int| 0 <= j < i ==> #[trigger] views[j] != word@,
        decreases words@.len() - i,
    {
        if same_str(&words[i], word) {
            assert(views[i as int] == word@);
            return true;
        }
        i = i + 1;
    }
    false
}

/// The extensions to make the device with: those that are enabled, and those that the runtime
/// requires and the device supports. `supported` says for each required one whether it is.
pub fn inject_extensions(enabled: Vec<String>, required: &Vec<String>, supported: &Vec<bool>) -> (r:
    Vec<String>)
    requires
        supported@.len() == required@.len(),
    ensures
        word_views(r@) == with_required(
            word_views(enabled@),
            word_views(required@),
            supported@,
            required@.len() as int,
        ),
{
    let ghost first = word_views(enabled@);
    let ghost wanted = word_views(required@);
    let mut all = enabled;
    let mut i: usize = 0;
    while i < required.len()
        invariant
            i <= required@.len(),
            supported@.len() == required@.len(),
            wanted == word_views(required@),
            word_views(all@) == with_required(first, wanted, supported@, i as int),
        decreases required@.len() - i,
    {
        assert(wanted[i as int] == required@[i as int]@);
        if supported[i] && !holds_word(&all, &required[i]) {
            let ghost before = all@;
            all.push(required[i].clone());
            assert(word_views(all@) =~= word_views(before).push(wanted[i as int]));
        }
        i = i + 1;
    }
    all
}

// ── session ─────────────────────────────────────────────────────────────────

/// What the runtime reports about the session.
#[derive(Clone, Copy, PartialEq, Eq, Structural, Debug)]
pub enum SessionEvent {
    Ready,
    Stopping,
    Exiting,
    LossPending,
    InstanceLossPending,
    Other,
}

/// What to tell the runtime in return.
#[derive(Clone, Copy, PartialEq, Eq, Structural, Debug)]
pub enum SessionCommand {
    Begin,
    End,
    Nothing,
}

/// The state of the session.
#[derive(Clone, Copy, PartialEq, Eq, Structural, Debug)]
pub struct Session {
    /// Frames are rendered.
    pub running: bool,
    pub should_quit: bool,
}

/// What to tell the runtime about an event.
pub open spec fn reply_to(event: SessionEvent) -> SessionCommand {
    match event {
        SessionEvent::Ready => SessionCommand::Begin,
        SessionEvent::Stopping => SessionCommand::End,
        _ => SessionCommand::Nothing,
    }
}

/// The session after an event.
pub open spec fn session_after(session: Session, event: SessionEvent) -> Session {
    match event {
        SessionEvent::Ready => Session { running: true, ..session },
        SessionEvent::Stopping => Session { running: false, ..session },
        SessionEvent::Exiting | SessionEvent::LossPending | SessionEvent::InstanceLossPending =>
            Session { should_quit: true, ..session },
        SessionEvent::Other => session,
    }
}

impl Session {
    /// The session before the runtime has reported anything.
    pub fn new() -> (r: Session)
        ensures
            r == (Session { running: false, should_quit: false }),
    {
        Session { running: false, should_quit: false }
    }

    /// Takes what the runtime reports. Rendering runs from ready to stopping; once the session
    /// exits or is lost, the app is to quit.
    pub fn on_event(&mut self, event: SessionEvent) -> (r: SessionCommand)
        ensures
            r == reply_to(event),
            *final(self) == session_after(*old(self), event),
            r == match event {
                SessionEvent::Ready => SessionCommand::Begin,
                SessionEvent::Stopping => SessionCommand::End,
                _ => SessionCommand::Nothing,
            },
            final(self).running == match event {
                SessionEvent::Ready => true,
                SessionEvent::Stopping => false,
                _ => old(self).running,
            },
            final(self).should_quit == (old(self).should_quit || event == SessionEvent::Exiting
                || event == SessionEvent::LossPending || event
                == SessionEvent::InstanceLossPending),
    {
        match event {
            SessionEvent::Ready => {
                self.running = true;
                SessionCommand::Begin
            },
            SessionEvent::Stopping => {
                self.running = false;
                SessionCommand::End
            },
            SessionEvent::Exiting => {
                self.should_quit = true;
                SessionCommand::Nothing
            },
            SessionEvent::LossPending => {
                self.should_quit = true;
                SessionCommand::Nothing
            },
            SessionEvent::InstanceLossPending => {
                self.should_quit = true;
                SessionCommand::Nothing
            },
            SessionEvent::Other => SessionCommand::Nothing,
        }
    }
}

// ── controllers ─────────────────────────────────────────────────────────────

/// Buttons and stick of one controller. The stick's deflection is the bit pattern of a
/// single-precision number between -1 and 1.
#[derive(Clone, Copy, PartialEq, Eq, Structural, Debug)]
pub struct Buttons {
    pub menu_pressed: bool,
    pub grip_pressed: bool,
    pub stick_x_bits: u32,
}

/// How the video is turned towards the user.
#[derive(Clone, Copy, PartialEq, Eq, Structural, Debug)]
pub enum Recenter {
    /// As before.
    Keep,
    /// Around the vertical axis only, so that it does not matter where the user looks
    /// vertically.
    Yaw,
    /// To exactly where the user looks.
    Full,
}

/// What the controllers mean in a frame.
#[derive(Clone, Copy, PartialEq, Eq, Structural, Debug)]
pub struct FrameActions {
    pub recenter: Recenter,
    pub menu_toggle: bool,
    /// The stick's deflection, where it seeks.
    pub seek_stick: Option<u32>,
}

/// The least time between two seeks by the stick.
pub const SEEK_INTERVAL_NS: u64 = 100_000_000;

/// The bit pattern of 0.2, the deflection up to which the stick is at rest.
pub const SEEK_DEAD_ZONE_BITS: u32 = 0x3e4c_cccd;

/// The size of a single-precision number, as a bit pattern: sizes are in the order of their
/// patterns.
pub open spec fn size_bits(bits: u32) -> int {
    bits as int % 0x8000_0000
}

/// The pattern is that of a number.
pub open spec fn is_number(bits: u32) -> bool {
    size_bits(bits) <= 0x7f80_0000
}

/// The deflection of the stick that is pushed farther, the right one's where neither is; 0
/// without controllers.
pub open spec fn stick_of(left: Option<Buttons>, right: Option<Buttons>) -> u32 {
    match (left, right) {
        (Some(l), Some(r)) => if is_number(l.stick_x_bits) && is_number(r.stick_x_bits)
            && size_bits(l.stick_x_bits) > size_bits(r.stick_x_bits) {
            l.stick_x_bits
        } else {
            r.stick_x_bits
        },
        (Some(l), None) => l.stick_x_bits,
        (None, Some(r)) => r.stick_x_bits,
        (None, None) => 0,
    }
}

/// The stick is pushed out of its dead zone.
pub open spec fn is_pushed(bits: u32) -> bool {
    is_number(bits) && size_bits(bits) > SEEK_DEAD_ZONE_BITS
}

/// Some controller has the menu button pressed.
pub open spec fn any_menu(left: Option<Buttons>, right: Option<Buttons>) -> bool {
    (left matches Some(l) && l.menu_pressed) || (right matches Some(r) && r.menu_pressed)
}

/// Some controller has the grip pressed.
pub open spec fn any_grip(left: Option<Buttons>, right: Option<Buttons>) -> bool {
    (left matches Some(l) && l.grip_pressed) || (right matches Some(r) && r.grip_pressed)
}

/// What is remembered of the controllers between frames.
#[derive(Clone, Copy, PartialEq, Eq, Structural, Debug)]
pub struct FrameInput {
    pub prev_menu_pressed: bool,
    pub prev_grip_pressed: bool,
    /// When the stick last sought; none while it is at rest.
    pub last_seek_ns: Option<u64>,
    pub orientation_initialized: bool,
}

impl FrameInput {
    /// Before the first frame.
    pub fn new() -> (r: FrameInput)
        ensures
            r == (FrameInput {
                prev_menu_pressed: false,
                prev_grip_pressed: false,
                last_seek_ns: None,
                orientation_initialized: false,
            }),
    {
        FrameInput {
            prev_menu_pressed: false,
            prev_grip_pressed: false,
            last_seek_ns: None,
            orientation_initialized: false,
        }
    }

    /// A seek by the stick is due.
    pub open spec fn seek_is_due(self, now_ns: u64) -> bool {
        match self.last_seek_ns {
            Some(t) => now_ns - t >= SEEK_INTERVAL_NS,
            None => true,
        }
    }

    /// What the controllers mean in a frame.
    pub open spec fn actions(
        self,
        left: Option<Buttons>,
        right: Option<Buttons>,
        now_ns: u64,
    ) -> FrameActions {
        FrameActions {
            recenter: if any_grip(left, right) && !self.prev_grip_pressed {
                Recenter::Full
            } else if !self.orientation_initialized {
                Recenter::Yaw
            } else {
                Recenter::Keep
            },
            menu_toggle: any_menu(left, right) && !self.prev_menu_pressed,
            seek_stick: if is_pushed(stick_of(left, right)) && self.seek_is_due(now_ns) {
                Some(stick_of(left, right))
            } else {
                None
            },
        }
    }

    /// What is remembered after a frame.
    pub open spec fn after(
        self,
        left: Option<Buttons>,
        right: Option<Buttons>,
        now_ns: u64,
    ) -> FrameInput {
        FrameInput {
            prev_menu_pressed: any_menu(left, right),
            prev_grip_pressed: any_grip(left, right),
            last_seek_ns: if !is_pushed(stick_of(left, right)) {
                None
            } else if self.seek_is_due(now_ns) {
                Some(now_ns)
            } else {
                self.last_seek_ns
            },
            orientation_initialized: true,
        }
    }

    /// Takes the controllers of a frame. The first frame turns the video towards the user, and
    /// pressing a grip turns it to where the user looks. Pressing a menu button counts once. The
    /// stick seeks at once when it is pushed, and then at most every 100 ms.
    pub fn on_frame(&mut self, left: Option<Buttons>, right: Option<Buttons>, now_ns: u64) -> (r:
        FrameActions)
        ensures
            r == old(self).actions(left, right, now_ns),
            *final(self) == old(self).after(left, right, now_ns),
    {
        let mut recenter = Recenter::Keep;
        if !self.orientation_initialized {
            recenter = Recenter::Yaw;
            self.orientation_initialized = true;
        }
        let mut menu = false;
        let mut grip = false;
        if let Some(l) = left {
            menu = menu || l.menu_pressed;
            grip = grip || l.grip_pressed;
        }
        if let Some(r) = right {
            menu = menu || r.menu_pressed;
            grip = grip || r.grip_pressed;
        }
        if grip && !self.prev_grip_pressed {
            recenter = Recenter::Full;
        }
        self.prev_grip_pressed = grip;
        let menu_toggle = menu && !self.prev_menu_pressed;
        self.prev_menu_pressed = menu;
        let stick = strongest_stick(left, right);
        let size: u32 = stick % 0x8000_0000;
        let mut seek_stick: Option<u32> = None;
        if size <= 0x7f80_0000 && size > SEEK_DEAD_ZONE_BITS {
            let due = match self.last_seek_ns {
                Some(t) => now_ns >= t && now_ns - t >= SEEK_INTERVAL_NS,
                None => true,
            };
            if due {
                self.last_seek_ns = Some(now_ns);
                seek_stick = Some(stick);
            }
        } else {
            self.last_seek_ns = None;
        }
        FrameActions { recenter, menu_toggle, seek_stick }
    }
}

/// The deflection of the stick that is pushed farther.
fn strongest_stick(left: Option<Buttons>, right: Option<Buttons>) -> (r: u32)
    ensures
        r == stick_of(left, right),
{
    match (left, right) {
        (Some(l), Some(r)) => {
            let a: u32 = l.stick_x_bits % 0x8000_0000;
            let b: u32 = r.stick_x_bits % 0x8000_0000;
            if a <= 0x7f80_0000 && b <= 0x7f80_0000 && a > b {
                l.stick_x_bits
            } else {
                r.stick_x_bits
            }
        },
        (Some(l), None) => l.stick_x_bits,
        (None, Some(r)) => r.stick_x_bits,
        (None, None) => 0,
    }
}

// ── laws ────────────────────────────────────────────────────────────────────

/// While the stick stays pushed, two seeks are at least a tenth of a second apart; a frame
/// between them changes nothing about that.
pub proof fn law_seeks_are_apart(
    input: FrameInput,
    left: Option<Buttons>,
    right: Option<Buttons>,
    t1: u64,
    l2: Option<Buttons>,
    r2: Option<Buttons>,
    t2: u64,
)
    requires
        input.actions(left, right, t1).seek_stick is Some,
        is_pushed(stick_of(l2, r2)),
    ensures
        ({
            let next = input.after(left, right, t1);
            &&& next.actions(l2, r2, t2).seek_stick is Some <==> t2 - t1 >= SEEK_INTERVAL_NS
            &&& next.actions(l2, r2, t2).seek_stick is None ==> next.after(l2, r2, t2).last_seek_ns
                == Some(t1)
        }),
{
}

/// Letting go of the stick makes the next push seek at once.
pub proof fn law_released_stick_seeks_at_once(
    input: FrameInput,
    left: Option<Buttons>,
    right: Option<Buttons>,
    t1: u64,
    l2: Option<Buttons>,
    r2: Option<Buttons>,
    t2: u64,
)
    requires
        !is_pushed(stick_of(left, right)),
        is_pushed(stick_of(l2, r2)),
    ensures
        input.after(left, right, t1).actions(l2, r2, t2).seek_stick is Some,
{
}

/// A button that stays pressed counts in the first frame only.
pub proof fn law_held_buttons_count_once(
    input: FrameInput,
    left: Option<Buttons>,
    right: Option<Buttons>,
    t1: u64,
    l2: Option<Buttons>,
    r2: Option<Buttons>,
    t2: u64,
)
    ensures
        any_menu(left, right) ==> !input.after(left, right, t1).actions(l2, r2, t2).menu_toggle,
        any_grip(left, right) ==> input.after(left, right, t1).actions(l2, r2, t2).recenter
            == Recenter::Keep,
{
}

/// Different formats have different numbers, so that a number gives back its format.
pub proof fn law_format_codes_differ(a: SwapFormat, b: SwapFormat)
    ensures
        vk_code(a) == vk_code(b) <==> a == b,
{
}

/// Injecting extensions keeps those that were enabled, adds every required one that is
/// supported, and enables none twice that was not enabled twice before.
pub proof fn law_required_extensions_are_enabled(
    enabled: Seq<Seq<char>>,
    required: Seq<Seq<char>>,
    supported: Seq<bool>,
    n: int,
    k: int,
)
    requires
        0 <= k < n <= required.len(),
        supported.len() == required.len(),
    ensures
        supported[k] ==> with_required(enabled, required, supported, n).contains(required[k]),
        enabled.is_prefix_of(with_required(enabled, required, supported, n)),
        enabled.no_duplicates() ==> with_required(enabled, required, supported, n).no_duplicates(),
    decreases n,
{
    let before = with_required(enabled, required, supported, n - 1);
    let after = with_required(enabled, required, supported, n);
    if n > 1 {
        law_required_extensions_are_enabled(
            enabled,
            required,
            supported,
            n - 1,
            if k < n - 1 {
                k
            } else {
                0
            },
        );
    }
    assert(before.is_prefix_of(after));
    if supported[n - 1] {
        if before.contains(required[n - 1]) {
            assert(after == before);
        } else {
            assert(after[before.len() as int] == required[n - 1]);
        }
    }
    if k < n - 1 && supported[k] {
        let j = choose|j: int| 0 <= j < before.len() && before[j] == required[k];
        assert(after[j] == required[k]);
    }
    if enabled.no_duplicates() {
        assert forall|i: int, j: int| 0 <= i < after.len() && 0 <= j < after.len() && i
            != j implies after[i] != after[j] by {
            if i < before.len() && j < before.len() {
                assert(before[i] != before[j]);
            }
        }
    }
}

/// No word is empty or holds white space.
pub proof fn law_words_are_solid(s: Seq<char>, at: int, k: int, i: int)
    requires
        0 <= at,
        0 <= k < words_from(s, at).len(),
        0 <= i < words_from(s, at)[k].len(),
    ensures
        words_from(s, at)[k].len() > 0,
        !is_ascii_space(words_from(s, at)[k][i]),
    decreases s.len() - at,
{
    if at < s.len() {
        if is_ascii_space(s[at]) {
            law_words_are_solid(s, at + 1, k, i);
        } else {
            lemma_word_end(s, at + 1);
            let end = word_end(s, at);
            if k > 0 {
                assert(words_from(s, at)[k] == words_from(s, end)[k - 1]);
                law_words_are_solid(s, end, k - 1, i);
            } else {
                assert(words_from(s, at)[0] == s.subrange(at, end));
                lemma_no_space_in_word(s, at, at + i);
            }
        }
    }
}

proof fn lemma_no_space_in_word(s: Seq<char>, at: int, i: int)
    requires
        0 <= at <= i < word_end(s, at),
    ensures
        i < s.len(),
        !is_ascii_space(s[i]),
    decreases s.len() - at,
{
    if at < s.len() && !is_ascii_space(s[at]) && at < i {
        lemma_no_space_in_word(s, at + 1, i);
    }
}

/// Vulkan's numbers of the formats that the renderer knows.
pub proof fn law_format_codes(vk: u32)
    ensures
        vk_code(SwapFormat::Rgba8Unorm) == 37,
        vk_code(SwapFormat::Rgba8UnormSrgb) == 43,
        vk_code(SwapFormat::Bgra8Unorm) == 44,
        vk_code(SwapFormat::Bgra8UnormSrgb) == 50,
        is_known(vk) <==> exists|format: SwapFormat| #[trigger] vk_code(format) == vk,
{
    if is_known(vk) {
        if vk == 37 {
            assert(vk_code(SwapFormat::Rgba8Unorm) == vk);
        } else if vk == 43 {
            assert(vk_code(SwapFormat::Rgba8UnormSrgb) == vk);
        } else if vk == 44 {
            assert(vk_code(SwapFormat::Bgra8Unorm) == vk);
        } else {
            assert(vk_code(SwapFormat::Bgra8UnormSrgb) == vk);
        }
    }
}

/// The first known format is in the list, and none before it is known.
pub proof fn law_first_known_format(supported: Seq<u32>, from: int)
    requires
        0 <= from,
    ensures
        match first_known(supported, from) {
            Some(vk) => exists|k: int|
                from <= k < supported.len() && #[trigger] supported[k] == vk && is_known(vk)
                    && forall|j: int| from <= j < k ==> !is_known(#[trigger] supported[j]),
            None => forall|j: int| from <= j < supported.len() ==> !is_known(#[trigger] supported[j]),
        },
    decreases supported.len() - from,
{
    if from < supported.len() {
        if is_known(supported[from]) {
            assert(supported[from] == first_known(supported, from)->0);
        } else {
            law_first_known_format(supported, from + 1);
            if let Some(vk) = first_known(supported, from + 1) {
                let k = choose|k: int|
                    from + 1 <= k < supported.len() && #[trigger] supported[k] == vk && is_known(vk)
                        && forall|j: int|
                        from + 1 <= j < k ==> !is_known(#[trigger] supported[j]);
                assert(supported[k] == vk);
            }
        }
    }
}

/// The list of extensions is read word by word: a word ends at the next white space, and white
/// space before a word is passed over.
pub proof fn law_words_are_read(space: char, word: Seq<char>, rest: Seq<char>)
    requires
        word.len() > 0,
        forall|i: int| 0 <= i < word.len() ==> !is_ascii_space(#[trigger] word[i]),
        is_ascii_space(space),
    ensures
        words_from(word + seq![space] + rest, 0) == seq![word] + words_from(rest, 0),
        words_from(seq![space] + rest, 0) == words_from(rest, 0),
        words_from(word, 0) == seq![word],
        words_from(seq![], 0).len() == 0,
{
    let s = word + seq![space] + rest;
    let n = word.len() as int;
    assert forall|i: int| 0 <= i < n implies !is_ascii_space(#[trigger] s[i]) by {
        assert(s[i] == word[i]);
    }
    assert(s[n] == space);
    lemma_word_ends(s, 0, n);
    assert(s.subrange(0, n) =~= word);
    assert(s[0] == word[0]);
    assert(words_from(s, n) == words_from(s, n + 1));
    lemma_words_shift(word + seq![space], rest, 0);
    assert(s =~= (word + seq![space]) + rest);
    assert(words_from(s, n + 1) == words_from(rest, 0));
    let t = seq![space] + rest;
    assert(t[0] == space);
    lemma_words_shift(seq![space], rest, 0);
    lemma_word_ends(word, 0, n);
    assert(word.subrange(0, n) =~= word);
    assert(words_from(word, n) =~= Seq::empty());
    assert(words_from(word, 0) =~= seq![word]);
}

proof fn lemma_word_ends(s: Seq<char>, at: int, end: int)
    requires
        0 <= at <= end <= s.len(),
        end == s.len() || is_ascii_space(s[end]),
        forall|i: int| at <= i < end ==> !is_ascii_space(#[trigger] s[i]),
    ensures
        word_end(s, at) == end,
    decreases end - at,
{
    if at < end {
        lemma_word_ends(s, at + 1, end);
    }
}

proof fn lemma_word_end_shift(p: Seq<char>, s: Seq<char>, at: int)
    requires
        0 <= at,
    ensures
        word_end(p + s, p.len() + at) == p.len() + word_end(s, at),
    decreases s.len() - at,
{
    if at < s.len() {
        assert((p + s)[p.len() + at] == s[at]);
        lemma_word_end_shift(p, s, at + 1);
    }
}

proof fn lemma_words_shift(p: Seq<char>, s: Seq<char>, at: int)
    requires
        0 <= at,
    ensures
        words_from(p + s, p.len() + at) == words_from(s, at),
    decreases s.len() - at,
{
    let all = p + s;
    let k = p.len() + at;
    if at < s.len() {
        assert(all[k] == s[at]);
        if is_ascii_space(s[at]) {
            lemma_words_shift(p, s, at + 1);
        } else {
            lemma_word_end_shift(p, s, at);
            lemma_word_end(s, at + 1);
            let end = word_end(s, at);
            assert(all.subrange(k, p.len() + end) =~= s.subrange(at, end));
            lemma_words_shift(p, s, end);
        }
    }
}

/// White space is the space, the tab, the line feed, the form feed and the carriage return.
pub proof fn law_space_between_words(c: char)
    ensures
        is_ascii_space(c) <==> c as u32 == 0x20 || c as u32 == 0x09 || c as u32 == 0x0a || c as u32
            == 0x0c || c as u32 == 0x0d,
{
}

/// Nothing is enabled but what was enabled before and what is required and supported.
pub proof fn law_nothing_else_is_enabled(
    enabled: Seq<Seq<char>>,
    required: Seq<Seq<char>>,
    supported: Seq<bool>,
    n: int,
    i: int,
)
    requires
        0 <= n <= required.len(),
        supported.len() == required.len(),
        0 <= i < with_required(enabled, required, supported, n).len(),
    ensures
        ({
            let word = with_required(enabled, required, supported, n)[i];
            enabled.contains(word) || exists|k: int|
                0 <= k < n && #[trigger] required[k] == word && supported[k]
        }),
    decreases n,
{
    if n > 0 {
        let before = with_required(enabled, required, supported, n - 1);
        let word = with_required(enabled, required, supported, n)[i];
        if i < before.len() {
            law_nothing_else_is_enabled(enabled, required, supported, n - 1, i);
            if !enabled.contains(word) {
                let k = choose|k: int| 0 <= k < n - 1 && #[trigger] required[k] == word && supported[k];
                assert(required[k] == word);
            }
        } else {
            assert(required[n - 1] == word);
        }
    }
}

/// Rendering runs from the time the runtime is ready until it stops; the app quits once the
/// session exits or is lost, and then stays so.
pub proof fn law_session_follows_the_runtime(session: Session, event: SessionEvent)
    ensures
        reply_to(event) == SessionCommand::Begin <==> event == SessionEvent::Ready,
        reply_to(event) == SessionCommand::End <==> event == SessionEvent::Stopping,
        reply_to(event) == SessionCommand::Begin ==> session_after(session, event).running,
        reply_to(event) == SessionCommand::End ==> !session_after(session, event).running,
        reply_to(event) == SessionCommand::Nothing ==> session_after(session, event).running
            == session.running,
        session.should_quit ==> session_after(session, event).should_quit,
        event == SessionEvent::Exiting || event == SessionEvent::LossPending || event
            == SessionEvent::InstanceLossPending ==> session_after(session, event).should_quit,
        event == SessionEvent::Ready || event == SessionEvent::Stopping || event
            == SessionEvent::Other ==> session_after(session, event).should_quit
            == session.should_quit,
{
}

/// The stick counts as pushed from a fifth of its way on, to either side; what is no number does
/// not count.
pub proof fn law_dead_zone_of_the_stick(bits: u32)
    ensures
        bits < 0x8000_0000 ==> (is_pushed(bits) <==> 0x3e4c_cccd < bits <= 0x7f80_0000),
        bits < 0x8000_0000 ==> is_pushed((bits + 0x8000_0000) as u32) == is_pushed(bits),
        bits < 0x8000_0000 ==> size_bits((bits + 0x8000_0000) as u32) == size_bits(bits) == bits,
{
}

/// The stick that is pushed farther counts; a controller alone counts by itself, and without
/// controllers the stick is at rest.
pub proof fn law_farther_stick_counts(l: Buttons, r: Buttons)
    requires
        is_number(l.stick_x_bits),
        is_number(r.stick_x_bits),
    ensures
        size_bits(l.stick_x_bits) > size_bits(r.stick_x_bits) ==> stick_of(Some(l), Some(r))
            == l.stick_x_bits,
        size_bits(l.stick_x_bits) <= size_bits(r.stick_x_bits) ==> stick_of(Some(l), Some(r))
            == r.stick_x_bits,
        stick_of(Some(l), None) == l.stick_x_bits,
        stick_of(None, Some(r)) == r.stick_x_bits,
        !is_pushed(stick_of(None, None)),
{
}

/// A menu button that is pressed, on either controller, toggles the panel at once; a button that
/// is not pressed never does.
pub proof fn law_menu_button_toggles(
    input: FrameInput,
    left: Option<Buttons>,
    right: Option<Buttons>,
    now: u64,
)
    ensures
        input.actions(left, right, now).menu_toggle ==> (left is Some && left->0.menu_pressed) || (
        right is Some && right->0.menu_pressed),
        !input.prev_menu_pressed && left is Some && left->0.menu_pressed ==> input.actions(
            left,
            right,
            now,
        ).menu_toggle,
        !input.prev_menu_pressed && right is Some && right->0.menu_pressed ==> input.actions(
            left,
            right,
            now,
        ).menu_toggle,
        input.after(left, right, now).prev_menu_pressed == ((left is Some && left->0.menu_pressed)
            || (right is Some && right->0.menu_pressed)),
{
}

/// The grip, on either controller, turns the video to exactly where the user looks; the first frame
/// turns it around the vertical axis only; otherwise it stays.
pub proof fn law_grip_turns_the_video(
    input: FrameInput,
    left: Option<Buttons>,
    right: Option<Buttons>,
    now: u64,
)
    ensures
        ({
            let gripped = (left is Some && left->0.grip_pressed) || (right is Some
                && right->0.grip_pressed);
            let turn = input.actions(left, right, now).recenter;
            &&& gripped && !input.prev_grip_pressed <==> turn == Recenter::Full
            &&& !(gripped && !input.prev_grip_pressed) && !input.orientation_initialized <==> turn
                == Recenter::Yaw
            &&& input.after(left, right, now).orientation_initialized
            &&& input.after(left, right, now).prev_grip_pressed == gripped
        }),
{
}

/// A pushed stick seeks at once where it was at rest, and by its own deflection; a stick at rest
/// never seeks. The least time between seeks is a tenth of a second.
pub proof fn law_stick_seeks(
    input: FrameInput,
    left: Option<Buttons>,
    right: Option<Buttons>,
    now: u64,
)
    ensures
        ({
            let seek = input.actions(left, right, now).seek_stick;
            let stick = stick_of(left, right);
            &&& seek is Some ==> seek == Some(stick) && is_pushed(stick)
            &&& is_pushed(stick) && input.last_seek_ns is None ==> seek == Some(stick)
            &&& is_pushed(stick) && input.last_seek_ns is Some ==> (seek is Some <==> now
                >= input.last_seek_ns->0 + 100_000_000)
            &&& seek is Some ==> input.after(left, right, now).last_seek_ns == Some(now)
            &&& !is_pushed(stick) ==> input.after(left, right, now).last_seek_ns is None
        }),
{
}

/// The format of the desktop window counts as supported where the runtime lists its number.
pub proof fn law_supported_formats(format: SwapFormat, supported: Seq<u32>)
    ensures
        supports_desktop(Some(format), supported) <==> supported.contains(vk_code(format) as u32),
        !supports_desktop(None, supported),
{
    let vk = vk_code(format) as u32;
    if supported.contains(vk) {
        let k = choose|k: int| 0 <= k < supported.len() && supported[k] == vk;
        assert(supported[k] == vk_code(format));
    }
}

} // verus!

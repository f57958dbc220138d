//! The control bar.

use vstd::prelude::*;

use crate::number::{decimal, two_digits};
use crate::text::{chars_of, joined, string_of};

verus! {

/// Persistent state for the control bar panel.
pub struct ControlBarState {
    pub video_name: String,
    pub error: Option<String>,
    pub is_playing: bool,
    /// Current playback position in microseconds.
    pub current_us: u64,
    /// Total duration in microseconds; 0 if not yet known.
    pub duration_us: u64,
    /// Index of the playback speed.
    pub speed_index: usize,
    /// Loop state: 0 = off, 1 = start set, 2 = active (start and end set).
    pub loop_state: u8,
}

impl Default for ControlBarState {
    fn default() -> (r: ControlBarState)
        ensures
            r.wf(),
            r.video_name@ == Seq::<char>::empty(),
            r.error is None,
            r.is_playing,
            r.current_us == 0,
            r.duration_us == 0,
            r.speed_index == 0,
            r.loop_state == 0,
    {
        ControlBarState {
            video_name: String::new(),
            error: None,
            is_playing: true,
            current_us: 0,
            duration_us: 0,
            speed_index: 0,
            loop_state: 0,
        }
    }
}

/// Actions that the control bar UI wants the app to perform.
#[derive(Clone, Copy, PartialEq, Eq, Structural, Debug)]
pub struct ControlBarActions {
    pub play_pause: bool,
    pub prev: bool,
    pub next: bool,
    pub cycle_speed: bool,
    pub cycle_loop: bool,
    pub show_settings: bool,
    pub show_browser: bool,
    pub exit: bool,
    /// The scrubber has been moved to this position, in microseconds.
    pub seek_us: Option<u64>,
    /// Thumbstick-driven seek: signed microseconds to add to the current position (wraps at
    /// duration boundaries). Only emitted at most every 100 ms.
    pub seek_delta_us: Option<i64>,
    /// B (right) / Y (left) button just pressed: toggle panel visibility.
    pub menu_toggle: bool,
}

impl Default for ControlBarActions {
    fn default() -> (r: ControlBarActions)
        ensures
            r == (ControlBarActions {
                play_pause: false,
                prev: false,
                next: false,
                cycle_speed: false,
                cycle_loop: false,
                show_settings: false,
                show_browser: false,
                exit: false,
                seek_us: None,
                seek_delta_us: None,
                menu_toggle: false,
            }),
    {
        ControlBarActions {
            play_pause: false,
            prev: false,
            next: false,
            cycle_speed: false,
            cycle_loop: false,
            show_settings: false,
            show_browser: false,
            exit: false,
            seek_us: None,
            seek_delta_us: None,
            menu_toggle: false,
        }
    }
}

/// Icons of the buttons that change with the state.
#[derive(Clone, Copy, PartialEq, Eq, Structural, Debug)]
pub enum Icon {
    Play,
    Pause,
    Speed1,
    Speed66,
    Speed5,
    Speed33,
    Speed25,
    Loop0,
    Loop1,
    Loop2,
}

/// A time in seconds as minutes and seconds, or as hours, minutes and seconds from one hour on.
pub open spec fn time_text(s: int) -> Seq<char> {
    if s >= 3600 {
        crate::number::decimal_of(s / 3600) + seq![':'] + crate::number::two_digits_of(s / 60 % 60)
            + seq![':'] + crate::number::two_digits_of(s % 60)
    } else {
        crate::number::decimal_of(s / 60) + seq![':'] + crate::number::two_digits_of(s % 60)
    }
}

/// The position and the duration as they are shown.
pub open spec fn label_of(current_us: int, duration_us: int) -> Seq<char> {
    let whole = if duration_us > 0 {
        time_text(duration_us / 1_000_000)
    } else {
        "--:--"@
    };
    time_text(current_us / 1_000_000) + " / "@ + whole
}

/// A time in seconds as text.
pub fn fmt_time(secs: u64) -> (r: Vec<char>)
    ensures
        r@ == time_text(secs as int),
{
    let m: u64 = secs / 60;
    let h: u64 = m / 60;
    let colon: Vec<char> = vec![':'];
    assert(colon@ =~= seq![':']);
    if h > 0 {
        assert(secs as int / 3600 == h);
        let hm = joined(&joined(&decimal(h), &colon), &two_digits(m % 60));
        joined(&joined(&hm, &colon), &two_digits(secs % 60))
    } else {
        joined(&joined(&decimal(m), &colon), &two_digits(secs % 60))
    }
}

/// The icon of the play button.
pub open spec fn play_icon_of(is_playing: bool) -> Icon {
    if is_playing {
        Icon::Pause
    } else {
        Icon::Play
    }
}

/// The icon of a playback speed.
pub open spec fn speed_icon_of(speed_index: int) -> Icon {
    if speed_index == 0 {
        Icon::Speed1
    } else if speed_index == 1 {
        Icon::Speed66
    } else if speed_index == 2 {
        Icon::Speed5
    } else if speed_index == 3 {
        Icon::Speed33
    } else {
        Icon::Speed25
    }
}

/// The icon of the loop button.
pub open spec fn loop_icon_of(loop_state: u8) -> Icon {
    if loop_state == 0 {
        Icon::Loop0
    } else if loop_state == 1 {
        Icon::Loop1
    } else {
        Icon::Loop2
    }
}

/// Where the scrubber stands, as numerator and denominator.
pub open spec fn scrubber_of(current_us: int, duration_us: int) -> (int, int) {
    if duration_us == 0 {
        (0, 1)
    } else if current_us <= duration_us {
        (current_us, duration_us)
    } else {
        (duration_us, duration_us)
    }
}

impl ControlBarState {
    /// The speed exists and the loop state is one of three.
    pub open spec fn wf(self) -> bool {
        self.speed_index < crate::ui::speed::SPEED_COUNT && self.loop_state <= 2
    }

    /// Position and duration, in whole seconds.
    pub fn time_label(&self) -> (r: String)
        ensures
            r@ == label_of(self.current_us as int, self.duration_us as int),
            r@ == time_text(self.current_us as int / 1_000_000) + " / "@ + if self.duration_us
                > 0 {
                time_text(self.duration_us as int / 1_000_000)
            } else {
                "--:--"@
            },
    {
        let current = fmt_time(self.current_us / 1_000_000);
        let duration = if self.duration_us > 0 {
            fmt_time(self.duration_us / 1_000_000)
        } else {
            chars_of("--:--")
        };
        string_of(&joined(&joined(&current, &chars_of(" / ")), &duration))
    }

    /// Where the scrubber stands, as numerator and denominator of the part of the duration that
    /// has been played.
    pub fn scrubber(&self) -> (r: (u64, u64))
        ensures
            (r.0 as int, r.1 as int) == scrubber_of(
                self.current_us as int,
                self.duration_us as int,
            ),
            r.0 <= r.1,
            r.1 > 0,
            self.duration_us == 0 ==> r == (0u64, 1u64),
            self.duration_us > 0 ==> r.1 == self.duration_us && r.0 == if self.current_us
                <= self.duration_us {
                self.current_us
            } else {
                self.duration_us
            },
    {
        if self.duration_us == 0 {
            (0, 1)
        } else if self.current_us <= self.duration_us {
            (self.current_us, self.duration_us)
        } else {
            (self.duration_us, self.duration_us)
        }
    }

    /// The icon that a click on the play button stands for.
    pub fn play_icon(&self) -> (r: Icon)
        ensures
            r == play_icon_of(self.is_playing),
            r == if self.is_playing {
                Icon::Pause
            } else {
                Icon::Play
            },
    {
        if self.is_playing {
            Icon::Pause
        } else {
            Icon::Play
        }
    }

    /// The icon of the playback speed.
    pub fn speed_icon(&self) -> (r: Icon)
        ensures
            r == speed_icon_of(self.speed_index as int),
            r == match self.speed_index {
                0usize => Icon::Speed1,
                1usize => Icon::Speed66,
                2usize => Icon::Speed5,
                3usize => Icon::Speed33,
                _ => Icon::Speed25,
            },
    {
        if self.speed_index == 0 {
            Icon::Speed1
        } else if self.speed_index == 1 {
            Icon::Speed66
        } else if self.speed_index == 2 {
            Icon::Speed5
        } else if self.speed_index == 3 {
            Icon::Speed33
        } else {
            Icon::Speed25
        }
    }

    /// The icon of the loop button, and whether it is shown as selected.
    pub fn loop_icon(&self) -> (r: (Icon, bool))
        ensures
            r.0 == loop_icon_of(self.loop_state),
            r.0 == match self.loop_state {
                0u8 => Icon::Loop0,
                1u8 => Icon::Loop1,
                _ => Icon::Loop2,
            },
            r.1 <==> self.loop_state > 0,
    {
        if self.loop_state == 0 {
            (Icon::Loop0, false)
        } else if self.loop_state == 1 {
            (Icon::Loop1, true)
        } else {
            (Icon::Loop2, true)
        }
    }
}

// ── laws ────────────────────────────────────────────────────────────────────

/// The percentage that an icon shows.
pub open spec fn percentage(icon: Icon) -> int {
    match icon {
        Icon::Speed1 => 100,
        Icon::Speed66 => 66,
        Icon::Speed5 => 50,
        Icon::Speed33 => 33,
        Icon::Speed25 => 25,
        _ => 0,
    }
}

/// The icon of a speed shows that speed, in whole percent.
pub proof fn law_speed_icons_show_the_speed(speed_index: int)
    requires
        0 <= speed_index < crate::ui::speed::SPEED_COUNT,
    ensures
        ({
            let (num, den) = crate::ui::speed::speed(speed_index);
            let shown = percentage(speed_icon_of(speed_index));
            shown * den <= 100 * num < (shown + 1) * den
        }),
{
    assert(100 * 1 <= 100 * 1 < 101 * 1);
    assert(66 * 3 <= 100 * 2 < 67 * 3);
    assert(50 * 2 <= 100 * 1 < 51 * 2);
    assert(33 * 3 <= 100 * 1 < 34 * 3);
    assert(25 * 4 <= 100 * 1 < 26 * 4);
    if speed_index == 0 {
        assert(crate::ui::speed::speed(speed_index) == (1int, 1int));
    } else if speed_index == 1 {
        assert(crate::ui::speed::speed(speed_index) == (2int, 3int));
    } else if speed_index == 2 {
        assert(crate::ui::speed::speed(speed_index) == (1int, 2int));
    } else if speed_index == 3 {
        assert(crate::ui::speed::speed(speed_index) == (1int, 3int));
    } else {
        assert(crate::ui::speed::speed(speed_index) == (1int, 4int));
    }
}

/// The play button shows what a click does, and the loop button shows each state differently.
pub proof fn law_icons_tell_the_states_apart(is_playing: bool, a: u8, b: u8)
    requires
        a <= 2,
        b <= 2,
    ensures
        play_icon_of(is_playing) == Icon::Pause <==> is_playing,
        play_icon_of(is_playing) == Icon::Play <==> !is_playing,
        loop_icon_of(a) == loop_icon_of(b) <==> a == b,
        a == 0 <==> loop_icon_of(a) == Icon::Loop0,
        a == 2 <==> loop_icon_of(a) == Icon::Loop2,
{
}

/// The scrubber stands at the part of the duration that has been played, never beyond its end,
/// and at its start while the duration is not known.
pub proof fn law_scrubber_shows_the_part_played(current_us: int, duration_us: int)
    requires
        0 <= current_us,
        0 <= duration_us,
    ensures
        ({
            let (num, den) = scrubber_of(current_us, duration_us);
            &&& 0 <= num <= den && 0 < den
            &&& duration_us == 0 ==> num == 0
            &&& 0 < duration_us && current_us <= duration_us ==> num * duration_us == current_us
                * den
            &&& 0 < duration_us < current_us ==> num == den
        }),
{
}

/// A time shows its seconds in two digits at the end, after a colon; before it stand the minutes,
/// in two digits after the hours where there are any.
pub proof fn law_times_end_in_seconds(s: int)
    requires
        0 <= s,
    ensures
        ({
            let t = time_text(s);
            let n = t.len();
            &&& n >= 4
            &&& t[n - 3] == ':'
            &&& t.skip(n - 2) == crate::number::two_digits_of(s % 60)
            &&& s < 3600 ==> t.take(n - 3) == crate::number::decimal_of(s / 60)
            &&& s >= 3600 ==> n >= 7 && t[n - 6] == ':' && t.subrange(n - 5, n - 3)
                == crate::number::two_digits_of(s / 60 % 60) && t.take(n - 6)
                == crate::number::decimal_of(s / 3600)
        }),
{
    let t = time_text(s);
    let n = t.len();
    assert(crate::number::two_digits_of(s % 60).len() == 2);
    assert(crate::number::two_digits_of(s / 60 % 60).len() == 2);
    crate::number::law_decimal_is_read_back(s / 60);
    crate::number::law_decimal_is_read_back(s / 3600);
    assert(t.skip(n - 2) =~= crate::number::two_digits_of(s % 60));
    if s < 3600 {
        assert(t.take(n - 3) =~= crate::number::decimal_of(s / 60));
    } else {
        assert(t.subrange(n - 5, n - 3) =~= crate::number::two_digits_of(s / 60 % 60));
        assert(t.take(n - 6) =~= crate::number::decimal_of(s / 3600));
    }
}

/// The label shows the whole seconds of the position and of the duration, with a slash between them,
/// and dashes for a duration that is not known.
pub proof fn law_label_shows_position_and_duration(s: int, part: int, d: int, rest: int)
    requires
        0 <= s,
        0 <= part < 1_000_000,
        0 <= d,
        0 <= rest < 1_000_000,
    ensures
        d > 0 || rest > 0 ==> label_of(s * 1_000_000 + part, d * 1_000_000 + rest) == time_text(s)
            + seq![' ', '/', ' '] + time_text(d),
        label_of(s * 1_000_000 + part, 0) == time_text(s) + seq![' ', '/', ' '] + seq![
            '-',
            '-',
            ':',
            '-',
            '-',
        ],
{
    reveal_strlit(" / ");
    reveal_strlit("--:--");
    assert(" / "@ =~= seq![' ', '/', ' ']);
    assert("--:--"@ =~= seq!['-', '-', ':', '-', '-']);
    assert((s * 1_000_000 + part) / 1_000_000 == s);
    assert((d * 1_000_000 + rest) / 1_000_000 == d);
}

} // verus!

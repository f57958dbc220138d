//! The command line.

use vstd::prelude::*;

use crate::number::parse_decimal;
use crate::path::{parent, Platform};
use crate::source::is_url;
use crate::text::{chars_of, rfind_from, same_str, slice_of, string_of};

verus! {

// ── times ───────────────────────────────────────────────────────────────────

/// The value of `fields` numbers at most, separated by colons, each worth sixty of the next.
pub open spec fn clock_value(s: Seq<char>, fields: nat) -> Option<int>
    decreases fields,
{
    match crate::text::last_from(s, ':', 0) {
        None => crate::number::value_of(s),
        Some(p) => if fields <= 1 {
            None
        } else {
            match (
                clock_value(s.take(p), (fields - 1) as nat),
                crate::number::value_of(s.skip(p + 1)),
            ) {
                (Some(high), Some(low)) => Some(high * 60 + low),
                _ => None,
            }
        },
    }
}

/// The seconds that a time stands for: `12:34:56`, `12:34` or `123`.
pub open spec fn seconds_of(s: Seq<char>) -> Option<int> {
    clock_value(s, 3)
}

proof fn lemma_clock_value_is_natural(s: Seq<char>, fields: nat)
    ensures
        clock_value(s, fields) matches Some(v) ==> v >= 0,
    decreases fields,
{
    crate::number::lemma_value_is_natural(s);
    match crate::text::last_from(s, ':', 0) {
        None => {},
        Some(p) => {
            crate::number::lemma_value_is_natural(s.skip(p + 1));
            if fields > 1 {
                lemma_clock_value_is_natural(s.take(p), (fields - 1) as nat);
            }
        },
    }
}

fn parse_clock(s: &[char], fields: u8) -> (r: Option<u64>)
    ensures
        match r {
            Some(v) => clock_value(s@, fields as nat) == Some(v as int),
            None => match clock_value(s@, fields as nat) {
                Some(v) => v > u64::MAX,
                None => true,
            },
        },
    decreases fields,
{
    match rfind_from(s, ':', 0) {
        None => parse_decimal(s),
        Some(p) => {
            if fields <= 1 {
                return None;
            }
            let front = slice_of(s, 0, p);
            let back = slice_of(s, p + 1, s.len());
            proof {
                assert(front@ =~= s@.take(p as int));
                assert(back@ =~= s@.skip(p + 1));
                lemma_clock_value_is_natural(front@, (fields - 1) as nat);
                crate::number::lemma_value_is_natural(back@);
            }
            match (parse_clock(&front, fields - 1), parse_decimal(&back)) {
                (Some(high), Some(low)) => {
                    if high > (u64::MAX - low) / 60 {
                        None
                    } else {
                        Some(high * 60 + low)
                    }
                },
                _ => None,
            }
        },
    }
}

/// The seconds that a time stands for, if it is one and fits in 64 bits.
pub fn parse_time(s: &str) -> (r: Option<u64>)
    ensures
        match r {
            Some(v) => seconds_of(s@) == Some(v as int),
            None => match seconds_of(s@) {
                Some(v) => v > u64::MAX,
                None => true,
            },
        },
{
    parse_clock(&chars_of(s), 3)
}

// ── arguments ───────────────────────────────────────────────────────────────

/// What the command line asks for.
pub struct Args {
    pub verbose: bool,
    /// Where to start the video, in seconds.
    pub start_secs: Option<u64>,
    /// A path or URL.
    pub target: Option<String>,
}

/// What the command line asks for.
#[verifier::ext_equal]
pub struct ArgsView {
    pub verbose: bool,
    pub start_secs: Option<int>,
    pub target: Option<Seq<char>>,
}

impl View for Args {
    type V = ArgsView;

    open spec fn view(&self) -> ArgsView {
        ArgsView {
            verbose: self.verbose,
            start_secs: match self.start_secs {
                Some(s) => Some(s as int),
                None => None,
            },
            target: crate::video_meta::text_of(self.target),
        }
    }
}

/// The texts of a list of strings.
pub open spec fn texts(args: Seq<String>) -> Seq<Seq<char>> {
    args.map_values(|a: String| a@)
}

/// The flag for verbose output.
pub open spec fn is_verbose_flag(arg: Seq<char>) -> bool {
    arg == "-v"@ || arg == "--verbose"@
}

/// The flag that a start time follows.
pub open spec fn is_start_flag(arg: Seq<char>) -> bool {
    arg == "-t"@ || arg == "--start"@
}

/// The time that an argument stands for, if it fits in 64 bits.
pub open spec fn start_time(arg: Seq<char>) -> Option<int> {
    match crate::cli::seconds_of(arg) {
        Some(v) => if v <= u64::MAX {
            Some(v)
        } else {
            None
        },
        None => None,
    }
}

/// What the arguments from `i` on ask for in addition to `seen`: flags count wherever they
/// stand, and of the rest the first is the path or URL. Of several start times the last counts.
pub open spec fn parsed_from(args: Seq<Seq<char>>, i: int, seen: ArgsView) -> ArgsView
    decreases args.len() - i,
{
    if i >= args.len() {
        seen
    } else if is_verbose_flag(args[i]) {
        parsed_from(args, i + 1, ArgsView { verbose: true, ..seen })
    } else if is_start_flag(args[i]) {
        if i + 1 < args.len() {
            parsed_from(args, i + 2, ArgsView { start_secs: start_time(args[i + 1]), ..seen })
        } else {
            seen
        }
    } else if seen.target is None {
        parsed_from(args, i + 1, ArgsView { target: Some(args[i]), ..seen })
    } else {
        parsed_from(args, i + 1, seen)
    }
}

/// What the command line asks for; `args` does not hold the name of the program.
pub fn parse_args(args: &Vec<String>) -> (r: Args)
    ensures
        r@ == parsed_from(
            texts(args@),
            0,
            (ArgsView { verbose: false, start_secs: None, target: None }),
        ),
{
    let mut out = Args { verbose: false, start_secs: None, target: None };
    let mut i: usize = 0;
    let ghost all = parsed_from(
        texts(args@),
        0,
        (ArgsView { verbose: false, start_secs: None, target: None }),
    );
    assert(out@ =~= (ArgsView { verbose: false, start_secs: None, target: None }));
    while i < args.len()
        invariant
            i <= args@.len(),
            all == parsed_from(texts(args@), i as int, out@),
        decreases args@.len() - i,
    {
        let arg = &args[i];
        let ghost before = out@;
        assert(texts(args@)[i as int] == arg@);
        if same_str(arg, "-v") || same_str(arg, "--verbose") {
            out.verbose = true;
            assert(out@ =~= (ArgsView { verbose: true, ..before }));
            i = i + 1;
        } else if same_str(arg, "-t") || same_str(arg, "--start") {
            if args.len() - i < 2 {
                i = args.len();
            } else {
                assert(texts(args@)[i + 1] == args@[i + 1]@);
                out.start_secs = parse_time(&args[i + 1]);
                assert(out@ =~= (ArgsView {
                    start_secs: start_time(texts(args@)[i + 1]),
                    ..before
                }));
                i = i + 2;
            }
        } else {
            if out.target.is_none() {
                out.target = Some(string_of(&chars_of(arg)));
                assert(out@ =~= (ArgsView { target: Some(arg@), ..before }));
            }
            i = i + 1;
        }
    }
    out
}

// ── startup ─────────────────────────────────────────────────────────────────

/// What was found on disk about what the command line names.
pub struct StartProbe {
    /// There is a directory at the path that the command line names.
    pub target_is_dir: bool,
    /// There is a directory at the parent of that path.
    pub parent_is_dir: bool,
    /// The last browsed directory, if it still exists.
    pub last_dir: Option<String>,
    /// The user's home directory.
    pub home_dir: Option<String>,
}

/// How the app starts.
pub struct Startup {
    /// The video to play.
    pub video_source: Option<String>,
    /// The directory to open the browser at.
    pub browser_dir: Option<String>,
    /// The directory to remember as the last one browsed.
    pub last_dir: Option<String>,
}

/// How the app starts.
#[verifier::ext_equal]
pub struct StartupView {
    pub video_source: Option<Seq<char>>,
    pub browser_dir: Option<Seq<char>>,
    pub last_dir: Option<Seq<char>>,
}

impl View for Startup {
    type V = StartupView;

    open spec fn view(&self) -> StartupView {
        StartupView {
            video_source: crate::video_meta::text_of(self.video_source),
            browser_dir: crate::video_meta::text_of(self.browser_dir),
            last_dir: crate::video_meta::text_of(self.last_dir),
        }
    }
}

/// How the app starts: a URL is played; so is a file, and its directory is remembered where it
/// exists; a directory is browsed; without an argument the last directory is browsed, or else
/// the user's home.
pub open spec fn startup_of(
    platform: Platform,
    target: Option<Seq<char>>,
    probe: StartProbe,
) -> StartupView {
    match target {
        None => StartupView {
            video_source: None,
            browser_dir: match probe.last_dir {
                Some(dir) => Some(dir@),
                None => crate::video_meta::text_of(probe.home_dir),
            },
            last_dir: None,
        },
        Some(s) => if crate::net::is_http(s) {
            StartupView { video_source: Some(s), browser_dir: None, last_dir: None }
        } else if probe.target_is_dir {
            StartupView { video_source: None, browser_dir: Some(s), last_dir: None }
        } else {
            StartupView {
                video_source: Some(s),
                browser_dir: None,
                last_dir: if probe.parent_is_dir {
                    crate::path::parent_of(platform, s)
                } else {
                    None
                },
            }
        },
    }
}

/// How the app starts.
pub fn startup(platform: Platform, target: Option<String>, probe: StartProbe) -> (r: Startup)
    ensures
        r@ == startup_of(platform, crate::video_meta::text_of(target), probe),
{
    match target {
        None => Startup {
            video_source: None,
            browser_dir: match probe.last_dir {
                Some(dir) => Some(dir),
                None => probe.home_dir,
            },
            last_dir: None,
        },
        Some(s) => {
            if is_url(&s) {
                Startup { video_source: Some(s), browser_dir: None, last_dir: None }
            } else if probe.target_is_dir {
                Startup { video_source: None, browser_dir: Some(s), last_dir: None }
            } else {
                let last_dir = if probe.parent_is_dir {
                    parent(platform, &s)
                } else {
                    None
                };
                Startup { video_source: Some(s), browser_dir: None, last_dir }
            }
        },
    }
}

// ── laws ────────────────────────────────────────────────────────────────────

/// The last colon of a text is the one with none behind it.
proof fn lemma_last_colon(s: Seq<char>, p: int)
    requires
        0 <= p < s.len(),
        s[p] == ':',
        forall|q: int| p < q < s.len() ==> s[q] != ':',
    ensures
        crate::text::last_from(s, ':', 0) == Some(p),
{
    crate::text::lemma_last_from(s, ':', 0);
}

/// Digits behind a colon are the last field.
proof fn lemma_clock_of_fields(front: Seq<char>, back: Seq<char>, fields: nat)
    requires
        fields > 1,
        forall|i: int| 0 <= i < back.len() ==> crate::number::is_digit(#[trigger] back[i]),
    ensures
        clock_value(front + seq![':'] + back, fields) == match (
            clock_value(front, (fields - 1) as nat),
            crate::number::value_of(back),
        ) {
            (Some(high), Some(low)) => Some(high * 60 + low),
            _ => None,
        },
{
    let s = front + seq![':'] + back;
    let p = front.len() as int;
    assert forall|q: int| p < q < s.len() implies s[q] != ':' by {
        assert(s[q] == back[q - p - 1]);
    }
    lemma_last_colon(s, p);
    assert(s.take(p) =~= front);
    assert(s.skip(p + 1) =~= back);
}

proof fn lemma_clock_of_digits(s: Seq<char>, fields: nat)
    requires
        forall|i: int| 0 <= i < s.len() ==> crate::number::is_digit(#[trigger] s[i]),
    ensures
        clock_value(s, fields) == crate::number::value_of(s),
{
    crate::text::lemma_last_from(s, ':', 0);
    match crate::text::last_from(s, ':', 0) {
        Some(p) => {
            assert(crate::number::is_digit(s[p]));
        },
        None => {},
    }
}

/// A time as the control bar shows it, given as a start time, means that time.
pub proof fn law_shown_times_are_read_back(s: int)
    requires
        0 <= s,
    ensures
        seconds_of(crate::ui::control_bar::time_text(s)) == Some(s),
{
    let low = crate::number::two_digits_of(s % 60);
    crate::number::law_two_digits_are_read_back(s % 60);
    if s >= 3600 {
        let hours = crate::number::decimal_of(s / 3600);
        let minutes = crate::number::two_digits_of(s / 60 % 60);
        crate::number::law_decimal_is_read_back(s / 3600);
        crate::number::law_two_digits_are_read_back(s / 60 % 60);
        lemma_clock_of_digits(hours, 1);
        lemma_clock_of_fields(hours, minutes, 2);
        lemma_clock_of_fields(hours + seq![':'] + minutes, low, 3);
        assert(s == (s / 3600 * 60 + s / 60 % 60) * 60 + s % 60);
    } else {
        let minutes = crate::number::decimal_of(s / 60);
        crate::number::law_decimal_is_read_back(s / 60);
        lemma_clock_of_digits(minutes, 2);
        lemma_clock_of_fields(minutes, low, 3);
    }
}

/// A time of digits only is a number of seconds.
pub proof fn law_plain_numbers_are_seconds(n: int)
    requires
        0 <= n,
    ensures
        seconds_of(crate::number::decimal_of(n)) == Some(n),
{
    crate::number::law_decimal_is_read_back(n);
    lemma_clock_of_digits(crate::number::decimal_of(n), 3);
}

/// The app never starts with a video and with the browser at once.
pub proof fn law_start_is_video_or_browser(
    platform: Platform,
    target: Option<Seq<char>>,
    probe: StartProbe,
)
    ensures
        startup_of(platform, target, probe).video_source is None || startup_of(
            platform,
            target,
            probe,
        ).browser_dir is None,
        target is Some ==> startup_of(platform, target, probe).video_source is Some || startup_of(
            platform,
            target,
            probe,
        ).browser_dir is Some,
{
}

/// A time of two numbers is minutes and seconds, one of three is hours, minutes and seconds; the
/// numbers may have any number of digits and any size.
pub proof fn law_times_are_sixtieths(h: Seq<char>, m: Seq<char>, s: Seq<char>, hv: int, mv: int, sv: int)
    requires
        crate::number::value_of(h) == Some(hv),
        crate::number::value_of(m) == Some(mv),
        crate::number::value_of(s) == Some(sv),
    ensures
        seconds_of(s) == Some(sv),
        seconds_of(m + seq![':'] + s) == Some(mv * 60 + sv),
        seconds_of(h + seq![':'] + m + seq![':'] + s) == Some(hv * 3600 + mv * 60 + sv),
{
    crate::number::law_only_digits_have_a_value(h);
    crate::number::law_only_digits_have_a_value(m);
    crate::number::law_only_digits_have_a_value(s);
    assert forall|i: int| 0 <= i < s.len() implies crate::number::is_digit(#[trigger] s[i]) by {}
    assert forall|i: int| 0 <= i < m.len() implies crate::number::is_digit(#[trigger] m[i]) by {}
    assert forall|i: int| 0 <= i < h.len() implies crate::number::is_digit(#[trigger] h[i]) by {}
    lemma_clock_of_digits(s, 3);
    lemma_clock_of_digits(m, 2);
    lemma_clock_of_digits(h, 1);
    lemma_clock_of_fields(m, s, 3);
    lemma_clock_of_fields(h, m, 2);
    lemma_clock_of_fields(h + seq![':'] + m, s, 3);
}

/// More than three numbers are no time, and neither is a text with anything but digits and colons
/// in it.
pub proof fn law_what_is_no_time(a: Seq<char>, h: Seq<char>, m: Seq<char>, s: Seq<char>, t: Seq<char>)
    requires
        crate::number::value_of(h) is Some,
        crate::number::value_of(m) is Some,
        crate::number::value_of(s) is Some,
        exists|i: int|
            0 <= i < t.len() && #[trigger] t[i] != ':' && !crate::number::is_digit(t[i]),
    ensures
        seconds_of(a + seq![':'] + h + seq![':'] + m + seq![':'] + s) is None,
        seconds_of(t) is None,
{
    crate::number::law_only_digits_have_a_value(h);
    crate::number::law_only_digits_have_a_value(m);
    crate::number::law_only_digits_have_a_value(s);
    assert forall|i: int| 0 <= i < s.len() implies crate::number::is_digit(#[trigger] s[i]) by {}
    assert forall|i: int| 0 <= i < m.len() implies crate::number::is_digit(#[trigger] m[i]) by {}
    let front = a + seq![':'] + h;
    lemma_clock_of_fields(front, m, 2);
    lemma_clock_of_fields(front + seq![':'] + m, s, 3);
    crate::text::lemma_last_from(front, ':', 0);
    assert(front[a.len() as int] == ':');
    assert(clock_value(front, 1) is None);
    lemma_other_characters(t, 3);
}

proof fn lemma_other_characters(t: Seq<char>, fields: nat)
    requires
        exists|i: int|
            0 <= i < t.len() && #[trigger] t[i] != ':' && !crate::number::is_digit(t[i]),
    ensures
        clock_value(t, fields) is None,
    decreases fields,
{
    let i = choose|i: int|
        0 <= i < t.len() && #[trigger] t[i] != ':' && !crate::number::is_digit(t[i]);
    crate::text::lemma_last_from(t, ':', 0);
    crate::number::law_only_digits_have_a_value(t);
    match crate::text::last_from(t, ':', 0) {
        None => {},
        Some(p) => if fields > 1 {
            if i < p {
                assert(t.take(p)[i] == t[i]);
                lemma_other_characters(t.take(p), (fields - 1) as nat);
            } else {
                let back = t.skip(p + 1);
                assert(back[i - p - 1] == t[i]);
                crate::number::law_only_digits_have_a_value(back);
            }
        },
    }
}

/// Nothing has been read of the command line.
pub open spec fn nothing_asked() -> ArgsView {
    ArgsView { verbose: false, start_secs: None, target: None }
}

/// What the arguments ask for.
pub open spec fn parsed(args: Seq<Seq<char>>) -> ArgsView {
    parsed_from(args, 0, nothing_asked())
}

/// The flags are `-v` and `--verbose` for verbose output, `-t` and `--start` for a start time.
pub proof fn law_flags(arg: Seq<char>)
    ensures
        is_verbose_flag(arg) <==> arg == seq!['-', 'v'] || arg == seq![
            '-',
            '-',
            'v',
            'e',
            'r',
            'b',
            'o',
            's',
            'e',
        ],
        is_start_flag(arg) <==> arg == seq!['-', 't'] || arg == seq![
            '-',
            '-',
            's',
            't',
            'a',
            'r',
            't',
        ],
{
    reveal_strlit("-v");
    reveal_strlit("--verbose");
    reveal_strlit("-t");
    reveal_strlit("--start");
    assert("-v"@ =~= seq!['-', 'v']);
    assert("--verbose"@ =~= seq!['-', '-', 'v', 'e', 'r', 'b', 'o', 's', 'e']);
    assert("-t"@ =~= seq!['-', 't']);
    assert("--start"@ =~= seq!['-', '-', 's', 't', 'a', 'r', 't']);
}

/// The arguments are read one after the other, whatever has been read before: a verbose flag makes
/// the output verbose, a start flag takes the argument behind it as the time, and the first of the
/// others is what to open. A start flag at the end says nothing.
pub proof fn law_arguments_are_read_in_order(
    before: Seq<Seq<char>>,
    after: Seq<Seq<char>>,
    arg: Seq<char>,
    time: Seq<char>,
    seen: ArgsView,
)
    ensures
        ({
            let i = before.len() as int;
            &&& is_verbose_flag(arg) ==> parsed_from(before + seq![arg] + after, i, seen)
                == parsed_from(
                before + seq![arg] + after,
                i + 1,
                ArgsView { verbose: true, ..seen },
            )
            &&& is_start_flag(arg) ==> parsed_from(before + seq![arg, time] + after, i, seen)
                == parsed_from(
                before + seq![arg, time] + after,
                i + 2,
                ArgsView { start_secs: start_time(time), ..seen },
            )
            &&& is_start_flag(arg) ==> parsed_from(before + seq![arg], i, seen) == seen
            &&& !is_verbose_flag(arg) && !is_start_flag(arg) ==> parsed_from(
                before + seq![arg] + after,
                i,
                seen,
            ) == parsed_from(
                before + seq![arg] + after,
                i + 1,
                ArgsView {
                    target: if seen.target is None {
                        Some(arg)
                    } else {
                        seen.target
                    },
                    ..seen
                },
            )
        }),
{
    law_flags(arg);
    let i = before.len() as int;
    let one = before + seq![arg] + after;
    let two = before + seq![arg, time] + after;
    assert(one[i] == arg);
    assert(two[i] == arg && two[i + 1] == time);
    assert((before + seq![arg])[i] == arg);
    if seen.target is Some {
        assert(seen =~= ArgsView { target: seen.target, ..seen });
    }
}

/// A path or URL is opened wherever it stands among the flags, and a start time is read wherever
/// its flag stands.
pub proof fn law_flags_stand_anywhere(target: Seq<char>, flag: Seq<char>, time: Seq<char>, loud: Seq<char>)
    requires
        !is_verbose_flag(target),
        !is_start_flag(target),
        is_start_flag(flag),
        is_verbose_flag(loud),
    ensures
        parsed(seq![target]) == (ArgsView { target: Some(target), ..nothing_asked() }),
        parsed(seq![target, flag, time]) == (ArgsView {
            target: Some(target),
            start_secs: start_time(time),
            verbose: false,
        }),
        parsed(seq![flag, time, target]) == parsed(seq![target, flag, time]),
        parsed(seq![loud, target]) == (ArgsView {
            target: Some(target),
            start_secs: None,
            verbose: true,
        }),
        parsed(seq![target, loud]) == parsed(seq![loud, target]),
        parsed(seq![]) == nothing_asked(),
{
    let none = nothing_asked();
    let named = ArgsView { target: Some(target), ..none };
    let timed = ArgsView { start_secs: start_time(time), ..none };
    let verbose = ArgsView { verbose: true, ..none };
    let both = ArgsView { target: Some(target), ..timed };
    let all = ArgsView { target: Some(target), ..verbose };
    lemma_start_is_not_verbose(flag);
    let a = seq![target];
    assert(a[0] == target);
    assert(parsed_from(a, 1, named) == named);
    assert(parsed_from(a, 0, none) == named);
    let b = seq![target, flag, time];
    assert(b[0] == target && b[1] == flag && b[2] == time);
    assert(parsed_from(b, 3, both) == both);
    assert(parsed_from(b, 1, named) == both);
    assert(parsed_from(b, 0, none) == both);
    let c = seq![flag, time, target];
    assert(c[0] == flag && c[1] == time && c[2] == target);
    assert(parsed_from(c, 3, both) == both);
    assert(parsed_from(c, 2, timed) == both);
    assert(parsed_from(c, 0, none) == both);
    let d = seq![loud, target];
    assert(d[0] == loud && d[1] == target);
    assert(parsed_from(d, 2, all) == all);
    assert(parsed_from(d, 1, verbose) == all);
    assert(parsed_from(d, 0, none) == all);
    let e = seq![target, loud];
    assert(e[0] == target && e[1] == loud);
    assert(parsed_from(e, 2, all) == all);
    assert(parsed_from(e, 1, named) == all);
    assert(parsed_from(e, 0, none) == all);
    assert(parsed_from(seq![], 0, none) == none);
}

proof fn lemma_start_is_not_verbose(flag: Seq<char>)
    requires
        is_start_flag(flag),
    ensures
        !is_verbose_flag(flag),
{
    reveal_strlit("-v");
    reveal_strlit("--verbose");
    reveal_strlit("-t");
    reveal_strlit("--start");
    assert("-t"@[1] == 't');
    assert("-v"@[1] == 'v');
    assert("-t"@.len() == 2 && "-v"@.len() == 2);
    assert("--start"@.len() == 7 && "--verbose"@.len() == 9);
}

/// A start time counts where it is a time that fits in 64 bits, and is then that time.
pub proof fn law_start_times(arg: Seq<char>)
    ensures
        start_time(arg) matches Some(v) ==> seconds_of(arg) == Some(v) && v <= u64::MAX,
        seconds_of(arg) matches Some(v) ==> (v <= u64::MAX ==> start_time(arg) == Some(v)),
        seconds_of(arg) is None ==> start_time(arg) is None,
{
}

/// A URL and a file are played as they were given, and of a file in an existing directory that
/// directory is remembered; a directory is browsed; without an argument the last directory is
/// browsed, or else the home of the user.
pub proof fn law_what_the_app_starts_with(
    platform: Platform,
    target: Seq<char>,
    probe: StartProbe,
)
    ensures
        crate::net::is_http(target) ==> startup_of(platform, Some(target), probe) == (StartupView {
            video_source: Some(target),
            browser_dir: None,
            last_dir: None,
        }),
        !crate::net::is_http(target) && probe.target_is_dir ==> startup_of(
            platform,
            Some(target),
            probe,
        ) == (StartupView { video_source: None, browser_dir: Some(target), last_dir: None }),
        !crate::net::is_http(target) && !probe.target_is_dir ==> startup_of(
            platform,
            Some(target),
            probe,
        ).video_source == Some(target),
        !crate::net::is_http(target) && !probe.target_is_dir && probe.parent_is_dir ==> startup_of(
            platform,
            Some(target),
            probe,
        ).last_dir == crate::path::parent_of(platform, target),
        !crate::net::is_http(target) && !probe.target_is_dir && !probe.parent_is_dir ==> startup_of(
            platform,
            Some(target),
            probe,
        ).last_dir is None,
        probe.last_dir is Some ==> startup_of(platform, None, probe).browser_dir == Some(
            probe.last_dir->0@,
        ),
        probe.last_dir is None ==> startup_of(platform, None, probe).browser_dir
            == crate::video_meta::text_of(probe.home_dir),
        startup_of(platform, None, probe).video_source is None,
        startup_of(platform, None, probe).last_dir is None,
{
}

} // verus!

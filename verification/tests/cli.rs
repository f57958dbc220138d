use equirect::cli::{parse_args, parse_time, startup, Args, StartProbe};
use equirect::ipc::{handoff_message, LineBuffer};
use equirect::path::Platform;
use equirect::ui::control_bar::fmt_time;

fn args(list: &[&str]) -> Args {
    parse_args(&list.iter().map(|s| s.to_string()).collect())
}

#[test]
fn start_times() {
    assert_eq!(parse_time("12:34"), Some(12 * 60 + 34));
    assert_eq!(parse_time("12:34:56"), Some(45_296));
    assert_eq!(parse_time("123"), Some(123));
    assert_eq!(parse_time("2:03"), Some(123));
    assert_eq!(parse_time("0:0:90"), Some(90));
    assert_eq!(parse_time(""), None);
    assert_eq!(parse_time("1:"), None);
    assert_eq!(parse_time(":1"), None);
    assert_eq!(parse_time("1:2:3:4"), None);
    assert_eq!(parse_time("1.5"), None);
    assert_eq!(parse_time("18446744073709551615"), Some(u64::MAX));
    assert_eq!(parse_time("18446744073709551615:0"), None);
}

#[test]
fn shown_times_can_be_given_back() {
    for secs in [0u64, 5, 59, 60, 61, 3599, 3600, 3661, 86_399, 1_000_000] {
        let shown: String = fmt_time(secs).into_iter().collect();
        assert_eq!(parse_time(&shown), Some(secs));
    }
}

#[test]
fn flags_may_stand_anywhere() {
    let a = args(&["-v", "film.mp4", "--start", "1:30", "other.mp4"]);
    assert!(a.verbose);
    assert_eq!(a.start_secs, Some(90));
    assert_eq!(a.target, Some("film.mp4".to_string()));
    let b = args(&["film.mp4", "-t", "5", "--verbose"]);
    assert!(b.verbose);
    assert_eq!(b.start_secs, Some(5));
    let c = args(&[]);
    assert!(!c.verbose);
    assert_eq!((c.start_secs, c.target), (None, None));
    let d = args(&["film.mp4", "-t"]);
    assert_eq!((d.start_secs, d.target), (None, Some("film.mp4".to_string())));
    assert_eq!(args(&["-t", "soon", "x"]).start_secs, None);
}

fn probe(target_is_dir: bool, parent_is_dir: bool, last: Option<&str>) -> StartProbe {
    StartProbe {
        target_is_dir,
        parent_is_dir,
        last_dir: last.map(|s| s.to_string()),
        home_dir: Some("/home/ann".to_string()),
    }
}

#[test]
fn urls_are_played() {
    let s = startup(Platform::Unix, Some("http://h/a.mp4".to_string()), probe(true, true, None));
    assert_eq!(s.video_source, Some("http://h/a.mp4".to_string()));
    assert_eq!((s.browser_dir, s.last_dir), (None, None));
}

#[test]
fn files_are_played_and_their_folder_remembered() {
    let s = startup(Platform::Unix, Some("/films/a.mp4".to_string()), probe(false, true, None));
    assert_eq!(s.video_source, Some("/films/a.mp4".to_string()));
    assert_eq!(s.last_dir, Some("/films".to_string()));
    let gone = startup(Platform::Unix, Some("/films/a.mp4".to_string()), probe(false, false, None));
    assert_eq!(gone.last_dir, None);
}

#[test]
fn folders_are_browsed() {
    let s = startup(Platform::Unix, Some("/films".to_string()), probe(true, true, None));
    assert_eq!(s.browser_dir, Some("/films".to_string()));
    assert_eq!((s.video_source, s.last_dir), (None, None));
}

#[test]
fn without_arguments_the_last_folder_or_home() {
    let s = startup(Platform::Unix, None, probe(false, false, Some("/films")));
    assert_eq!(s.browser_dir, Some("/films".to_string()));
    let s = startup(Platform::Unix, None, probe(false, false, None));
    assert_eq!(s.browser_dir, Some("/home/ann".to_string()));
    assert_eq!(s.video_source, None);
}

#[test]
fn lines_arrive_whole() {
    let mut buffer = LineBuffer::new();
    assert!(buffer.receive("par").is_empty());
    assert_eq!(buffer.receive("t\nnext\nre"), vec!["part", "next"]);
    assert_eq!(buffer.receive("st\n\n"), vec!["rest", ""]);
    assert!(buffer.pending.is_empty());
}

#[test]
fn handed_over_arguments_arrive() {
    assert_eq!(handoff_message(Some("/films/a b.mp4".to_string())), "/films/a b.mp4\n");
    assert_eq!(handoff_message(None), "\n");
    let mut buffer = LineBuffer::new();
    assert_eq!(buffer.receive(&handoff_message(Some("/x".to_string()))), vec!["/x"]);
    assert_eq!(buffer.receive(&handoff_message(None)), vec![""]);
}

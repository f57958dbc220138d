use equirect::audio::{AudioGate, AudioTurn, Chunk, FramePlan, Ola, FRAME, HOP};
use equirect::number::{decimal, parse_decimal, two_digits, wrapped_sum};
use equirect::player::{LoopCommand, Player};
use equirect::ui::control_bar::{fmt_time, ControlBarActions, ControlBarState, Icon};
use equirect::ui::speed::{next_speed, speed_ratio};

fn text(v: Vec<char>) -> String {
    v.into_iter().collect()
}

fn open(duration_us: u64) -> Player {
    let mut p = Player::new();
    p.open_duration_us = Some(duration_us);
    p
}

#[test]
fn times_are_shown_in_minutes_or_hours() {
    assert_eq!(text(fmt_time(0)), "0:00");
    assert_eq!(text(fmt_time(65)), "1:05");
    assert_eq!(text(fmt_time(3599)), "59:59");
    assert_eq!(text(fmt_time(3600)), "1:00:00");
    assert_eq!(text(fmt_time(45_296)), "12:34:56");
}

#[test]
fn numbers_in_decimal() {
    assert_eq!(text(decimal(0)), "0");
    assert_eq!(text(decimal(u64::MAX)), u64::MAX.to_string());
    assert_eq!(text(two_digits(7)), "07");
    let parse = |s: &str| parse_decimal(&s.chars().collect::<Vec<char>>());
    assert_eq!(parse("18446744073709551615"), Some(u64::MAX));
    assert_eq!(parse("18446744073709551616"), None);
    assert_eq!(parse("007"), Some(7));
    assert_eq!(parse(""), None);
    assert_eq!(parse("-1"), None);
}

#[test]
fn sums_wrap_around() {
    for (pos, delta, n) in [(0u64, -1i64, 3u64), (2, 1, 3), (5, -11, 4), (0, i64::MIN, 7), (9, i64::MAX, 10)] {
        let want = (pos as i128 + delta as i128).rem_euclid(n as i128) as u64;
        assert_eq!(wrapped_sum(pos, delta, n), want);
    }
}

#[test]
fn time_label_and_scrubber() {
    let mut s = ControlBarState::default();
    assert_eq!(s.time_label(), "0:00 / --:--");
    assert_eq!(s.scrubber(), (0, 1));
    s.current_us = 61_999_999;
    s.duration_us = 3_600_000_000;
    assert_eq!(s.time_label(), "1:01 / 1:00:00");
    assert_eq!(s.scrubber(), (61_999_999, 3_600_000_000));
    s.current_us = 4_000_000_000;
    assert_eq!(s.scrubber(), (3_600_000_000, 3_600_000_000));
}

#[test]
fn icons_follow_the_state() {
    let mut s = ControlBarState::default();
    assert_eq!(s.play_icon(), Icon::Pause);
    s.is_playing = false;
    assert_eq!(s.play_icon(), Icon::Play);
    let icons: Vec<Icon> = (0..6).map(|i| { s.speed_index = i; s.speed_icon() }).collect();
    assert_eq!(icons, vec![Icon::Speed1, Icon::Speed66, Icon::Speed5, Icon::Speed33, Icon::Speed25, Icon::Speed25]);
    let loops: Vec<(Icon, bool)> = (0..3).map(|i| { s.loop_state = i; s.loop_icon() }).collect();
    assert_eq!(loops, vec![(Icon::Loop0, false), (Icon::Loop1, true), (Icon::Loop2, true)]);
}

#[test]
fn speeds() {
    let ratios: Vec<(u64, u64)> = (0..5).map(speed_ratio).collect();
    assert_eq!(ratios, vec![(1, 1), (2, 3), (1, 2), (1, 3), (1, 4)]);
    assert_eq!(next_speed(3), 4);
    assert_eq!(next_speed(4), 0);
}

#[test]
fn play_pause_and_speed() {
    let mut p = open(10);
    assert_eq!(p.toggle_play(), Some(true));
    assert!(!p.control_bar.is_playing);
    assert_eq!(p.toggle_play(), Some(false));
    for i in [1, 2, 3, 4, 0] {
        assert_eq!(p.cycle_speed(), Some(i));
    }
    let mut none = Player::new();
    assert_eq!(none.toggle_play(), None);
    assert!(!none.control_bar.is_playing);
    assert_eq!(none.cycle_speed(), None);
    assert_eq!(none.control_bar.speed_index, 1);
}

#[test]
fn loop_button_sets_start_then_end_then_turns_off() {
    let mut p = open(10);
    assert_eq!(p.cycle_loop(3), Some(LoopCommand::Start(3)));
    assert_eq!(p.cycle_loop(7), Some(LoopCommand::End(7)));
    assert_eq!(p.control_bar.loop_state, 2);
    assert_eq!(p.cycle_loop(9), Some(LoopCommand::Off));
    assert_eq!(p.control_bar.loop_state, 0);
    assert_eq!(Player::new().cycle_loop(3), None);
}

#[test]
fn seek_shows_its_target_until_the_decoder_is_there() {
    let mut p = open(100_000_000);
    assert_eq!(p.seek_to(50_000_000, 1_000), Some(50_000_000));
    p.update_position(10_000_000, 2_000);
    assert_eq!(p.control_bar.current_us, 50_000_000);
    p.update_position(49_899_999, 3_000);
    assert_eq!(p.control_bar.current_us, 50_000_000);
    p.update_position(49_900_000, 4_000);
    assert_eq!(p.control_bar.current_us, 49_900_000);
    p.update_position(10, 5_000);
    assert_eq!(p.control_bar.current_us, 10);
}

#[test]
fn seek_gives_up_after_half_a_second() {
    let mut p = open(100_000_000);
    p.seek_to(50_000_000, 1_000);
    p.update_position(10, 500_000_999);
    assert_eq!(p.control_bar.current_us, 50_000_000);
    p.update_position(10, 500_001_000);
    assert_eq!(p.control_bar.current_us, 10);
    assert_eq!(p.seek_target_us, None);
}

#[test]
fn seek_by_goes_round() {
    let mut p = open(60_000_000);
    p.control_bar.current_us = 55_000_000;
    assert_eq!(p.seek_by(10_000_000, 0), Some(5_000_000));
    assert_eq!(p.seek_by(-10_000_000, 0), Some(55_000_000));
    assert_eq!(p.control_bar.current_us, 55_000_000);
}

#[test]
fn nothing_to_seek_in() {
    assert_eq!(Player::new().seek_to(5, 0), None);
    assert_eq!(open(0).seek_by(5, 0), None);
    let mut p = Player::new();
    p.update_position(77, 0);
    assert_eq!(p.control_bar.current_us, 0);
}

#[test]
fn duration_is_taken_when_it_becomes_known() {
    let mut p = open(60);
    p.update_position(1, 0);
    assert_eq!(p.control_bar.duration_us, 60);
}

#[test]
fn actions_are_carried_out_together() {
    let mut p = open(100);
    let actions = ControlBarActions {
        play_pause: true,
        cycle_speed: true,
        cycle_loop: true,
        seek_us: Some(90),
        seek_delta_us: Some(20),
        ..ControlBarActions::default()
    };
    let c = p.on_actions(&actions, 42, 7);
    assert_eq!(c.paused, Some(true));
    assert_eq!(c.speed_index, Some(1));
    assert_eq!(c.looping, Some(LoopCommand::Start(42)));
    assert_eq!(c.seek_us, Some(10));
    assert_eq!(p.control_bar.current_us, 10);
    let nothing = p.on_actions(&ControlBarActions::default(), 42, 7);
    assert_eq!((nothing.paused, nothing.speed_index, nothing.looping, nothing.seek_us), (None, None, None, None));
}

#[test]
fn audio_callbacks() {
    let mut g = AudioGate::new(3);
    assert_eq!(g.on_callback(3, false, true, 0), AudioTurn::Pass { reset: false });
    assert_eq!(g.on_callback(4, true, true, 0), AudioTurn::Flush);
    assert_eq!(g.on_callback(4, true, true, 0), AudioTurn::Drain);
    assert_eq!(g.on_callback(4, false, false, 0), AudioTurn::Hold);
    assert_eq!(g.on_callback(4, false, true, 2), AudioTurn::Stretch { speed_index: 2 });
    assert_eq!(g.on_callback(4, false, true, 9), AudioTurn::Stretch { speed_index: 4 });
    assert_eq!(g.on_callback(4, false, true, 0), AudioTurn::Pass { reset: true });
    assert_eq!(g.on_callback(4, false, true, 0), AudioTurn::Pass { reset: false });
}

#[test]
fn stretcher_copies_chunk_by_chunk() {
    let mut o = Ola::new(2);
    assert_eq!(o.wanted(), 4 * FRAME * 2);
    assert_eq!(o.out_cursor, 2 * HOP);
    // no input yet
    assert_eq!(o.next_chunk(10, 2), Chunk { frame: Some(FramePlan::Silence), from: 0, len: 10 });
    assert_eq!(o.next_chunk(5000, 2), Chunk { frame: None, from: 10, len: 2 * HOP - 10 });
    o.fed(4 * FRAME * 2);
    assert_eq!(o.wanted(), 0);
    let c = o.next_chunk(5000, 2);
    assert_eq!(c.frame, Some(FramePlan::Mix { from: 0, drop: 512 * 2 }));
    assert_eq!(c.len, 2 * HOP);
    assert_eq!(o.buffered, 4 * FRAME * 2 - 1024);
    o.reset();
    assert_eq!((o.buffered, o.in_pos, o.out_cursor), (0, 0, 2 * HOP));
    o.fed(FRAME * 2);
    assert!(matches!(o.next_chunk(7, 2).frame, Some(FramePlan::Mix { .. })));
}

#[test]
fn stretcher_keeps_thirds_of_a_frame() {
    let mut o = Ola::new(1);
    o.next_chunk(1, 1);
    let mut dropped: usize = 0;
    for _ in 0..9 {
        let more = o.wanted();
        o.fed(more);
        o.out_cursor = HOP;
        if let Some(FramePlan::Mix { drop, .. }) = o.next_chunk(HOP, 1).frame {
            dropped += drop;
        }
    }
    // nine chunks at two thirds of the speed
    assert_eq!(dropped, 9 * HOP * 2 / 3);
    assert_eq!(o.in_pos, 0);
}

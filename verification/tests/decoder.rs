use equirect::video::decoder::{
    audio_format, duration_us, keeps_sending, native_size, on_audio_sample, pace, pending_seek,
    pts_us, reader_time, try_set_output_format, unpack_frame_size, AfterAudioRead, AfterRead,
    DecodeFmt, DecodeLoop, LoopRegion, OutputSubtype, Sample, Turn, NO_SEEK, NULL_STREAK_EOF,
};

const NO_LOOP: LoopRegion = LoopRegion { state: 0, start_us: 0, end_us: 0 };

fn frame(timestamp: i64) -> Sample {
    Sample { read_ok: true, flags: 0, present: true, timestamp }
}

fn flagged(flags: u32, present: bool) -> Sample {
    Sample { read_ok: true, flags, present, timestamp: 0 }
}

#[test]
fn positions_are_in_microseconds() {
    assert_eq!(pts_us(1_234_567), 123_456);
    assert_eq!(pts_us(-5), 0);
    assert_eq!(pts_us(-10), u64::MAX);
    assert_eq!(pts_us(i64::MIN), (i64::MIN / 10) as u64);
    assert_eq!(reader_time(5), 50);
    assert_eq!(reader_time(1_000_000_000_000_000_000), (10_000_000_000_000_000_000u64) as i64);
    assert_eq!(pts_us(reader_time(987_654)), 987_654);
}

#[test]
fn durations_and_sizes() {
    assert_eq!(duration_us(Some(123)), 12);
    assert_eq!(duration_us(None), 0);
    assert_eq!(unpack_frame_size((1920u64 << 32) | 1080), (1920, 1080));
    assert_eq!(native_size((1920u64 << 32) | 1080), Some((1920, 1080)));
    assert_eq!(native_size(1920u64 << 32), None);
    assert_eq!(native_size(1080), None);
    assert_eq!(native_size(0), None);
}

#[test]
fn output_formats_in_order() {
    assert_eq!(try_set_output_format(0), Some((OutputSubtype::Nv12, DecodeFmt::Nv12)));
    assert_eq!(try_set_output_format(1), Some((OutputSubtype::Argb32, DecodeFmt::Bgra)));
    assert_eq!(try_set_output_format(2), Some((OutputSubtype::Rgb32, DecodeFmt::Bgra)));
    assert_eq!(try_set_output_format(3), Some((OutputSubtype::Yuy2, DecodeFmt::Yuy2)));
    assert_eq!(try_set_output_format(4), None);
}

#[test]
fn frames_are_paced() {
    // ten milliseconds of video, two of which have passed
    assert_eq!(pace(100_000, 0, 0, 2_000_000), 7_500_000);
    // at a quarter of the speed it takes four times as long
    assert_eq!(pace(100_000, 0, 4, 2_000_000), 37_500_000);
    assert_eq!(pace(100_000, 0, 1, 0), 14_500_000);
    // due within a millisecond
    assert_eq!(pace(100_000, 0, 0, 9_000_000), 0);
    assert_eq!(pace(100_000, 0, 0, 8_999_999), 500_001);
    // late, or from before the start
    assert_eq!(pace(100_000, 0, 0, 50_000_000), 0);
    assert_eq!(pace(0, 100_000, 0, 0), 0);
}

#[test]
fn loop_stops_when_asked() {
    let mut l = DecodeLoop::new(0);
    let t = l.begin(true, Some(5), 0, false);
    assert!(matches!(t.turn, Turn::Stop));
    assert!(t.seek_to.is_none());
}

#[test]
fn paused_loop_waits_but_previews_a_seek() {
    let mut l = DecodeLoop::new(0);
    assert!(matches!(l.begin(false, None, 0, true).turn, Turn::Wait));
    let t = l.begin(false, Some(7), 0, true);
    assert!(matches!(t.turn, Turn::Read));
    assert_eq!(t.seek_to, Some(7));
    assert_eq!(l.seek_until_us, Some(7));
    assert!(matches!(l.on_sample(frame(60), NO_LOOP, 0, 0), AfterRead::CatchUp { pts_us: 6 }));
    assert!(matches!(l.begin(false, None, 0, true).turn, Turn::Read));
    assert!(matches!(l.on_sample(flagged(2, true), NO_LOOP, 0, 0), AfterRead::Tick));
    assert!(matches!(l.begin(false, None, 0, true).turn, Turn::Read));
    assert!(matches!(l.on_sample(frame(80), NO_LOOP, 0, 0), AfterRead::Show { pts_us: 8, .. }));
    assert!(matches!(l.begin(false, None, 0, true).turn, Turn::Wait));
    assert!(matches!(l.begin(false, None, 0, false).turn, Turn::Read));
}

#[test]
fn seek_behind_an_active_loop_leads_to_its_start() {
    let active = LoopRegion { state: 2, start_us: 40, end_us: 90 };
    for paused in [false, true] {
        let mut l = DecodeLoop::new(0);
        l.begin(false, Some(100), 0, paused);
        assert!(matches!(l.on_sample(frame(890), active, 0, 0), AfterRead::CatchUp { pts_us: 89 }));
        assert!(matches!(l.begin(false, None, 0, paused).turn, Turn::Read));
        assert!(matches!(l.on_sample(frame(900), active, 0, 0), AfterRead::LoopBack { start_us: 40 }));
        assert_eq!(l.seek_until_us, None);
        assert!(matches!(l.begin(false, None, 0, paused).turn, Turn::Read));
        match l.on_sample(frame(400), active, 0, 7) {
            AfterRead::Show { pts_us, resync_audio, start_audio, sleep_ns } => {
                assert_eq!((pts_us, resync_audio, start_audio, sleep_ns), (40, false, true, 0));
            }
            _ => panic!("nothing is shown"),
        }
        assert_eq!(matches!(l.begin(false, None, 0, paused).turn, Turn::Wait), paused);
    }
}

#[test]
fn preview_is_given_up_where_there_is_nothing_to_show() {
    let empty = LoopRegion { state: 2, start_us: 40, end_us: 40 };
    let mut l = DecodeLoop::new(0);
    l.begin(false, Some(100), 0, true);
    l.on_sample(frame(1000), empty, 0, 0);
    assert!(matches!(l.begin(false, None, 0, true).turn, Turn::Read));
    assert!(matches!(l.on_sample(frame(400), empty, 0, 0), AfterRead::LoopBack { start_us: 40 }));
    assert!(matches!(l.begin(false, None, 0, true).turn, Turn::Wait));
    let mut l = DecodeLoop::new(0);
    l.begin(false, Some(100), 0, true);
    l.on_sample(flagged(4, false), NO_LOOP, 0, 0);
    assert!(matches!(l.begin(false, None, 0, true).turn, Turn::Read));
    l.on_sample(flagged(4, false), NO_LOOP, 0, 0);
    assert!(matches!(l.begin(false, None, 0, true).turn, Turn::Wait));
}

#[test]
fn speed_change_restarts_pacing() {
    let mut l = DecodeLoop::new(0);
    l.on_sample(frame(0), NO_LOOP, 0, 100);
    assert_eq!(l.wall_start_ns, Some(100));
    l.begin(false, None, 2, false);
    assert_eq!(l.wall_start_ns, None);
    assert_eq!(l.last_speed_index, 2);
}

#[test]
fn errors_end_the_loop() {
    let mut l = DecodeLoop::new(0);
    let failed = Sample { read_ok: false, flags: 4, present: true, timestamp: 0 };
    assert!(matches!(l.on_sample(failed, NO_LOOP, 0, 0), AfterRead::ReadFailed));
    assert!(matches!(l.on_sample(flagged(1 | 4, true), NO_LOOP, 0, 0), AfterRead::SourceError));
}

#[test]
fn end_of_stream_reopens_even_with_a_tick() {
    let mut l = DecodeLoop::new(0);
    assert!(matches!(l.on_sample(flagged(4, false), NO_LOOP, 0, 0), AfterRead::Reopen { seek_to: 0 }));
    assert!(matches!(l.on_sample(flagged(6, false), NO_LOOP, 0, 0), AfterRead::Reopen { seek_to: 0 }));
    let active = LoopRegion { state: 2, start_us: 40, end_us: 90 };
    assert!(matches!(l.on_sample(flagged(4, true), active, 0, 0), AfterRead::Reopen { seek_to: 40 }));
    let half_set = LoopRegion { state: 1, start_us: 40, end_us: 90 };
    assert!(matches!(l.on_sample(flagged(4, true), half_set, 0, 0), AfterRead::Reopen { seek_to: 0 }));
}

#[test]
fn silence_counts_as_the_end() {
    let mut l = DecodeLoop::new(0);
    for _ in 1..NULL_STREAK_EOF {
        assert!(matches!(l.on_sample(flagged(2, true), NO_LOOP, 0, 0), AfterRead::Tick));
    }
    assert!(matches!(l.on_sample(flagged(0, false), NO_LOOP, 0, 0), AfterRead::Reopen { .. }));
    assert!(matches!(l.on_sample(flagged(0, false), NO_LOOP, 0, 0), AfterRead::Tick));
    l.on_sample(frame(0), NO_LOOP, 0, 0);
    assert_eq!(l.null_sample_streak, 0);
}

#[test]
fn active_loop_goes_back_at_its_end() {
    let mut l = DecodeLoop::new(0);
    let active = LoopRegion { state: 2, start_us: 40, end_us: 90 };
    assert!(matches!(l.on_sample(frame(890), active, 0, 0), AfterRead::Show { pts_us: 89, .. }));
    assert!(matches!(l.on_sample(frame(900), active, 0, 0), AfterRead::LoopBack { start_us: 40 }));
    assert_eq!(l.wall_start_ns, None);
}

#[test]
fn seek_catches_up_without_showing() {
    let mut l = DecodeLoop::new(0);
    l.begin(false, Some(1000), 0, false);
    assert!(matches!(l.on_sample(frame(9_990), NO_LOOP, 0, 0), AfterRead::CatchUp { pts_us: 999 }));
    match l.on_sample(frame(10_010), NO_LOOP, 0, 77) {
        AfterRead::Show { pts_us, resync_audio, start_audio, sleep_ns } => {
            assert_eq!((pts_us, resync_audio, start_audio, sleep_ns), (1001, true, true, 0));
        }
        _ => panic!("not shown"),
    }
    match l.on_sample(frame(110_010), NO_LOOP, 0, 77) {
        AfterRead::Show { resync_audio, start_audio, sleep_ns, .. } => {
            assert_eq!((resync_audio, start_audio, sleep_ns), (false, false, 9_500_000));
        }
        _ => panic!("not shown"),
    }
}

#[test]
fn audio_samples() {
    assert_eq!(on_audio_sample(flagged(1, true)), AfterAudioRead::Retry);
    assert_eq!(on_audio_sample(flagged(4, true)), AfterAudioRead::Rewind);
    assert_eq!(on_audio_sample(flagged(0, false)), AfterAudioRead::Skip);
    assert_eq!(on_audio_sample(flagged(0, true)), AfterAudioRead::Play);
    assert_eq!(pending_seek(NO_SEEK), None);
    assert_eq!(pending_seek(0), Some(0));
    assert!(keeps_sending(NO_SEEK, false));
    assert!(!keeps_sending(NO_SEEK, true));
    assert!(!keeps_sending(3, false));
    assert_eq!(audio_format(None, None), (48_000, 2));
    assert_eq!(audio_format(Some(44_100), Some(0x1_0001)), (44_100, 1));
}

//! The decode loop: what to do with each sample that the source reader delivers.
//!
//! Times of the reader are in units of 100 ns, positions in microseconds, wall-clock times in
//! nanoseconds.

use vstd::prelude::*;

use crate::ui::speed::speed_ratio;

verus! {

/// Consecutive reads without a frame that count as the end of the stream. Some sources (network
/// drives, some HTTP servers) never report the end.
pub const NULL_STREAK_EOF: u32 = 30;

/// Milliseconds to wait before looking again while paused.
pub const PAUSE_WAIT_MS: u64 = 5;

/// Milliseconds to wait after a read without a frame.
pub const TICK_WAIT_MS: u64 = 1;

// ── positions ───────────────────────────────────────────────────────────────

/// The position in microseconds of a reader time; a time before the start wraps around.
pub open spec fn position_of(timestamp: int) -> int {
    if timestamp >= 0 {
        timestamp / 10
    } else if timestamp > -10 {
        0
    } else {
        0x1_0000_0000_0000_0000 - (-timestamp) / 10
    }
}

/// The position in microseconds of a reader time.
pub fn pts_us(timestamp: i64) -> (r: u64)
    ensures
        r == position_of(timestamp as int),
{
    if timestamp >= 0 {
        (timestamp / 10) as u64
    } else {
        let magnitude: u64 = if timestamp == i64::MIN {
            0x8000_0000_0000_0000
        } else {
            (-timestamp) as u64
        };
        let back: u64 = magnitude / 10;
        if back == 0 {
            0
        } else {
            u64::MAX - back + 1
        }
    }
}

/// The reader time of a position, as the reader takes it: 64 bits, signed.
pub open spec fn reader_time_of(target_us: int) -> int {
    if target_us * 10 <= i64::MAX {
        target_us * 10
    } else {
        target_us * 10 - 0x1_0000_0000_0000_0000
    }
}

/// The reader time of a position.
pub fn reader_time(target_us: u64) -> (r: i64)
    requires
        target_us * 10 <= u64::MAX,
    ensures
        r == reader_time_of(target_us as int),
{
    let t: u64 = target_us * 10;
    if t <= 0x7fff_ffff_ffff_ffff {
        t as i64
    } else {
        -((u64::MAX - t) as i64) - 1
    }
}

/// The duration in microseconds of a source that reports it in units of 100 ns.
pub open spec fn duration_of(reported: Option<u64>) -> int {
    match reported {
        Some(t) => t as int / 10,
        None => 0,
    }
}

/// The duration in microseconds of a source that reports it in units of 100 ns, 0 where it
/// reports none.
pub fn duration_us(reported: Option<u64>) -> (r: u64)
    ensures
        r == duration_of(reported),
        r == match reported {
            Some(t) => (t / 10) as int,
            None => 0,
        },
{
    match reported {
        Some(t) => t / 10,
        None => 0,
    }
}

/// Width and height of a packed frame size.
pub open spec fn frame_size_of(packed: int) -> (int, int) {
    (packed / 0x1_0000_0000, packed % 0x1_0000_0000)
}

/// A frame of this size has an area.
pub open spec fn has_area(size: (int, int)) -> bool {
    size.0 != 0 && size.1 != 0
}

/// Width and height of a frame size that holds the width in its upper and the height in its
/// lower 32 bits.
pub fn unpack_frame_size(packed: u64) -> (r: (u32, u32))
    ensures
        (r.0 as int, r.1 as int) == frame_size_of(packed as int),
        r.0 == packed / 0x1_0000_0000,
        r.1 == packed % 0x1_0000_0000,
        packed == r.0 * 0x1_0000_0000 + r.1,
{
    ((packed / 0x1_0000_0000) as u32, (packed % 0x1_0000_0000) as u32)
}

/// Width and height of the native video, or none where one of them is zero.
pub fn native_size(packed: u64) -> (r: Option<(u32, u32)>)
    ensures
        r is Some <==> has_area(frame_size_of(packed as int)),
        r matches Some((w, h)) ==> (w as int, h as int) == frame_size_of(packed as int),
        r is Some <==> packed / 0x1_0000_0000 != 0 && packed % 0x1_0000_0000 != 0,
        r matches Some((w, h)) ==> w == packed / 0x1_0000_0000 && h == packed % 0x1_0000_0000,
{
    let (w, h) = unpack_frame_size(packed);
    if w == 0 || h == 0 {
        None
    } else {
        Some((w, h))
    }
}

// ── output format ───────────────────────────────────────────────────────────

/// The pixel format that the source reader delivers.
#[derive(Clone, Copy, PartialEq, Eq, Structural, Debug)]
pub enum DecodeFmt {
    Bgra,
    Nv12,
    Yuy2,
}

/// A pixel format that can be asked of the source reader.
#[derive(Clone, Copy, PartialEq, Eq, Structural, Debug)]
pub enum OutputSubtype {
    Nv12,
    Argb32,
    Rgb32,
    Yuy2,
}

/// What the source reader delivers when asked for `subtype`.
pub open spec fn delivered(subtype: OutputSubtype) -> DecodeFmt {
    match subtype {
        OutputSubtype::Nv12 => DecodeFmt::Nv12,
        OutputSubtype::Argb32 => DecodeFmt::Bgra,
        OutputSubtype::Rgb32 => DecodeFmt::Bgra,
        OutputSubtype::Yuy2 => DecodeFmt::Yuy2,
    }
}

/// The formats in the order in which they are tried: NV12 first, which hardware decoders output
/// natively; the others are fallbacks.
pub open spec fn candidates() -> Seq<OutputSubtype> {
    seq![OutputSubtype::Nv12, OutputSubtype::Argb32, OutputSubtype::Rgb32, OutputSubtype::Yuy2]
}

/// The format to try after `refused` others have been refused, and what it delivers; none when
/// all have been refused.
pub fn try_set_output_format(refused: usize) -> (r: Option<(OutputSubtype, DecodeFmt)>)
    ensures
        r is Some <==> refused < candidates().len(),
        r matches Some((s, f)) ==> s == candidates()[refused as int] && f == delivered(s),
{
    if refused == 0 {
        Some((OutputSubtype::Nv12, DecodeFmt::Nv12))
    } else if refused == 1 {
        Some((OutputSubtype::Argb32, DecodeFmt::Bgra))
    } else if refused == 2 {
        Some((OutputSubtype::Rgb32, DecodeFmt::Bgra))
    } else if refused == 3 {
        Some((OutputSubtype::Yuy2, DecodeFmt::Yuy2))
    } else {
        None
    }
}

// ── pacing ──────────────────────────────────────────────────────────────────

/// Wall-clock nanoseconds that `elapsed` reader time takes at a speed.
pub open spec fn wall_time(elapsed: int, speed_index: int) -> int {
    let s = crate::ui::speed::speed(speed_index);
    let ns = if elapsed > 0 {
        elapsed * 100
    } else {
        0
    };
    if ns * s.1 / s.0 > u64::MAX {
        u64::MAX as int
    } else {
        ns * s.1 / s.0
    }
}

/// Nanoseconds to sleep before a frame is shown, `wall` nanoseconds after the first one: none
/// where it is due within a millisecond, else up to half a millisecond before it is due.
pub open spec fn sleep_before(elapsed: int, speed_index: int, wall: int) -> int {
    if wall_time(elapsed, speed_index) > wall + 1_000_000 {
        wall_time(elapsed, speed_index) - wall - 500_000
    } else {
        0
    }
}

/// Nanoseconds to sleep before the frame at `timestamp` is shown, where the frame at `start`
/// was shown `wall` nanoseconds ago.
pub fn pace(timestamp: i64, start: i64, speed_index: u32, wall: u64) -> (r: u64)
    requires
        speed_index < crate::ui::speed::SPEED_COUNT,
    ensures
        r == sleep_before(timestamp - start, speed_index as int, wall as int),
{
    let (num, den) = speed_ratio(speed_index as usize);
    let elapsed: i128 = timestamp as i128 - start as i128;
    let ns: u128 = if elapsed > 0 {
        elapsed as u128 * 100
    } else {
        0
    };
    assert(ns <= 0x1_0000_0000_0000_0000 * 100);
    assert(ns * den <= ns * 4) by (nonlinear_arith)
        requires
            ns >= 0,
            den <= 4,
    ;
    let exact: u128 = ns * den as u128 / num as u128;
    let target: u64 = if exact > u64::MAX as u128 {
        u64::MAX
    } else {
        exact as u64
    };
    assert(target == wall_time(timestamp - start, speed_index as int));
    if target > wall && target - wall > 1_000_000 {
        target - wall - 500_000
    } else {
        0
    }
}

// ── the loop ────────────────────────────────────────────────────────────────

/// State of the decode loop between two reads.
pub struct DecodeLoop {
    /// When the frame that pacing counts from was shown; none where pacing starts anew.
    pub wall_start_ns: Option<u64>,
    /// Reader time of that frame.
    pub pts_start: i64,
    /// A frame has to be shown even while paused, to preview a seek.
    pub decode_one: bool,
    pub last_speed_index: u32,
    /// Frames before this position are decoded but not shown.
    pub seek_until_us: Option<u64>,
    /// Consecutive reads that gave no frame.
    pub null_sample_streak: u32,
}

/// What a turn of the loop does before it reads.
pub enum Turn {
    Stop,
    /// Wait a while and begin a new turn.
    Wait,
    Read,
}

/// How a turn of the loop begins.
pub struct TurnStart {
    /// Seek the reader here, and mute the audio until the clock is established again.
    pub seek_to: Option<u64>,
    pub turn: Turn,
}

/// What the reader delivered.
#[derive(Clone, Copy)]
pub struct Sample {
    pub read_ok: bool,
    pub flags: u32,
    pub present: bool,
    pub timestamp: i64,
}

/// The loop that the user has set.
#[derive(Clone, Copy)]
pub struct LoopRegion {
    /// 0 = off, 1 = start set, 2 = active (start and end set).
    pub state: u8,
    pub start_us: u64,
    pub end_us: u64,
}

/// What to do with a delivered sample.
pub enum AfterRead {
    /// The read failed: the loop ends.
    ReadFailed,
    /// The source reports an error: the loop ends.
    SourceError,
    /// The stream has ended: open the reader again, seek it to `seek_to` unless that is 0, and
    /// send the audio there.
    Reopen { seek_to: u64 },
    /// There is no frame yet.
    Tick,
    /// The loop's end is reached: seek the reader and the audio to its start.
    LoopBack { start_us: u64 },
    /// The frame lies before the seek target: take note of the position only.
    CatchUp { pts_us: u64 },
    /// Show the frame after `sleep_ns`; send the audio to it where `resync_audio`, and let the
    /// audio start where `start_audio`.
    Show { pts_us: u64, resync_audio: bool, start_audio: bool, sleep_ns: u64 },
}

impl Sample {
    /// The read failed, or the source reports an error.
    pub open spec fn is_error(self) -> bool {
        !self.read_ok || self.flags & 0x01 != 0
    }

    /// The source reports the end of the stream.
    pub open spec fn is_end(self) -> bool {
        self.flags & 0x04 != 0
    }

    /// The read gave no frame: a gap marker or no sample at all.
    pub open spec fn is_empty(self) -> bool {
        self.flags & 0x02 != 0 || !self.present
    }

    /// The position of the sample.
    pub open spec fn position(self) -> int {
        position_of(self.timestamp as int)
    }
}

impl LoopRegion {
    /// Where playback goes on after the end of the stream.
    pub open spec fn restart(self) -> int {
        if self.state == 2 {
            self.start_us as int
        } else {
            0
        }
    }

    /// A frame at this position lies at or behind the end of an active loop.
    pub open spec fn is_past(self, position: int) -> bool {
        self.state == 2 && position >= self.end_us
    }
}

/// What a read that delivers `sample` at the time `now_ns` leads to: `r` is to be done, and the
/// state goes from `before` to `after`.
pub open spec fn is_step(
    before: DecodeLoop,
    sample: Sample,
    region: LoopRegion,
    speed_index: u32,
    now_ns: u64,
    r: AfterRead,
    after: DecodeLoop,
) -> bool {
    let position = sample.position();
    &&& r is ReadFailed <==> !sample.read_ok
    &&& r is SourceError <==> sample.read_ok && sample.is_error()
    &&& sample.is_error() ==> after == before
    // the end of the stream
    &&& r is Reopen <==> before.ends_with(sample)
    &&& r matches AfterRead::Reopen { seek_to } ==> seek_to == region.restart() && after == (
    DecodeLoop {
        wall_start_ns: None,
        seek_until_us: None,
        decode_one: before.previews_restart(),
        null_sample_streak: if sample.is_end() {
            before.null_sample_streak
        } else {
            0
        },
        ..before
    })
    // no frame yet
    &&& r is Tick <==> !sample.is_error() && !before.ends_with(sample) && sample.is_empty()
    &&& r is Tick ==> after == (DecodeLoop {
        null_sample_streak: (before.null_sample_streak + 1) as u32,
        ..before
    })
    // a frame
    &&& r is LoopBack <==> DecodeLoop::has_frame(sample) && region.is_past(position)
    &&& r matches AfterRead::LoopBack { start_us } ==> start_us == region.start_us && after == (
    DecodeLoop {
        wall_start_ns: None,
        seek_until_us: None,
        decode_one: before.previews_restart(),
        null_sample_streak: 0,
        ..before
    })
    &&& r is CatchUp <==> DecodeLoop::has_frame(sample) && !region.is_past(position)
        && before.is_before_target(position)
    &&& r matches AfterRead::CatchUp { pts_us } ==> pts_us == position && after == (DecodeLoop {
        null_sample_streak: 0,
        ..before
    })
    &&& r is Show <==> DecodeLoop::has_frame(sample) && !region.is_past(position)
        && !before.is_before_target(position)
    &&& r matches AfterRead::Show { pts_us, resync_audio, start_audio, sleep_ns } ==> {
        let first = before.wall_start_ns is None || before.seek_until_us is Some;
        &&& pts_us == position
        &&& resync_audio == before.seek_until_us is Some
        &&& start_audio == first
        &&& sleep_ns == if first {
            0
        } else {
            let wall = if now_ns >= before.wall_start_ns->0 {
                now_ns - before.wall_start_ns->0
            } else {
                0
            };
            sleep_before(sample.timestamp - before.pts_start, speed_index as int, wall)
        }
        &&& after == (DecodeLoop {
            wall_start_ns: if first {
                Some(now_ns)
            } else {
                before.wall_start_ns
            },
            pts_start: if first {
                sample.timestamp
            } else {
                before.pts_start
            },
            seek_until_us: None,
            decode_one: false,
            null_sample_streak: 0,
            ..before
        })
    }
}

/// How a turn begins: `r` is to be done, and the state goes from `before` to `after`.
pub open spec fn is_start(
    before: DecodeLoop,
    stop: bool,
    seek_request: Option<u64>,
    speed_index: u32,
    paused: bool,
    r: TurnStart,
    after: DecodeLoop,
) -> bool {
    &&& stop ==> r.turn is Stop && r.seek_to is None && after == before
    &&& !stop ==> {
        let preview = before.decode_one || seek_request is Some;
        let anew = seek_request is Some || speed_index != before.last_speed_index;
        &&& r.seek_to == seek_request
        &&& r.turn is Wait <==> paused && !preview
        &&& r.turn is Read <==> !(paused && !preview)
        &&& after == (DecodeLoop {
            wall_start_ns: if anew {
                None
            } else {
                before.wall_start_ns
            },
            seek_until_us: if seek_request is Some {
                seek_request
            } else {
                before.seek_until_us
            },
            decode_one: preview,
            last_speed_index: speed_index,
            ..before
        })
    }
}

impl DecodeLoop {
    /// The streak of reads without a frame has not reached its limit.
    pub open spec fn wf(self) -> bool {
        self.null_sample_streak < NULL_STREAK_EOF
    }

    /// The stream has ended with `sample`.
    pub open spec fn ends_with(self, sample: Sample) -> bool {
        !sample.is_error() && (sample.is_end() || (sample.is_empty() && self.null_sample_streak + 1
            >= NULL_STREAK_EOF))
    }

    /// `sample` carries a frame.
    pub open spec fn has_frame(sample: Sample) -> bool {
        !sample.is_error() && !sample.is_end() && !sample.is_empty()
    }

    /// A frame at this position lies before the seek target.
    pub open spec fn is_before_target(self, position: int) -> bool {
        self.seek_until_us matches Some(until) && position < until
    }

    /// A frame is still to be shown for a seek when the stream or the loop starts anew. Where it
    /// starts anew once more before there was a frame to show, the preview is given up.
    pub open spec fn previews_restart(self) -> bool {
        self.decode_one && self.seek_until_us is Some
    }

    /// The loop before its first read.
    pub fn new(speed_index: u32) -> (r: DecodeLoop)
        ensures
            r.wf(),
            r == (DecodeLoop {
                wall_start_ns: None,
                pts_start: 0,
                decode_one: false,
                last_speed_index: speed_index,
                seek_until_us: None,
                null_sample_streak: 0,
            }),
    {
        DecodeLoop {
            wall_start_ns: None,
            pts_start: 0,
            decode_one: false,
            last_speed_index: speed_index,
            seek_until_us: None,
            null_sample_streak: 0,
        }
    }

    /// Begins a turn. A request to stop ends the loop. A seek request is carried out even while
    /// paused, and frames are decoded until one is shown for it or it is given up. A change of
    /// speed makes pacing start anew.
    pub fn begin(
        &mut self,
        stop: bool,
        seek_request: Option<u64>,
        speed_index: u32,
        paused: bool,
    ) -> (r: TurnStart)
        requires
            old(self).wf(),
        ensures
            final(self).wf(),
            is_start(*old(self), stop, seek_request, speed_index, paused, r, *final(self)),
    {
        if stop {
            return TurnStart { seek_to: None, turn: Turn::Stop };
        }
        if let Some(us) = seek_request {
            self.wall_start_ns = None;
            self.seek_until_us = Some(us);
            self.decode_one = true;
        }
        if speed_index != self.last_speed_index {
            self.last_speed_index = speed_index;
            self.wall_start_ns = None;
        }
        if paused && !self.decode_one {
            return TurnStart { seek_to: seek_request, turn: Turn::Wait };
        }
        TurnStart { seek_to: seek_request, turn: Turn::Read }
    }

    /// Forgets the seek target and makes pacing start anew.
    fn restart(&mut self)
        ensures
            *final(self) == (DecodeLoop {
                wall_start_ns: None,
                seek_until_us: None,
                decode_one: old(self).previews_restart(),
                ..*old(self)
            }),
    {
        self.decode_one = self.decode_one && self.seek_until_us.is_some();
        self.wall_start_ns = None;
        self.seek_until_us = None;
    }

    /// Takes what a read delivered at the time `now_ns`. At the end of the stream and at the end
    /// of an active loop the target of a seek is forgotten: it may lie behind that end.
    pub fn on_sample(
        &mut self,
        sample: Sample,
        region: LoopRegion,
        speed_index: u32,
        now_ns: u64,
    ) -> (r: AfterRead)
        requires
            old(self).wf(),
            speed_index < crate::ui::speed::SPEED_COUNT,
        ensures
            final(self).wf(),
            is_step(*old(self), sample, region, speed_index, now_ns, r, *final(self)),
    {
        if !sample.read_ok {
            return AfterRead::ReadFailed;
        }
        if sample.flags & 0x01 != 0 {
            return AfterRead::SourceError;
        }
        let seek_to: u64 = if region.state == 2 {
            region.start_us
        } else {
            0
        };
        if sample.flags & 0x04 != 0 {
            self.restart();
            return AfterRead::Reopen { seek_to };
        }
        if sample.flags & 0x02 != 0 || !sample.present {
            if self.null_sample_streak + 1 >= NULL_STREAK_EOF {
                self.null_sample_streak = 0;
                self.restart();
                return AfterRead::Reopen { seek_to };
            }
            self.null_sample_streak = self.null_sample_streak + 1;
            return AfterRead::Tick;
        }
        self.null_sample_streak = 0;
        let position = pts_us(sample.timestamp);
        if region.state == 2 && position >= region.end_us {
            self.restart();
            return AfterRead::LoopBack { start_us: region.start_us };
        }
        let mut resync_audio = false;
        if let Some(until) = self.seek_until_us {
            if position < until {
                return AfterRead::CatchUp { pts_us: position };
            }
            self.seek_until_us = None;
            self.wall_start_ns = None;
            resync_audio = true;
        }
        self.decode_one = false;
        match self.wall_start_ns {
            None => {
                self.wall_start_ns = Some(now_ns);
                self.pts_start = sample.timestamp;
                AfterRead::Show { pts_us: position, resync_audio, start_audio: true, sleep_ns: 0 }
            },
            Some(start) => {
                let wall: u64 = if now_ns >= start {
                    now_ns - start
                } else {
                    0
                };
                let sleep_ns = pace(sample.timestamp, self.pts_start, speed_index, wall);
                AfterRead::Show { pts_us: position, resync_audio, start_audio: false, sleep_ns }
            },
        }
    }
}

// ── audio ───────────────────────────────────────────────────────────────────

/// The pending audio seek position that stands for none.
pub const NO_SEEK: u64 = 0xffff_ffff_ffff_ffff;

/// Milliseconds to wait after a failed read of audio.
pub const AUDIO_RETRY_MS: u64 = 5;

/// Sample rate and channels of a stream.
pub open spec fn audio_format_of(sample_rate: Option<u32>, channels: Option<u32>) -> (int, int) {
    (
        match sample_rate {
            Some(rate) => rate as int,
            None => 48_000,
        },
        match channels {
            Some(count) => count as int % 0x1_0000,
            None => 2,
        },
    )
}

/// Sample rate and channels of a stream; a rate that it does not report is 48 kHz, channels that
/// it does not report are two. Of the channels the low 16 bits count.
pub fn audio_format(sample_rate: Option<u32>, channels: Option<u32>) -> (r: (u32, u16))
    ensures
        (r.0 as int, r.1 as int) == audio_format_of(sample_rate, channels),
        r.0 == match sample_rate {
            Some(rate) => rate as int,
            None => 48_000,
        },
        r.1 == match channels {
            Some(count) => count as int % 0x1_0000,
            None => 2,
        },
{
    let rate: u32 = match sample_rate {
        Some(rate) => rate,
        None => 48_000,
    };
    let count: u32 = match channels {
        Some(count) => count,
        None => 2,
    };
    (rate, (count % 0x1_0000) as u16)
}

/// The position that a value of the audio's seek variable stands for.
pub open spec fn pending_of(audio_seek: u64) -> Option<u64> {
    if audio_seek == NO_SEEK {
        None
    } else {
        Some(audio_seek)
    }
}

/// The position to seek the audio to, where one is pending.
pub fn pending_seek(audio_seek: u64) -> (r: Option<u64>)
    ensures
        r == pending_of(audio_seek),
        r == if audio_seek == NO_SEEK {
            None
        } else {
            Some(audio_seek)
        },
{
    if audio_seek == NO_SEEK {
        None
    } else {
        Some(audio_seek)
    }
}

/// What to do with a delivered audio sample.
#[derive(Clone, Copy, PartialEq, Eq, Structural, Debug)]
pub enum AfterAudioRead {
    /// The read failed: wait and read again.
    Retry,
    /// The stream has ended: go back to its start and keep filling. The video's loop decides
    /// when stale audio is flushed.
    Rewind,
    /// There is no sample: read again.
    Skip,
    /// Hand the sample on.
    Play,
}

/// What follows a delivered audio sample.
pub open spec fn after_audio(sample: Sample) -> AfterAudioRead {
    if sample.is_error() {
        AfterAudioRead::Retry
    } else if sample.is_end() {
        AfterAudioRead::Rewind
    } else if !sample.present {
        AfterAudioRead::Skip
    } else {
        AfterAudioRead::Play
    }
}

/// What to do with a delivered audio sample.
pub fn on_audio_sample(sample: Sample) -> (r: AfterAudioRead)
    ensures
        r == after_audio(sample),
        r is Retry <==> sample.is_error(),
        r is Rewind <==> !sample.is_error() && sample.is_end(),
        r is Skip <==> !sample.is_error() && !sample.is_end() && !sample.present,
        r is Play <==> !sample.is_error() && !sample.is_end() && sample.present,
{
    if !sample.read_ok || sample.flags & 0x01 != 0 {
        AfterAudioRead::Retry
    } else if sample.flags & 0x04 != 0 {
        AfterAudioRead::Rewind
    } else if !sample.present {
        AfterAudioRead::Skip
    } else {
        AfterAudioRead::Play
    }
}

/// Whether the samples at hand are still wanted: not once a seek or a stop has arrived.
pub fn keeps_sending(audio_seek: u64, stop: bool) -> (r: bool)
    ensures
        r <==> audio_seek == NO_SEEK && !stop,
{
    audio_seek == NO_SEEK && !stop
}

// ── laws ────────────────────────────────────────────────────────────────────

/// What a read delivered, and under which loop and speed and when.
pub struct ReadEvent {
    pub sample: Sample,
    pub region: LoopRegion,
    pub speed_index: u32,
    pub now_ns: u64,
}

/// The loop goes through `states` while it takes the reads of `events` and does what `results`
/// says; no seek is asked for meanwhile.
pub open spec fn is_run(
    states: Seq<DecodeLoop>,
    events: Seq<ReadEvent>,
    results: Seq<AfterRead>,
) -> bool {
    &&& states.len() == events.len() + 1
    &&& results.len() == events.len()
    &&& forall|i: int|
        0 <= i < events.len() ==> is_step(
            #[trigger] states[i],
            events[i].sample,
            events[i].region,
            events[i].speed_index,
            events[i].now_ns,
            results[i],
            states[i + 1],
        )
}

/// After a seek nothing before its target is shown: the first frame that is shown, unless the
/// stream or an active loop ends before, is at the target or behind it, and the audio is sent to
/// it.
pub proof fn law_nothing_before_the_target_is_shown(
    states: Seq<DecodeLoop>,
    events: Seq<ReadEvent>,
    results: Seq<AfterRead>,
    target: u64,
    n: int,
)
    requires
        is_run(states, events, results),
        states[0].seek_until_us == Some(target),
        0 <= n < results.len(),
        forall|i: int|
            0 <= i < n ==> !((#[trigger] results[i]) is Show) && !(results[i] is Reopen) && !(
            results[i] is LoopBack),
    ensures
        states[n].seek_until_us == Some(target),
        results[n] matches AfterRead::Show { pts_us, resync_audio, .. } ==> pts_us >= target
            && resync_audio,
    decreases n,
{
    if n > 0 {
        law_nothing_before_the_target_is_shown(states, events, results, target, n - 1);
        let e = events[n - 1];
        assert(is_step(
            states[n - 1],
            e.sample,
            e.region,
            e.speed_index,
            e.now_ns,
            results[n - 1],
            states[n - 1 + 1],
        ));
        assert(!(results[n - 1] is Show) && !(results[n - 1] is Reopen) && !(results[n - 1]
            is LoopBack));
        assert(results[n - 1] is ReadFailed || results[n - 1] is SourceError || results[n - 1]
            is Tick || results[n - 1] is CatchUp);
    }
    let e = events[n];
    assert(is_step(
        states[n],
        e.sample,
        e.region,
        e.speed_index,
        e.now_ns,
        results[n],
        states[n + 1],
    ));
}

/// A turn of the loop: how it began, and what came of its read if it did read.
pub struct LoopTurn {
    pub before: DecodeLoop,
    pub seek_request: Option<u64>,
    pub speed_index: u32,
    pub paused: bool,
    pub start: TurnStart,
    /// The state between the beginning and the read.
    pub begun: DecodeLoop,
    pub event: ReadEvent,
    pub result: AfterRead,
    pub after: DecodeLoop,
}

impl LoopTurn {
    /// The turn goes as the loop has it.
    pub open spec fn is_turn(self) -> bool {
        &&& is_start(
            self.before,
            false,
            self.seek_request,
            self.speed_index,
            self.paused,
            self.start,
            self.begun,
        )
        &&& if self.start.turn is Read {
            is_step(
                self.begun,
                self.event.sample,
                self.event.region,
                self.event.speed_index,
                self.event.now_ns,
                self.result,
                self.after,
            )
        } else {
            self.after == self.begun
        }
    }

    /// The turn shows a frame.
    pub open spec fn shows(self) -> bool {
        self.start.turn is Read && self.result is Show
    }

    /// The turn starts the stream or an active loop anew.
    pub open spec fn restarts(self) -> bool {
        self.start.turn is Read && (self.result is Reopen || self.result is LoopBack)
    }

    /// The turn reads a frame that an active loop does not end before.
    pub open spec fn reads_frame(self) -> bool {
        &&& self.start.turn is Read
        &&& DecodeLoop::has_frame(self.event.sample)
        &&& !self.event.region.is_past(self.event.sample.position())
    }
}

/// The loop takes these turns one after the other; a seek to `target` is asked for in the first,
/// and none after it.
pub open spec fn is_run_of_seek(turns: Seq<LoopTurn>, target: u64) -> bool {
    &&& forall|i: int| 0 <= i < turns.len() ==> (#[trigger] turns[i]).is_turn()
    &&& forall|i: int, j: int|
        0 <= i && j == i + 1 && j < turns.len() ==> (#[trigger] turns[j]).before == (
        #[trigger] turns[i]).after
    &&& forall|i: int|
        0 <= i < turns.len() ==> (#[trigger] turns[i]).seek_request == if i == 0 {
            Some(target)
        } else {
            None
        }
}

/// How many of the first `n` turns start the stream or an active loop anew.
pub open spec fn restarts_before(turns: Seq<LoopTurn>, n: int) -> nat
    decreases n,
{
    if n <= 0 {
        0
    } else if turns[n - 1].restarts() {
        restarts_before(turns, n - 1) + 1
    } else {
        restarts_before(turns, n - 1)
    }
}

/// The seeked frame is shown even if paused: after a seek every turn reads, paused or not, until
/// one shows a frame. That frame is the first one at the target or behind it. Where the stream or
/// an active loop ends before the target, it is the first one after the new start instead, and
/// where there is none before yet another start, a paused loop waits. It also waits again after
/// the frame.
pub proof fn law_seek_is_shown_even_if_paused(turns: Seq<LoopTurn>, target: u64, n: int)
    requires
        is_run_of_seek(turns, target),
        0 <= n < turns.len(),
        forall|i: int| 0 <= i < n ==> !(#[trigger] turns[i]).shows(),
    ensures
        restarts_before(turns, n) < 2 ==> turns[n].start.turn is Read,
        restarts_before(turns, n) == 0 ==> {
            &&& turns[n].shows() <==> turns[n].reads_frame()
                && turns[n].event.sample.position() >= target
            &&& turns[n].result matches AfterRead::Show { pts_us, resync_audio, .. } ==> pts_us
                >= target && resync_audio
        },
        restarts_before(turns, n) == 1 ==> (turns[n].shows() <==> turns[n].reads_frame()),
        restarts_before(turns, n) >= 2 && turns[n].paused ==> turns[n].start.turn is Wait,
        turns[n].shows() && n + 1 < turns.len() && turns[n + 1].paused ==> turns[n + 1].start.turn
            is Wait,
{
    let t = turns[n];
    assert(t.is_turn());
    lemma_seek_goes_on(turns, target, n);
    if n + 1 < turns.len() {
        let m = n + 1;
        assert(turns[m].is_turn() && turns[m].before == t.after);
    }
}

/// As long as nothing has been shown, a turn has the target until the first new start, and the
/// preview until the second.
proof fn lemma_seek_goes_on(turns: Seq<LoopTurn>, target: u64, n: int)
    requires
        is_run_of_seek(turns, target),
        0 <= n < turns.len(),
        forall|i: int| 0 <= i < n ==> !(#[trigger] turns[i]).shows(),
    ensures
        turns[n].begun.decode_one == (restarts_before(turns, n) < 2),
        turns[n].begun.seek_until_us == if restarts_before(turns, n) == 0 {
            Some(target)
        } else {
            None
        },
    decreases n,
{
    assert(turns[n].is_turn());
    if n > 0 {
        lemma_seek_goes_on(turns, target, n - 1);
        let p = turns[n - 1];
        assert(p.is_turn() && turns[n].before == p.after && !p.shows());
        assert(!(p.start.turn is Read) || p.result is ReadFailed || p.result is SourceError
            || p.result is Reopen || p.result is Tick || p.result is LoopBack || p.result
            is CatchUp);
    }
}

/// A run of reads without a frame is shorter than the limit: it ends in a new start of the
/// stream.
pub proof fn law_silence_is_bounded(
    states: Seq<DecodeLoop>,
    events: Seq<ReadEvent>,
    results: Seq<AfterRead>,
    n: int,
)
    requires
        is_run(states, events, results),
        states[0].wf(),
        0 <= n <= results.len(),
        forall|i: int| 0 <= i < n ==> (#[trigger] results[i]) is Tick,
    ensures
        states[n].null_sample_streak == states[0].null_sample_streak + n,
        n < NULL_STREAK_EOF,
    decreases n,
{
    if n > 0 {
        law_silence_is_bounded(states, events, results, n - 1);
        let e = events[n - 1];
        assert(is_step(
            states[n - 1],
            e.sample,
            e.region,
            e.speed_index,
            e.now_ns,
            results[n - 1],
            states[n - 1 + 1],
        ));
        assert(results[n - 1] is Tick);
    }
}

/// No frame at or behind the end of an active loop is shown.
pub proof fn law_active_loop_is_not_left(
    before: DecodeLoop,
    sample: Sample,
    region: LoopRegion,
    speed_index: u32,
    now_ns: u64,
    r: AfterRead,
    after: DecodeLoop,
)
    requires
        is_step(before, sample, region, speed_index, now_ns, r, after),
        region.state == 2,
    ensures
        r matches AfterRead::Show { pts_us, .. } ==> pts_us < region.end_us,
        r matches AfterRead::Reopen { seek_to } ==> seek_to == region.start_us,
        r matches AfterRead::LoopBack { start_us } ==> start_us == region.start_us,
{
}

/// A frame that was waited for is due within a millisecond, and no wait goes past the time at
/// which it is due.
pub proof fn law_no_frame_is_early_or_held_back(elapsed: int, speed_index: int, wall: int)
    requires
        0 <= wall,
    ensures
        sleep_before(elapsed, speed_index, wall) >= 0,
        wall_time(elapsed, speed_index) - (wall + sleep_before(elapsed, speed_index, wall))
            <= 1_000_000,
        sleep_before(elapsed, speed_index, wall) > 0 ==> wall + sleep_before(
            elapsed,
            speed_index,
            wall,
        ) < wall_time(elapsed, speed_index),
{
}

/// At each speed a stretch of video takes at least as long as at the speed before it.
pub proof fn law_slower_speeds_take_longer(elapsed: int, i: int)
    requires
        0 <= i < crate::ui::speed::SPEED_COUNT - 1,
    ensures
        wall_time(elapsed, i) <= wall_time(elapsed, i + 1),
{
    let ns = if elapsed > 0 {
        elapsed * 100
    } else {
        0
    };
    assert(ns * 1 / 1 <= ns * 3 / 2 <= ns * 2 / 1 <= ns * 3 / 1 <= ns * 4 / 1);
    if i == 0 {
        assert(crate::ui::speed::speed(i) == (1int, 1int));
    } else if i == 1 {
        assert(crate::ui::speed::speed(i) == (2int, 3int));
    } else if i == 2 {
        assert(crate::ui::speed::speed(i) == (1int, 2int));
    }
}

/// Seeking the reader to a position and taking the position of what it then delivers gives the
/// same position.
pub proof fn law_positions_survive_the_reader(us: int)
    requires
        0 <= us,
        us * 10 <= i64::MAX,
    ensures
        position_of(reader_time_of(us)) == us,
{
}

/// Wall time is reader time divided by the speed, whole nanoseconds of it, as far as 64 bits go.
/// A frame from before the one that pacing counts from takes none.
pub proof fn law_wall_time_is_reader_time_over_speed(elapsed: int, speed_index: int)
    requires
        0 <= speed_index < crate::ui::speed::SPEED_COUNT,
    ensures
        ({
            let (num, den) = crate::ui::speed::speed(speed_index);
            let wall = wall_time(elapsed, speed_index);
            &&& 0 <= wall <= u64::MAX
            &&& elapsed <= 0 ==> wall == 0
            &&& elapsed >= 0 && elapsed * 100 * den < num * (u64::MAX + 1) ==> num * wall <= elapsed
                * 100 * den < num * (wall + 1)
            &&& elapsed >= 0 && elapsed * 100 * den >= num * (u64::MAX + 1) ==> wall == u64::MAX
        }),
{
    let (num, den) = crate::ui::speed::speed(speed_index);
    let ns = if elapsed > 0 {
        elapsed * 100
    } else {
        0
    };
    let whole = ns * den;
    assert(whole >= 0) by (nonlinear_arith)
        requires
            ns >= 0,
            den >= 1,
            whole == ns * den,
    ;
    assert(num * (whole / num) <= whole < num * (whole / num + 1) && whole / num >= 0)
        by (nonlinear_arith)
        requires
            num > 0,
            whole >= 0,
    ;
    assert(elapsed >= 0 ==> whole == elapsed * 100 * den);
    assert(whole < num * (u64::MAX + 1) <==> whole / num <= u64::MAX) by (nonlinear_arith)
        requires
            num > 0,
            whole >= 0,
    ;
}

/// At full speed wall time is reader time.
pub proof fn law_full_speed_is_real_time(elapsed: int)
    requires
        0 <= elapsed,
        elapsed * 100 <= u64::MAX,
    ensures
        wall_time(elapsed, 0) == elapsed * 100,
{
    law_wall_time_is_reader_time_over_speed(elapsed, 0);
}

/// A frame that is due in more than a millisecond is waited for until half a millisecond before
/// it is due; any other is not waited for.
pub proof fn law_wait_ends_shortly_before_the_frame_is_due(elapsed: int, speed_index: int, wall: int)
    ensures
        wall_time(elapsed, speed_index) - wall > 1_000_000 <==> sleep_before(
            elapsed,
            speed_index,
            wall,
        ) != 0,
        sleep_before(elapsed, speed_index, wall) != 0 ==> wall + sleep_before(
            elapsed,
            speed_index,
            wall,
        ) + 500_000 == wall_time(elapsed, speed_index),
{
}

/// In steady playback a frame is shown when it is due: `elapsed` reader time after the frame that
/// pacing counts from, divided by the speed. It is waited for until half a millisecond before,
/// unless it is due within a millisecond.
pub proof fn law_frames_are_shown_when_due(
    before: DecodeLoop,
    sample: Sample,
    region: LoopRegion,
    speed_index: u32,
    now_ns: u64,
    r: AfterRead,
    after: DecodeLoop,
)
    requires
        is_step(before, sample, region, speed_index, now_ns, r, after),
        r is Show,
        before.seek_until_us is None,
        before.wall_start_ns is Some,
        before.wall_start_ns->0 <= now_ns,
        before.pts_start <= sample.timestamp,
        speed_index < crate::ui::speed::SPEED_COUNT,
        (sample.timestamp - before.pts_start) * 100 * crate::ui::speed::speed(speed_index as int).1
            < crate::ui::speed::speed(speed_index as int).0 * (u64::MAX + 1),
    ensures
        ({
            let (num, den) = crate::ui::speed::speed(speed_index as int);
            let due = (sample.timestamp - before.pts_start) * 100 * den;
            let passed = now_ns - before.wall_start_ns->0;
            r matches AfterRead::Show { sleep_ns, start_audio, resync_audio, .. } && {
                &&& sleep_ns > 0 ==> num * (passed + sleep_ns + 500_000) <= due < num * (passed
                    + sleep_ns + 500_001)
                &&& sleep_ns == 0 ==> due < num * (passed + 1_000_001)
                &&& sleep_ns > 0 ==> due >= num * (passed + 1_000_001)
                &&& !start_audio && !resync_audio
            }
        }),
        after.wall_start_ns == before.wall_start_ns,
        after.pts_start == before.pts_start,
{
    let elapsed = sample.timestamp - before.pts_start;
    let (num, den) = crate::ui::speed::speed(speed_index as int);
    law_wall_time_is_reader_time_over_speed(elapsed, speed_index as int);
    let w = wall_time(elapsed, speed_index as int);
    let due = elapsed * 100 * den;
    let passed = now_ns - before.wall_start_ns->0;
    if let AfterRead::Show { sleep_ns, .. } = r {
        law_wait_ends_shortly_before_the_frame_is_due(elapsed, speed_index as int, passed);
        assert(sleep_ns == sleep_before(elapsed, speed_index as int, passed));
        if sleep_ns > 0 {
            assert(num * (passed + 1_000_001) <= num * w) by (nonlinear_arith)
                requires
                    num > 0,
                    passed + 1_000_001 <= w,
            ;
        } else {
            assert(num * (w + 1) <= num * (passed + 1_000_001)) by (nonlinear_arith)
                requires
                    num > 0,
                    w + 1 <= passed + 1_000_001,
            ;
        }
    }
}

/// The frame that pacing counts from is shown at once, and lets the audio start: the first one,
/// and the first one after a seek, a change of speed or a new start. The audio is sent to it only
/// where it is the frame of a seek.
pub proof fn law_pacing_counts_from_the_first_frame(
    before: DecodeLoop,
    sample: Sample,
    region: LoopRegion,
    speed_index: u32,
    now_ns: u64,
    r: AfterRead,
    after: DecodeLoop,
)
    requires
        is_step(before, sample, region, speed_index, now_ns, r, after),
        r is Show,
        before.wall_start_ns is None || before.seek_until_us is Some,
    ensures
        r matches AfterRead::Show { sleep_ns, start_audio, resync_audio, .. } && sleep_ns == 0
            && start_audio && resync_audio == (before.seek_until_us is Some),
        after.wall_start_ns == Some(now_ns),
        after.pts_start == sample.timestamp,
        after.seek_until_us is None,
{
}

/// What makes pacing start anew: a seek and a change of speed when a turn begins, the end of the
/// stream, and the end of an active loop.
pub proof fn law_what_makes_pacing_start_anew(
    before: DecodeLoop,
    seek_request: Option<u64>,
    speed_index: u32,
    paused: bool,
    start: TurnStart,
    begun: DecodeLoop,
    sample: Sample,
    region: LoopRegion,
    now_ns: u64,
    r: AfterRead,
    after: DecodeLoop,
)
    requires
        is_start(before, false, seek_request, speed_index, paused, start, begun),
        is_step(begun, sample, region, speed_index, now_ns, r, after),
    ensures
        seek_request is Some ==> begun.wall_start_ns is None && begun.seek_until_us == seek_request,
        speed_index != before.last_speed_index ==> begun.wall_start_ns is None,
        begun.last_speed_index == speed_index && after.last_speed_index == speed_index,
        seek_request is None && speed_index == before.last_speed_index ==> begun.wall_start_ns
            == before.wall_start_ns && begun.pts_start == before.pts_start,
        r is Reopen || r is LoopBack ==> after.wall_start_ns is None && after.seek_until_us is None,
        r is Tick || r is CatchUp ==> after.wall_start_ns == begun.wall_start_ns
            && after.seek_until_us == begun.seek_until_us,
{
}

/// How a turn begins: a stop ends the loop before anything else; a seek is handed on to the
/// reader; only a paused loop without a frame to preview waits.
pub proof fn law_turns_begin_as_asked(
    before: DecodeLoop,
    stop: bool,
    seek_request: Option<u64>,
    speed_index: u32,
    paused: bool,
    start: TurnStart,
    begun: DecodeLoop,
)
    requires
        is_start(before, stop, seek_request, speed_index, paused, start, begun),
    ensures
        start.turn is Stop <==> stop,
        stop ==> begun == before && start.seek_to is None,
        !stop ==> start.seek_to == seek_request,
        !stop && !paused ==> start.turn is Read,
        !stop && seek_request is Some ==> start.turn is Read,
        !stop && paused && seek_request is None ==> (start.turn is Read <==> before.decode_one),
{
}

/// The flags are bits: the lowest reports an error, the second a gap, the third the end.
pub proof fn law_flags_are_bits(sample: Sample)
    ensures
        sample.is_error() <==> !sample.read_ok || sample.flags % 2 == 1,
        sample.is_empty() <==> !sample.present || sample.flags / 2 % 2 == 1,
        sample.is_end() <==> sample.flags / 4 % 2 == 1,
{
    let f = sample.flags;
    assert(f & 0x01 != 0 <==> f % 2 == 1) by (bit_vector);
    assert(f & 0x02 != 0 <==> f / 2 % 2 == 1) by (bit_vector);
    assert(f & 0x04 != 0 <==> f / 4 % 2 == 1) by (bit_vector);
}

/// Outside of a seek every frame is shown, at its own position, unless an active loop ends before
/// it.
pub proof fn law_every_frame_is_shown(
    before: DecodeLoop,
    sample: Sample,
    region: LoopRegion,
    speed_index: u32,
    now_ns: u64,
    r: AfterRead,
    after: DecodeLoop,
)
    requires
        is_step(before, sample, region, speed_index, now_ns, r, after),
        sample.read_ok,
        sample.present,
        sample.flags % 8 == 0,
        0 <= sample.timestamp,
        before.seek_until_us is None,
        region.state != 2 || sample.timestamp / 10 < region.end_us,
    ensures
        r matches AfterRead::Show { pts_us, .. } && pts_us * 10 <= sample.timestamp < pts_us * 10
            + 10,
        after.null_sample_streak == 0,
{
    law_flags_are_bits(sample);
    let f = sample.flags;
    assert(f % 8 == 0 ==> f % 2 == 0 && f / 2 % 2 == 0 && f / 4 % 2 == 0) by (bit_vector);
}

/// While a seek catches up, a frame before the target is not shown, and only its position is
/// noted; a frame at the target or behind it is shown.
pub proof fn law_frames_before_the_target_are_passed_over(
    before: DecodeLoop,
    sample: Sample,
    region: LoopRegion,
    speed_index: u32,
    now_ns: u64,
    r: AfterRead,
    after: DecodeLoop,
    target: u64,
)
    requires
        is_step(before, sample, region, speed_index, now_ns, r, after),
        sample.read_ok,
        sample.present,
        sample.flags % 8 == 0,
        0 <= sample.timestamp,
        before.seek_until_us == Some(target),
        region.state != 2 || sample.timestamp / 10 < region.end_us,
    ensures
        sample.timestamp / 10 < target ==> (r matches AfterRead::CatchUp { pts_us } && pts_us
            == sample.timestamp / 10),
        sample.timestamp / 10 >= target ==> (r matches AfterRead::Show { pts_us, .. } && pts_us
            == sample.timestamp / 10),
{
    law_flags_are_bits(sample);
    let f = sample.flags;
    assert(f % 8 == 0 ==> f % 2 == 0 && f / 2 % 2 == 0 && f / 4 % 2 == 0) by (bit_vector);
}

/// A failed read and a reported error end the loop, whatever else the sample says; nothing else
/// does.
pub proof fn law_errors_end_the_loop(
    before: DecodeLoop,
    sample: Sample,
    region: LoopRegion,
    speed_index: u32,
    now_ns: u64,
    r: AfterRead,
    after: DecodeLoop,
)
    requires
        is_step(before, sample, region, speed_index, now_ns, r, after),
    ensures
        r is ReadFailed <==> !sample.read_ok,
        r is SourceError <==> sample.read_ok && sample.flags % 2 == 1,
{
    law_flags_are_bits(sample);
}

/// Videos loop: at the end of the stream it is opened again, even where a gap is reported with
/// it, and goes on at the start of an active loop, or else at the start of the video.
pub proof fn law_videos_loop(
    before: DecodeLoop,
    sample: Sample,
    region: LoopRegion,
    speed_index: u32,
    now_ns: u64,
    r: AfterRead,
    after: DecodeLoop,
)
    requires
        is_step(before, sample, region, speed_index, now_ns, r, after),
        sample.read_ok,
        sample.flags % 2 == 0,
        sample.flags / 4 % 2 == 1,
    ensures
        r matches AfterRead::Reopen { seek_to } && seek_to == if region.state == 2 {
            region.start_us
        } else {
            0
        },
{
    law_flags_are_bits(sample);
}

/// Only a loop that is active leads back, and it does so exactly at the frames at its end or
/// behind it.
pub proof fn law_active_loop_leads_back(
    before: DecodeLoop,
    sample: Sample,
    region: LoopRegion,
    speed_index: u32,
    now_ns: u64,
    r: AfterRead,
    after: DecodeLoop,
)
    requires
        is_step(before, sample, region, speed_index, now_ns, r, after),
        sample.read_ok,
        sample.present,
        sample.flags % 8 == 0,
        0 <= sample.timestamp,
    ensures
        r is LoopBack <==> region.state == 2 && sample.timestamp / 10 >= region.end_us,
        r matches AfterRead::LoopBack { start_us } ==> start_us == region.start_us,
{
    law_flags_are_bits(sample);
    let f = sample.flags;
    assert(f % 8 == 0 ==> f % 2 == 0 && f / 2 % 2 == 0 && f / 4 % 2 == 0) by (bit_vector);
}

/// Thirty reads in a row without a frame count as the end of the stream, and fewer do not.
pub proof fn law_silence_ends_the_stream(
    states: Seq<DecodeLoop>,
    events: Seq<ReadEvent>,
    results: Seq<AfterRead>,
    n: int,
)
    requires
        is_run(states, events, results),
        states[0].null_sample_streak == 0,
        0 <= n < results.len(),
        n < 30,
        forall|i: int|
            0 <= i <= n ==> !(#[trigger] events[i]).sample.is_error()
                && !events[i].sample.is_end() && events[i].sample.is_empty(),
    ensures
        states[n].null_sample_streak == n,
        n < 29 ==> results[n] is Tick,
        n == 29 ==> results[n] is Reopen && states[n + 1].null_sample_streak == 0,
    decreases n,
{
    if n > 0 {
        law_silence_ends_the_stream(states, events, results, n - 1);
        let e = events[n - 1];
        assert(is_step(
            states[n - 1],
            e.sample,
            e.region,
            e.speed_index,
            e.now_ns,
            results[n - 1],
            states[n - 1 + 1],
        ));
    }
    let e = events[n];
    assert(is_step(
        states[n],
        e.sample,
        e.region,
        e.speed_index,
        e.now_ns,
        results[n],
        states[n + 1],
    ));
}

/// A position counts whole microseconds of the reader time; below zero it is rounded towards zero
/// and wraps around.
pub proof fn law_positions_count_microseconds(timestamp: int)
    requires
        i64::MIN <= timestamp <= i64::MAX,
    ensures
        0 <= position_of(timestamp) <= u64::MAX,
        timestamp >= 0 ==> position_of(timestamp) * 10 <= timestamp < position_of(timestamp) * 10
            + 10,
        -10 < timestamp < 0 ==> position_of(timestamp) == 0,
        timestamp <= -10 ==> timestamp <= (position_of(timestamp) - 0x1_0000_0000_0000_0000) * 10
            < timestamp + 10,
{
}

/// Every format is tried, none twice, and NV12 first; what the reader then delivers is what was
/// asked for.
pub proof fn law_every_format_is_tried_once(subtype: OutputSubtype, i: int, j: int)
    requires
        0 <= i < j < candidates().len(),
    ensures
        candidates().len() == 4,
        candidates().contains(subtype),
        candidates()[0] == OutputSubtype::Nv12,
        candidates()[i] != candidates()[j],
        delivered(subtype) == DecodeFmt::Nv12 <==> subtype == OutputSubtype::Nv12,
        delivered(subtype) == DecodeFmt::Yuy2 <==> subtype == OutputSubtype::Yuy2,
        // the formats that need the most conversion come last
        candidates()[i] == OutputSubtype::Yuy2 ==> false,
        candidates()[i] == OutputSubtype::Rgb32 ==> candidates()[j] != OutputSubtype::Argb32,
{
    let c = candidates();
    assert(c[0] == OutputSubtype::Nv12);
    assert(c[1] == OutputSubtype::Argb32);
    assert(c[2] == OutputSubtype::Rgb32);
    assert(c[3] == OutputSubtype::Yuy2);
}

/// A duration is told to the microsecond below what the source reports; what reports none has none.
pub proof fn law_durations_are_in_microseconds(t: u64)
    ensures
        duration_of(Some(t)) * 10 <= t < (duration_of(Some(t)) + 1) * 10,
        duration_of(None) == 0,
{
}

/// Width and height come apart as they were packed, and only a size without area is none.
pub proof fn law_frame_sizes_are_unpacked(w: u32, h: u32)
    ensures
        frame_size_of(w * 0x1_0000_0000 + h) == (w as int, h as int),
        has_area(frame_size_of(w * 0x1_0000_0000 + h)) <==> w > 0 && h > 0,
{
}

/// The rate and the channels of a stream are what it reports, as far as 16 bits go for the
/// channels; what reports none plays at 48 kHz, in stereo.
pub proof fn law_audio_formats(rate: u32, count: u32)
    ensures
        audio_format_of(Some(rate), Some(count)).0 == rate,
        count < 0x1_0000 ==> audio_format_of(Some(rate), Some(count)).1 == count,
        0 <= audio_format_of(Some(rate), Some(count)).1 < 0x1_0000,
        (count - audio_format_of(Some(rate), Some(count)).1) % 0x1_0000 == 0,
        audio_format_of(None, Some(count)) == (
            48_000int,
            audio_format_of(Some(rate), Some(count)).1,
        ),
        audio_format_of(Some(rate), None) == (rate as int, 2int),
{
}

/// Every position can be sought to but the one that stands for none, the largest.
pub proof fn law_every_position_can_be_pending(us: u64)
    ensures
        us < u64::MAX ==> pending_of(us) == Some(us),
        pending_of(u64::MAX) is None,
{
}

/// A sample is played where it came whole; an error is read again, and the end of the stream is
/// where it starts anew, with or without a sample.
pub proof fn law_audio_samples_are_played(sample: Sample)
    ensures
        sample.is_error() ==> after_audio(sample) is Retry,
        !sample.is_error() && sample.is_end() ==> after_audio(sample) is Rewind,
        after_audio(sample) is Play ==> sample.present && sample.read_ok,
        !sample.is_error() && !sample.is_end() && sample.present ==> after_audio(sample) is Play,
        !sample.is_error() && !sample.is_end() && !sample.present ==> after_audio(sample) is Skip,
{
}

/// While paused the loop looks for something to do two hundred times a second, and a thousand times
/// where the reader has nothing yet; after an error the sound is tried again two hundred times a
/// second.
pub proof fn law_waits_between_reads()
    ensures
        PAUSE_WAIT_MS * 200 == 1000,
        TICK_WAIT_MS * 1000 == 1000,
        AUDIO_RETRY_MS * 200 == 1000,
{
}

/// A jump back to the start of a loop, or of the stream, makes pacing start anew, and gives up the
/// target of a seek; a single frame is still owed where a seek was to show one and has not yet.
pub proof fn law_jumps_back_keep_the_preview(
    before: DecodeLoop,
    sample: Sample,
    region: LoopRegion,
    speed_index: u32,
    now_ns: u64,
    r: AfterRead,
    after: DecodeLoop,
)
    requires
        is_step(before, sample, region, speed_index, now_ns, r, after),
        r is LoopBack || r is Reopen,
    ensures
        after.decode_one <==> before.decode_one && before.seek_until_us is Some,
        after.wall_start_ns is None,
        after.seek_until_us is None,
{
}

/// Where nothing has been read yet the loop waits a tick and counts; it does nothing else.
pub proof fn law_nothing_read_is_counted(
    before: DecodeLoop,
    sample: Sample,
    region: LoopRegion,
    speed_index: u32,
    now_ns: u64,
    r: AfterRead,
    after: DecodeLoop,
)
    requires
        before.wf(),
        is_step(before, sample, region, speed_index, now_ns, r, after),
        r is Tick,
    ensures
        sample.read_ok && sample.is_empty(),
        after.null_sample_streak == before.null_sample_streak + 1,
        after.wall_start_ns == before.wall_start_ns,
        after.seek_until_us == before.seek_until_us,
        after.decode_one == before.decode_one,
        after.pts_start == before.pts_start,
{
}

/// The reader is sent to ten of its units for each microsecond, in 64 bits with a sign: beyond what
/// these hold it goes round.
pub proof fn law_reader_time_counts_tenths(target_us: int)
    requires
        0 <= target_us,
        target_us * 10 <= u64::MAX,
    ensures
        i64::MIN <= reader_time_of(target_us) <= i64::MAX,
        target_us * 10 <= i64::MAX ==> reader_time_of(target_us) == target_us * 10,
        (reader_time_of(target_us) - target_us * 10) % 0x1_0000_0000_0000_0000 == 0,
{
}

} // verus!

//! Audio playback: what each callback does, and the bookkeeping of the time stretcher.

use vstd::prelude::*;

verus! {

// ── what a callback does ────────────────────────────────────────────────────

/// What a callback that has to deliver samples does.
#[derive(Clone, Copy, PartialEq, Eq, Structural, Debug)]
pub enum AudioTurn {
    /// A seek has happened: drop what is buffered, reset the stretcher, deliver silence.
    Flush,
    /// Playback is paused: drop what is buffered, deliver silence.
    Drain,
    /// The video clock is not established yet: deliver silence and keep what is buffered.
    Hold,
    /// Deliver the samples as they are; `reset` the stretcher first.
    Pass { reset: bool },
    /// Deliver stretched samples, at the speed with this index.
    Stretch { speed_index: usize },
}

/// What is remembered between callbacks.
#[derive(Clone, Copy, PartialEq, Eq, Structural, Debug)]
pub struct AudioGate {
    pub last_flush: u64,
    pub last_index: usize,
}

/// What a callback does, and what is remembered after it.
pub open spec fn turn_of(
    gate: AudioGate,
    flush_gen: u64,
    paused: bool,
    started: bool,
    speed_index: usize,
) -> (AudioTurn, AudioGate) {
    let seen = AudioGate { last_flush: flush_gen, ..gate };
    let played = AudioGate { last_flush: flush_gen, last_index: speed_index };
    if flush_gen != gate.last_flush {
        (AudioTurn::Flush, seen)
    } else if paused {
        (AudioTurn::Drain, seen)
    } else if !started {
        (AudioTurn::Hold, seen)
    } else if speed_index == 0 {
        (AudioTurn::Pass { reset: gate.last_index != 0 }, played)
    } else if speed_index < crate::ui::speed::SPEED_COUNT {
        (AudioTurn::Stretch { speed_index }, played)
    } else {
        (AudioTurn::Stretch { speed_index: (crate::ui::speed::SPEED_COUNT - 1) as usize }, played)
    }
}

impl AudioGate {
    /// Before the first callback.
    pub fn new(flush_gen: u64) -> (r: AudioGate)
        ensures
            r == (AudioGate { last_flush: flush_gen, last_index: 0 }),
    {
        AudioGate { last_flush: flush_gen, last_index: 0 }
    }

    /// What to do in a callback. A seek counts before a pause, and both before anything else. At
    /// full speed nothing is processed; coming back to it resets the stretcher, so that stale
    /// samples do not bleed into the next slow motion.
    pub fn on_callback(&mut self, flush_gen: u64, paused: bool, started: bool, speed_index: usize)
        -> (r: AudioTurn)
        ensures
            (r, *final(self)) == turn_of(*old(self), flush_gen, paused, started, speed_index),
            r is Flush <==> flush_gen != old(self).last_flush,
            r is Drain <==> !(r is Flush) && paused,
            r is Hold <==> !(r is Flush) && !paused && !started,
            r is Pass <==> !(r is Flush) && !paused && started && speed_index == 0,
            r matches AudioTurn::Pass { reset } ==> reset == (old(self).last_index != 0),
            r matches AudioTurn::Stretch { speed_index: i } ==> speed_index != 0 && i
                < crate::ui::speed::SPEED_COUNT && i == if speed_index
                < crate::ui::speed::SPEED_COUNT {
                speed_index as int
            } else {
                crate::ui::speed::SPEED_COUNT - 1
            },
            final(self).last_flush == flush_gen,
            final(self).last_index == if r is Pass || r is Stretch {
                speed_index
            } else {
                old(self).last_index
            },
    {
        if flush_gen != self.last_flush {
            self.last_flush = flush_gen;
            return AudioTurn::Flush;
        }
        if paused {
            return AudioTurn::Drain;
        }
        if !started {
            return AudioTurn::Hold;
        }
        let reset = self.last_index != 0;
        self.last_index = speed_index;
        if speed_index == 0 {
            return AudioTurn::Pass { reset };
        }
        let index: usize = if speed_index < crate::ui::speed::SPEED_COUNT {
            speed_index
        } else {
            crate::ui::speed::SPEED_COUNT - 1
        };
        AudioTurn::Stretch { speed_index: index }
    }
}

// ── time stretching ─────────────────────────────────────────────────────────

/// Frames (samples per channel) in an analysis window.
pub const FRAME: usize = 2048;

/// Frames between two windows of the output: half a window.
pub const HOP: usize = 1024;

/// Thirds of a frame between two windows of the input, at the speed with the given index: the
/// output hop times the speed.
pub open spec fn input_hop(speed_index: int) -> int {
    let s = crate::ui::speed::speed(speed_index);
    HOP * 3 * s.0 / s.1
}

proof fn lemma_input_hop(speed_index: int)
    requires
        0 <= speed_index < crate::ui::speed::SPEED_COUNT,
    ensures
        input_hop(speed_index) == if speed_index == 0 {
            3072int
        } else if speed_index == 1 {
            2048
        } else if speed_index == 2 {
            1536
        } else if speed_index == 3 {
            1024
        } else {
            768
        },
{
    assert(3072 * 1 / 1 == 3072 && 3072 * 2 / 3 == 2048 && 3072 * 1 / 2 == 1536 && 3072 * 1 / 3
        == 1024 && 3072 * 1 / 4 == 768);
    assert(HOP * 3 == 3072);
    let s = crate::ui::speed::speed(speed_index);
    if speed_index == 0 {
        assert(s == (1int, 1int));
    } else if speed_index == 1 {
        assert(s == (2int, 3int));
    } else if speed_index == 2 {
        assert(s == (1int, 2int));
    } else if speed_index == 3 {
        assert(s == (1int, 3int));
    } else {
        assert(s == (1int, 4int));
    }
}

/// What to do for one chunk of output of `HOP` frames.
#[derive(Clone, Copy, PartialEq, Eq, Structural, Debug)]
pub enum FramePlan {
    /// There is too little input: the chunk is silent.
    Silence,
    /// Window the input from sample `from` on, overlap it with what is left of the last window,
    /// then drop samples from the front of the input.
    Mix { from: usize, drop: usize },
}

/// What to copy next to the output.
#[derive(Clone, Copy, PartialEq, Eq, Structural, Debug)]
pub struct Chunk {
    /// Make a new chunk of output first.
    pub frame: Option<FramePlan>,
    /// Copy this many samples of the chunk, from sample `from` on.
    pub from: usize,
    pub len: usize,
}

/// Bookkeeping of an overlap-add time stretcher. Audio is slowed down without changing its pitch
/// by taking windows from the input at smaller distances than they have in the output.
pub struct Ola {
    /// Interleaved channels.
    pub ch: usize,
    /// Samples buffered from the input.
    pub buffered: usize,
    /// Thirds of a frame between the front of the buffer and the next window.
    pub in_pos: usize,
    /// Samples of the current chunk of output that have been copied already.
    pub out_cursor: usize,
}

/// `chunk` is what is copied next where `left` samples are still to be delivered, and the
/// stretcher goes from `before` to `after`.
pub open spec fn is_chunk(before: Ola, left: int, speed_index: int, chunk: Chunk, after: Ola) -> bool {
    let size = HOP * before.ch;
    let advanced = before.in_pos + input_hop(speed_index);
    &&& chunk.frame is Some <==> before.out_cursor == size
    &&& chunk.from == if chunk.frame is Some {
        0
    } else {
        before.out_cursor
    }
    &&& chunk.len == if left <= size - chunk.from {
        left
    } else {
        size - chunk.from
    }
    &&& after.out_cursor == chunk.from + chunk.len
    &&& after.ch == before.ch
    &&& chunk.frame matches Some(plan) ==> (plan is Mix <==> before.has_window())
    &&& match chunk.frame {
        Some(FramePlan::Mix { from, drop }) => {
            &&& from == 0
            &&& drop == advanced / 3 * before.ch
            &&& after.buffered == before.buffered - drop
            &&& after.in_pos == advanced % 3
        },
        _ => after.buffered == before.buffered && after.in_pos == before.in_pos,
    }
}

impl Ola {
    /// There are channels, and the next window starts within the first buffered frame.
    pub open spec fn wf(self) -> bool {
        &&& 0 < self.ch <= 0xffff
        &&& self.in_pos < 3
        &&& self.buffered <= 4 * FRAME * self.ch
        &&& self.out_cursor <= HOP * self.ch
    }

    /// A stretcher for the given number of channels. Its chunk starts exhausted, so that the first
    /// samples that are asked for make a new one.
    pub fn new(ch: u16) -> (r: Ola)
        requires
            ch > 0,
        ensures
            r.wf(),
            r == (Ola {
                ch: ch as usize,
                buffered: 0,
                in_pos: 0,
                out_cursor: (HOP * ch) as usize,
            }),
    {
        Ola { ch: ch as usize, buffered: 0, in_pos: 0, out_cursor: HOP * (ch as usize) }
    }

    /// Discards all state: on a seek, or on the return to full speed. The chunk is exhausted.
    pub fn reset(&mut self)
        requires
            old(self).wf(),
        ensures
            final(self).wf(),
            *final(self) == (Ola {
                ch: old(self).ch,
                buffered: 0,
                in_pos: 0,
                out_cursor: (HOP * old(self).ch) as usize,
            }),
    {
        self.buffered = 0;
        self.in_pos = 0;
        self.out_cursor = HOP * self.ch;
    }

    /// How many samples to take from the input, if it has so many: up to four windows ahead, so
    /// that the buffer does not grow without bound.
    pub fn wanted(&self) -> (r: usize)
        requires
            self.wf(),
        ensures
            r == 4 * FRAME * self.ch - self.buffered,
    {
        assert(4 * FRAME * self.ch == 8192 * self.ch);
        4 * FRAME * self.ch - self.buffered
    }

    /// Takes note of samples that were appended to the buffer.
    pub fn fed(&mut self, n: usize)
        requires
            old(self).wf(),
            n <= 4 * FRAME * old(self).ch - old(self).buffered,
        ensures
            final(self).wf(),
            *final(self) == (Ola { buffered: (old(self).buffered + n) as usize, ..*old(self) }),
    {
        assert(4 * FRAME * self.ch == 8192 * self.ch);
        self.buffered = self.buffered + n;
    }

    /// The buffer holds a whole window.
    pub open spec fn has_window(self) -> bool {
        self.buffered >= FRAME * self.ch
    }

    /// Plans one chunk of output at a speed.
    fn process_frame(&mut self, speed_index: usize) -> (r: FramePlan)
        requires
            old(self).wf(),
            speed_index < crate::ui::speed::SPEED_COUNT,
        ensures
            final(self).wf(),
            final(self).ch == old(self).ch,
            final(self).out_cursor == 0,
            r is Silence <==> !old(self).has_window(),
            r is Silence ==> final(self).buffered == old(self).buffered && final(self).in_pos
                == old(self).in_pos,
            r matches FramePlan::Mix { from, drop } ==> {
                &&& from == 0
                &&& drop == (old(self).in_pos + input_hop(speed_index as int)) / 3 * old(self).ch
                &&& drop <= old(self).buffered
                &&& final(self).buffered == old(self).buffered - drop
                &&& final(self).in_pos == (old(self).in_pos + input_hop(speed_index as int)) % 3
            },
    {
        self.out_cursor = 0;
        let ch: usize = self.ch;
        if self.buffered < FRAME * ch {
            return FramePlan::Silence;
        }
        let hop: usize = if speed_index == 0 {
            3072
        } else if speed_index == 1 {
            2048
        } else if speed_index == 2 {
            1536
        } else if speed_index == 3 {
            1024
        } else {
            768
        };
        proof {
            lemma_input_hop(speed_index as int);
        }
        let advanced: usize = self.in_pos + hop;
        let frames: usize = advanced / 3;
        assert(frames * ch <= FRAME * ch) by (nonlinear_arith)
            requires
                frames <= FRAME,
                ch >= 0,
        ;
        let drop: usize = frames * ch;
        self.buffered = self.buffered - drop;
        self.in_pos = advanced % 3;
        FramePlan::Mix { from: 0, drop }
    }

    /// What to copy next where `left` samples of output are still to be delivered.
    pub fn next_chunk(&mut self, left: usize, speed_index: usize) -> (r: Chunk)
        requires
            old(self).wf(),
            left > 0,
            speed_index < crate::ui::speed::SPEED_COUNT,
        ensures
            final(self).wf(),
            is_chunk(*old(self), left as int, speed_index as int, r, *final(self)),
            final(self).ch == old(self).ch,
            0 < r.len <= left,
            r.from + r.len <= HOP * old(self).ch,
            r.frame is Some <==> old(self).out_cursor == HOP * old(self).ch,
            r.from == if r.frame is Some {
                0
            } else {
                old(self).out_cursor
            },
            r.len == if left <= HOP * old(self).ch - r.from {
                left as int
            } else {
                HOP * old(self).ch - r.from
            },
            final(self).out_cursor == r.from + r.len,
            match r.frame {
                Some(FramePlan::Mix { from, drop }) => {
                    &&& old(self).has_window()
                    &&& from == 0
                    &&& drop == (old(self).in_pos + input_hop(speed_index as int)) / 3
                        * old(self).ch
                    &&& final(self).buffered == old(self).buffered - drop
                    &&& final(self).in_pos == (old(self).in_pos + input_hop(speed_index as int))
                        % 3
                },
                Some(FramePlan::Silence) => !old(self).has_window() && final(self).buffered
                    == old(self).buffered && final(self).in_pos == old(self).in_pos,
                None => final(self).buffered == old(self).buffered && final(self).in_pos
                    == old(self).in_pos,
            },
    {
        let size: usize = HOP * self.ch;
        let frame = if self.out_cursor >= size {
            Some(self.process_frame(speed_index))
        } else {
            None
        };
        let from: usize = self.out_cursor;
        let avail: usize = size - from;
        let len: usize = if left <= avail {
            left
        } else {
            avail
        };
        self.out_cursor = from + len;
        Chunk { frame, from, len }
    }
}

// ── laws ────────────────────────────────────────────────────────────────────

/// Input thirds that `n` chunks of output take, starting from a window `in_pos` thirds into the
/// buffer: what is dropped and what is left of the position.
pub open spec fn taken(in_pos: int, hop: int, n: nat) -> (int, int)
    decreases n,
{
    if n == 0 {
        (0, in_pos)
    } else {
        let (dropped, pos) = taken(in_pos, hop, (n - 1) as nat);
        (dropped + (pos + hop) / 3, (pos + hop) % 3)
    }
}

/// Slow motion keeps its speed exactly: over any number of chunks the input that is dropped, and
/// the part of a frame that is left, add up to the output times the speed.
pub proof fn law_stretching_keeps_the_speed(in_pos: int, speed_index: int, n: nat)
    requires
        0 <= in_pos < 3,
        0 <= speed_index < crate::ui::speed::SPEED_COUNT,
    ensures
        ({
            let (dropped, pos) = taken(in_pos, input_hop(speed_index), n);
            &&& dropped * 3 + pos == in_pos + n * input_hop(speed_index)
            &&& 0 <= pos < 3
        }),
        input_hop(speed_index) * crate::ui::speed::speed(speed_index).1 == HOP * 3
            * crate::ui::speed::speed(speed_index).0,
    decreases n,
{
    let hop = input_hop(speed_index);
    lemma_input_hop(speed_index);
    if n > 0 {
        law_stretching_keeps_the_speed(in_pos, speed_index, (n - 1) as nat);
        assert(n * hop == (n - 1) * hop + hop) by (nonlinear_arith);
    } else {
        assert(n * hop == 0) by (nonlinear_arith)
            requires
                n == 0,
        ;
    }
}

/// A seek flushes the audio exactly once: the callback after it is no flush unless there was
/// another seek.
pub proof fn law_a_seek_flushes_once(
    gate: AudioGate,
    flush_gen: u64,
    paused: bool,
    started: bool,
    speed_index: usize,
    later_gen: u64,
    later_paused: bool,
    later_started: bool,
    later_index: usize,
)
    ensures
        ({
            let (turn, after) = turn_of(gate, flush_gen, paused, started, speed_index);
            let (later, _) = turn_of(after, later_gen, later_paused, later_started, later_index);
            &&& turn == AudioTurn::Flush <==> flush_gen != gate.last_flush
            &&& later == AudioTurn::Flush <==> later_gen != flush_gen
        }),
{
}

/// Sound is heard exactly while the video plays: not while it is paused, and not before its clock
/// runs. While it is paused what is buffered is dropped; before the clock runs it is kept.
pub proof fn law_sound_follows_the_video(
    gate: AudioGate,
    paused: bool,
    started: bool,
    speed_index: usize,
)
    ensures
        ({
            let (turn, _) = turn_of(gate, gate.last_flush, paused, started, speed_index);
            &&& turn is Pass || turn is Stretch <==> !paused && started
            &&& turn == AudioTurn::Drain <==> paused
            &&& turn == AudioTurn::Hold <==> !paused && !started
        }),
{
}

/// At full speed sound passes as it is, at any other speed it is stretched at that speed. The
/// stretcher is reset when sound passes again for the first time after slow motion.
pub proof fn law_slow_motion_is_stretched(gate: AudioGate, speed_index: usize)
    requires
        speed_index < crate::ui::speed::SPEED_COUNT,
    ensures
        ({
            let (turn, after) = turn_of(gate, gate.last_flush, false, true, speed_index);
            let (next, _) = turn_of(after, gate.last_flush, false, true, 0);
            &&& speed_index == 0 ==> turn is Pass
            &&& speed_index != 0 ==> turn == (AudioTurn::Stretch { speed_index })
            &&& next == (AudioTurn::Pass { reset: speed_index != 0 })
        }),
{
}

/// A silent callback does not count as played: the speed that sound was last heard at is kept.
pub proof fn law_silence_keeps_the_last_speed(
    gate: AudioGate,
    flush_gen: u64,
    paused: bool,
    started: bool,
    speed_index: usize,
)
    requires
        flush_gen != gate.last_flush || paused || !started,
    ensures
        turn_of(gate, flush_gen, paused, started, speed_index).1.last_index == gate.last_index,
{
}

/// A window has 2048 frames, and windows lie half of that apart in the output.
pub proof fn law_windows_overlap_by_half()
    ensures
        FRAME == 2048,
        2 * HOP == FRAME,
{
}

/// Each new chunk moves the input on by as much as it delivers times the speed, to a third of a
/// frame: what is dropped from the buffer and what the position within a frame gains add up to
/// it. A chunk is silent only where less than a window is buffered.
pub proof fn law_chunks_take_input_at_the_speed(
    before: Ola,
    left: int,
    speed_index: int,
    chunk: Chunk,
    after: Ola,
)
    requires
        before.wf(),
        0 <= speed_index < crate::ui::speed::SPEED_COUNT,
        is_chunk(before, left, speed_index, chunk, after),
    ensures
        before.out_cursor < HOP * before.ch ==> chunk.frame is None,
        before.out_cursor == HOP * before.ch ==> chunk.frame is Some && (chunk.frame
            == Some(FramePlan::Silence) <==> before.buffered < 2048 * before.ch),
        chunk.frame matches Some(FramePlan::Mix { from, drop }) ==> {
            let (num, den) = crate::ui::speed::speed(speed_index);
            let frames = (before.buffered - after.buffered) / before.ch as int;
            &&& from == 0
            &&& drop == before.buffered - after.buffered == frames * before.ch
            &&& (3 * frames + after.in_pos - before.in_pos) * den == 3 * 1024 * num
            &&& 0 <= after.in_pos < 3
        },
        !(chunk.frame matches Some(FramePlan::Mix { .. })) ==> after.buffered == before.buffered
            && after.in_pos == before.in_pos,
{
    lemma_input_hop(speed_index);
    law_stretching_keeps_the_speed(before.in_pos as int, speed_index, 0);
    let frames = (before.in_pos + input_hop(speed_index)) / 3;
    vstd::arithmetic::div_mod::lemma_div_multiples_vanish(frames, before.ch as int);
    assert(frames * before.ch == before.ch * frames) by (nonlinear_arith);
}

/// The output has no gaps: a chunk begins where the last copy of it ended, or at its start where
/// it is new, and as much is copied as is wanted and there.
pub proof fn law_output_has_no_gaps(
    before: Ola,
    left: int,
    speed_index: int,
    chunk: Chunk,
    after: Ola,
)
    requires
        before.wf(),
        0 < left,
        is_chunk(before, left, speed_index, chunk, after),
    ensures
        chunk.from == before.out_cursor || (chunk.from == 0 && chunk.frame is Some),
        chunk.from + chunk.len == after.out_cursor <= HOP * before.ch,
        0 < chunk.len <= left,
        chunk.len < left ==> after.out_cursor == HOP * before.ch,
{
}

/// Sound is stretched at the speed that is asked for, and at the slowest one where a slower one is
/// asked for.
pub proof fn law_stretching_goes_to_the_slowest_speed(
    gate: AudioGate,
    flush_gen: u64,
    paused: bool,
    started: bool,
    index: usize,
)
    ensures
        turn_of(gate, flush_gen, paused, started, index).0 matches AudioTurn::Stretch {
            speed_index,
        } ==> 0 < speed_index <= 4 && (index <= 4 ==> speed_index == index) && (index > 4
            ==> speed_index == 4),
{
}

} // verus!

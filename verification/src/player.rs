//! Playback of the current video, as the control bar sees it.

use vstd::prelude::*;

use crate::number::wrapped_sum;
use crate::ui::control_bar::{ControlBarActions, ControlBarState};
use crate::ui::speed::next_speed;

verus! {

/// How far before a seek target the decoder may report and the seek still counts as done.
pub const SEEK_TOLERANCE_US: u64 = 100_000;

/// How long the target of a seek is shown while the decoder has not reached it.
pub const SEEK_TIMEOUT_NS: u64 = 500_000_000;

/// Playback of the current video.
pub struct Player {
    pub control_bar: ControlBarState,
    /// Duration in microseconds of the video that is open (0 if not known); none if no video is.
    pub open_duration_us: Option<u64>,
    /// The position of a seek that the decoder has not reached yet.
    pub seek_target_us: Option<u64>,
    /// When that seek was asked for, in nanoseconds.
    pub seek_since_ns: Option<u64>,
}

/// What to tell the decoder about its loop.
#[derive(Clone, Copy, PartialEq, Eq, Structural, Debug)]
pub enum LoopCommand {
    /// The loop starts here; it is not active yet.
    Start(u64),
    /// The loop ends here and is active from now on.
    End(u64),
    Off,
}

/// What to tell the decoder.
#[derive(Clone, Copy, PartialEq, Eq, Structural, Debug)]
pub struct PlaybackCommands {
    pub paused: Option<bool>,
    pub speed_index: Option<u32>,
    pub looping: Option<LoopCommand>,
    /// Seek video and audio here, and drop audio that is buffered.
    pub seek_us: Option<u64>,
}

/// The loop state after a click: off, start set, active, off.
pub open spec fn next_loop_state(state: u8) -> u8 {
    if state == 0 {
        1
    } else if state == 1 {
        2
    } else {
        0
    }
}

/// What a click on the loop button at a position means for the decoder.
pub open spec fn loop_command(state: u8, position: u64) -> LoopCommand {
    if state == 0 {
        LoopCommand::Start(position)
    } else if state == 1 {
        LoopCommand::End(position)
    } else {
        LoopCommand::Off
    }
}

impl Player {
    /// The control bar is sound.
    pub open spec fn wf(self) -> bool {
        self.control_bar.wf()
    }

    /// The video can be sought in: one is open, and its duration is known.
    pub open spec fn can_seek(self) -> bool {
        self.open_duration_us matches Some(d) && d > 0
    }

    /// With playback paused or resumed.
    pub open spec fn toggled(self) -> Player {
        Player {
            control_bar: ControlBarState {
                is_playing: !self.control_bar.is_playing,
                ..self.control_bar
            },
            ..self
        }
    }

    /// At the next speed.
    pub open spec fn sped(self) -> Player {
        Player {
            control_bar: ControlBarState {
                speed_index: ((self.control_bar.speed_index + 1)
                    % crate::ui::speed::SPEED_COUNT as int) as usize,
                ..self.control_bar
            },
            ..self
        }
    }

    /// In the next loop state.
    pub open spec fn looped(self) -> Player {
        Player {
            control_bar: ControlBarState {
                loop_state: next_loop_state(self.control_bar.loop_state),
                ..self.control_bar
            },
            ..self
        }
    }

    /// With a seek to `target` under way, where the video can be sought in.
    pub open spec fn sought(self, target: int, now_ns: u64) -> Player {
        if self.can_seek() {
            Player {
                control_bar: ControlBarState { current_us: target as u64, ..self.control_bar },
                seek_target_us: Some(target as u64),
                seek_since_ns: Some(now_ns),
                ..self
            }
        } else {
            self
        }
    }

    /// The position `delta` microseconds away, going round at either end of the video.
    pub open spec fn position_at(self, delta: int) -> int {
        (self.control_bar.current_us + delta) % (self.open_duration_us->0 as int)
    }

    /// The seek under way is done: the decoder is there, or has had time enough.
    pub open spec fn seek_is_done(self, pts_us: u64, now_ns: u64) -> bool {
        match self.seek_target_us {
            None => true,
            Some(target) => pts_us >= target - SEEK_TOLERANCE_US || (self.seek_since_ns matches
                Some(since) && now_ns - since >= SEEK_TIMEOUT_NS),
        }
    }

    /// With the position that the decoder reports, unless a seek is still under way.
    pub open spec fn settled(self, pts_us: u64, now_ns: u64) -> Player {
        if self.open_duration_us is None {
            self
        } else if self.seek_is_done(pts_us, now_ns) {
            Player {
                control_bar: ControlBarState {
                    current_us: pts_us,
                    duration_us: if self.control_bar.duration_us == 0 {
                        self.open_duration_us->0
                    } else {
                        self.control_bar.duration_us
                    },
                    ..self.control_bar
                },
                seek_target_us: None,
                seek_since_ns: if self.seek_target_us is Some {
                    None
                } else {
                    self.seek_since_ns
                },
                ..self
            }
        } else {
            Player {
                control_bar: ControlBarState {
                    duration_us: if self.control_bar.duration_us == 0 {
                        self.open_duration_us->0
                    } else {
                        self.control_bar.duration_us
                    },
                    ..self.control_bar
                },
                ..self
            }
        }
    }

    /// What the actions of the control bar make of playback, in the order of its buttons.
    pub open spec fn acted(self, actions: ControlBarActions, now_ns: u64) -> Player {
        let a = if actions.play_pause {
            self.toggled()
        } else {
            self
        };
        let b = if actions.cycle_speed {
            a.sped()
        } else {
            a
        };
        let c = if actions.cycle_loop {
            b.looped()
        } else {
            b
        };
        let d = match actions.seek_us {
            Some(us) => c.sought(us as int, now_ns),
            None => c,
        };
        match actions.seek_delta_us {
            Some(delta) => d.sought(d.position_at(delta as int), now_ns),
            None => d,
        }
    }

    /// What the actions of the control bar tell the decoder; `pts_us` is its position.
    pub open spec fn commands(
        self,
        actions: ControlBarActions,
        pts_us: u64,
        now_ns: u64,
    ) -> PlaybackCommands {
        let is_open = self.open_duration_us is Some;
        let after = self.acted(actions, now_ns);
        PlaybackCommands {
            paused: if actions.play_pause && is_open {
                Some(!after.control_bar.is_playing)
            } else {
                None
            },
            speed_index: if actions.cycle_speed && is_open {
                Some(after.control_bar.speed_index as u32)
            } else {
                None
            },
            looping: if actions.cycle_loop && is_open {
                Some(loop_command(self.control_bar.loop_state, pts_us))
            } else {
                None
            },
            seek_us: if self.can_seek() && (actions.seek_us is Some || actions.seek_delta_us
                is Some) {
                Some(after.control_bar.current_us)
            } else {
                None
            },
        }
    }

    /// No video is open.
    pub fn new() -> (r: Player)
        ensures
            r.wf(),
            r.open_duration_us is None,
            r.seek_target_us is None,
            r.seek_since_ns is None,
            r.control_bar.video_name@ == Seq::<char>::empty(),
            r.control_bar.error is None,
            r.control_bar.is_playing,
            r.control_bar.current_us == 0,
            r.control_bar.duration_us == 0,
            r.control_bar.speed_index == 0,
            r.control_bar.loop_state == 0,
    {
        Player {
            control_bar: ControlBarState::default(),
            open_duration_us: None,
            seek_target_us: None,
            seek_since_ns: None,
        }
    }

    /// Takes the position that the decoder reports at the time `now_ns`.
    pub fn update_position(&mut self, pts_us: u64, now_ns: u64)
        requires
            old(self).wf(),
        ensures
            final(self).wf(),
            *final(self) == old(self).settled(pts_us, now_ns),
    {
        let duration: u64 = match self.open_duration_us {
            None => {
                return ;
            },
            Some(d) => d,
        };
        if self.control_bar.duration_us == 0 {
            self.control_bar.duration_us = duration;
        }
        match self.seek_target_us {
            Some(target) => {
                let timed_out = match self.seek_since_ns {
                    Some(since) => now_ns >= since && now_ns - since >= SEEK_TIMEOUT_NS,
                    None => false,
                };
                let arrived = target <= SEEK_TOLERANCE_US || pts_us >= target
                    - SEEK_TOLERANCE_US;
                if arrived || timed_out {
                    self.control_bar.current_us = pts_us;
                    self.seek_target_us = None;
                    self.seek_since_ns = None;
                }
            },
            None => {
                self.control_bar.current_us = pts_us;
            },
        }
    }

    /// Pauses or resumes playback.
    pub fn toggle_play(&mut self) -> (r: Option<bool>)
        requires
            old(self).wf(),
        ensures
            final(self).wf(),
            *final(self) == old(self).toggled(),
            r == if old(self).open_duration_us is Some {
                Some(old(self).control_bar.is_playing)
            } else {
                None
            },
    {
        self.control_bar.is_playing = !self.control_bar.is_playing;
        if self.open_duration_us.is_some() {
            Some(!self.control_bar.is_playing)
        } else {
            None
        }
    }

    /// Goes to the next speed.
    pub fn cycle_speed(&mut self) -> (r: Option<u32>)
        requires
            old(self).wf(),
        ensures
            final(self).wf(),
            *final(self) == old(self).sped(),
            r == if old(self).open_duration_us is Some {
                Some(final(self).control_bar.speed_index as u32)
            } else {
                None
            },
    {
        self.control_bar.speed_index = next_speed(self.control_bar.speed_index);
        if self.open_duration_us.is_some() {
            Some(self.control_bar.speed_index as u32)
        } else {
            None
        }
    }

    /// Goes to the next loop state: the first click sets the loop's start to the position of the
    /// decoder, the second sets its end, the third turns it off.
    pub fn cycle_loop(&mut self, pts_us: u64) -> (r: Option<LoopCommand>)
        requires
            old(self).wf(),
        ensures
            final(self).wf(),
            *final(self) == old(self).looped(),
            r == if old(self).open_duration_us is Some {
                Some(loop_command(old(self).control_bar.loop_state, pts_us))
            } else {
                None
            },
    {
        let (state, command) = if self.control_bar.loop_state == 0 {
            (1u8, LoopCommand::Start(pts_us))
        } else if self.control_bar.loop_state == 1 {
            (2u8, LoopCommand::End(pts_us))
        } else {
            (0u8, LoopCommand::Off)
        };
        self.control_bar.loop_state = state;
        if self.open_duration_us.is_some() {
            Some(command)
        } else {
            None
        }
    }

    /// Seeks to a position.
    pub fn seek_to(&mut self, target_us: u64, now_ns: u64) -> (r: Option<u64>)
        requires
            old(self).wf(),
        ensures
            final(self).wf(),
            *final(self) == old(self).sought(target_us as int, now_ns),
            r == if old(self).can_seek() {
                Some(target_us)
            } else {
                None
            },
    {
        let duration: u64 = match self.open_duration_us {
            Some(d) => d,
            None => 0,
        };
        if duration == 0 {
            return None;
        }
        self.control_bar.current_us = target_us;
        self.seek_target_us = Some(target_us);
        self.seek_since_ns = Some(now_ns);
        Some(target_us)
    }

    /// Seeks by a distance, going round at either end of the video.
    pub fn seek_by(&mut self, delta_us: i64, now_ns: u64) -> (r: Option<u64>)
        requires
            old(self).wf(),
        ensures
            final(self).wf(),
            *final(self) == old(self).sought(old(self).position_at(delta_us as int), now_ns),
            r == if old(self).can_seek() {
                Some(old(self).position_at(delta_us as int) as u64)
            } else {
                None
            },
    {
        let duration: u64 = match self.open_duration_us {
            Some(d) => d,
            None => 0,
        };
        if duration == 0 {
            return None;
        }
        let target = wrapped_sum(self.control_bar.current_us, delta_us, duration);
        self.seek_to(target, now_ns)
    }

    /// Carries out the actions of the control bar that concern playback, in the order of its
    /// buttons; `pts_us` is the position of the decoder.
    pub fn on_actions(&mut self, actions: &ControlBarActions, pts_us: u64, now_ns: u64) -> (r:
        PlaybackCommands)
        requires
            old(self).wf(),
        ensures
            final(self).wf(),
            *final(self) == old(self).acted(*actions, now_ns),
            r == old(self).commands(*actions, pts_us, now_ns),
            ({
                let a = if actions.play_pause {
                    old(self).toggled()
                } else {
                    *old(self)
                };
                let b = if actions.cycle_speed {
                    a.sped()
                } else {
                    a
                };
                let c = if actions.cycle_loop {
                    b.looped()
                } else {
                    b
                };
                let d = match actions.seek_us {
                    Some(us) => c.sought(us as int, now_ns),
                    None => c,
                };
                let e = match actions.seek_delta_us {
                    Some(delta) => d.sought(d.position_at(delta as int), now_ns),
                    None => d,
                };
                let is_open = old(self).open_duration_us is Some;
                &&& *final(self) == e
                &&& r.paused == if actions.play_pause && is_open {
                    Some(old(self).control_bar.is_playing)
                } else {
                    None
                }
                &&& r.speed_index == if actions.cycle_speed && is_open {
                    Some(b.control_bar.speed_index as u32)
                } else {
                    None
                }
                &&& r.looping == if actions.cycle_loop && is_open {
                    Some(loop_command(old(self).control_bar.loop_state, pts_us))
                } else {
                    None
                }
                &&& r.seek_us == if actions.seek_us is None && actions.seek_delta_us is None {
                    None
                } else if old(self).can_seek() {
                    e.seek_target_us
                } else {
                    None
                }
            }),
    {
        let paused = if actions.play_pause {
            self.toggle_play()
        } else {
            None
        };
        let speed_index = if actions.cycle_speed {
            self.cycle_speed()
        } else {
            None
        };
        let looping = if actions.cycle_loop {
            self.cycle_loop(pts_us)
        } else {
            None
        };
        let mut seek_us: Option<u64> = match actions.seek_us {
            Some(us) => self.seek_to(us, now_ns),
            None => None,
        };
        if let Some(delta) = actions.seek_delta_us {
            seek_us = self.seek_by(delta, now_ns);
        }
        PlaybackCommands { paused, speed_index, looping, seek_us }
    }
}

// ── laws ────────────────────────────────────────────────────────────────────

/// Pausing and resuming leaves playback as it was.
pub proof fn law_play_pause_twice(player: Player)
    ensures
        player.toggled().toggled() == player,
{
}

/// After as many clicks as there are speeds the speed is the one it was.
pub proof fn law_speeds_go_round(player: Player)
    requires
        player.wf(),
    ensures
        player.sped().sped().sped().sped().sped() == player,
        player.sped().wf(),
{
}

/// Three clicks on the loop button lead back to where they started, and the first two from off
/// set a start and an end.
pub proof fn law_loop_button_goes_round(player: Player, start: u64, end: u64)
    requires
        player.wf(),
    ensures
        player.looped().looped().looped() == player,
        player.control_bar.loop_state == 0 ==> loop_command(player.control_bar.loop_state, start)
            == LoopCommand::Start(start) && loop_command(
            player.looped().control_bar.loop_state,
            end,
        ) == LoopCommand::End(end) && player.looped().looped().control_bar.loop_state == 2,
{
}

/// A seek by a distance never leaves the video.
pub proof fn law_seek_by_stays_in_the_video(player: Player, delta: int)
    requires
        player.can_seek(),
    ensures
        0 <= player.position_at(delta) < player.open_duration_us->0,
{
}

/// Seeking by a distance and by its opposite leads back to the position.
pub proof fn law_seek_forth_and_back(player: Player, delta: int, now_ns: u64)
    requires
        player.can_seek(),
        player.control_bar.current_us < player.open_duration_us->0,
    ensures
        player.sought(player.position_at(delta), now_ns).position_at(-delta)
            == player.control_bar.current_us,
{
    let n = player.open_duration_us->0 as int;
    let x = player.control_bar.current_us as int;
    law_seek_by_stays_in_the_video(player, delta);
    vstd::arithmetic::div_mod::lemma_add_mod_noop(x + delta, -delta, n);
    vstd::arithmetic::div_mod::lemma_mod_twice(x + delta, n);
    vstd::arithmetic::div_mod::lemma_add_mod_noop((x + delta) % n, -delta, n);
    vstd::arithmetic::div_mod::lemma_small_mod(x as nat, n as nat);
}

/// While a seek is under way the position shown is its target; once it is done the position
/// shown is the decoder's.
pub proof fn law_seek_shows_its_target(player: Player, target: u64, asked_ns: u64, pts: u64, now: u64)
    requires
        player.can_seek(),
    ensures
        ({
            let seeking = player.sought(target as int, asked_ns);
            let after = seeking.settled(pts, now);
            &&& seeking.control_bar.current_us == target
            &&& pts < target - SEEK_TOLERANCE_US && now - asked_ns < SEEK_TIMEOUT_NS
                ==> after.control_bar.current_us == target && after.seek_target_us == Some(target)
            &&& pts >= target - SEEK_TOLERANCE_US || now - asked_ns >= SEEK_TIMEOUT_NS
                ==> after.control_bar.current_us == pts && after.seek_target_us is None
        }),
{
}

/// A seek by a distance that does not leave the video goes exactly that far; past the end it comes
/// in again at the start, and past the start at the end.
pub proof fn law_seek_by_goes_that_far(player: Player, delta: int)
    requires
        player.can_seek(),
        player.control_bar.current_us < player.open_duration_us->0,
    ensures
        ({
            let n = player.open_duration_us->0;
            let to = player.control_bar.current_us + delta;
            &&& 0 <= to < n ==> player.position_at(delta) == to
            &&& n <= to < 2 * n ==> player.position_at(delta) == to - n
            &&& -n <= to < 0 ==> player.position_at(delta) == to + n
        }),
{
    let n = player.open_duration_us->0 as int;
    let to = player.control_bar.current_us + delta;
    if 0 <= to < n {
        vstd::arithmetic::div_mod::lemma_small_mod(to as nat, n as nat);
    } else if n <= to < 2 * n {
        vstd::arithmetic::div_mod::lemma_fundamental_div_mod_converse_mod(to, n, 1, to - n);
    } else if -n <= to < 0 {
        vstd::arithmetic::div_mod::lemma_fundamental_div_mod_converse_mod(to, n, -1, to + n);
    }
}

/// A click on the speed button leads to the next speed, and from the last one to the first; it
/// changes nothing else.
pub proof fn law_speed_button_goes_on_by_one(player: Player)
    requires
        player.wf(),
    ensures
        player.sped().control_bar.speed_index == if player.control_bar.speed_index
            == crate::ui::speed::SPEED_COUNT - 1 {
            0
        } else {
            player.control_bar.speed_index + 1
        },
        player.sped() == (Player {
            control_bar: ControlBarState {
                speed_index: player.sped().control_bar.speed_index,
                ..player.control_bar
            },
            ..player
        }),
{
}

/// The loop button goes from off to start set to active to off; the first click sets the start
/// where the decoder is, the second the end, the third turns the loop off.
pub proof fn law_loop_button(player: Player, position: u64)
    requires
        player.wf(),
    ensures
        player.control_bar.loop_state == 0 ==> player.looped().control_bar.loop_state == 1
            && loop_command(0, position) == LoopCommand::Start(position),
        player.control_bar.loop_state == 1 ==> player.looped().control_bar.loop_state == 2
            && loop_command(1, position) == LoopCommand::End(position),
        player.control_bar.loop_state == 2 ==> player.looped().control_bar.loop_state == 0
            && loop_command(2, position) == LoopCommand::Off,
{
}

/// Without a seek under way the position shown is the decoder's; the duration shown is that of the
/// open video once it is known. Without a video nothing changes.
pub proof fn law_position_follows_the_decoder(player: Player, pts: u64, now: u64)
    ensures
        player.open_duration_us is None ==> player.settled(pts, now) == player,
        player.open_duration_us is Some && player.seek_target_us is None ==> player.settled(
            pts,
            now,
        ).control_bar.current_us == pts && player.settled(pts, now).seek_target_us is None,
        player.open_duration_us is Some && player.control_bar.duration_us == 0 ==> player.settled(
            pts,
            now,
        ).control_bar.duration_us == player.open_duration_us->0,
        player.control_bar.duration_us != 0 ==> player.settled(pts, now).control_bar.duration_us
            == player.control_bar.duration_us,
        player.settled(pts, now).control_bar.is_playing == player.control_bar.is_playing,
        player.settled(pts, now).control_bar.speed_index == player.control_bar.speed_index,
        player.settled(pts, now).control_bar.loop_state == player.control_bar.loop_state,
        player.settled(pts, now).control_bar.video_name == player.control_bar.video_name,
        player.settled(pts, now).control_bar.error == player.control_bar.error,
{
}

/// A seek counts as done from a tenth of a second before its target on, or half a second after it
/// was asked for.
pub proof fn law_seek_tolerances(player: Player, target: u64, asked: u64, pts: u64, now: u64)
    requires
        player.seek_target_us == Some(target),
        player.seek_since_ns == Some(asked),
    ensures
        player.seek_is_done(pts, now) <==> pts + 100_000 >= target || now >= asked + 500_000_000,
{
}

/// Each button does its own thing, to the player and to the decoder, and without an action nothing
/// happens.
pub proof fn law_buttons_do_their_own_thing(
    player: Player,
    actions: ControlBarActions,
    pts: u64,
    now: u64,
)
    requires
        player.open_duration_us is Some,
        player.wf(),
    ensures
        ({
            let after = player.acted(actions, now);
            let told = player.commands(actions, pts, now);
            &&& (after.control_bar.is_playing != player.control_bar.is_playing)
                == actions.play_pause
            &&& told.paused == if actions.play_pause {
                Some(player.control_bar.is_playing)
            } else {
                None
            }
            &&& after.control_bar.speed_index == if actions.cycle_speed {
                player.sped().control_bar.speed_index
            } else {
                player.control_bar.speed_index
            }
            &&& told.speed_index == if actions.cycle_speed {
                Some(player.sped().control_bar.speed_index as u32)
            } else {
                None
            }
            &&& after.control_bar.loop_state == if actions.cycle_loop {
                player.looped().control_bar.loop_state
            } else {
                player.control_bar.loop_state
            }
            &&& told.looping is Some == actions.cycle_loop
            &&& actions.seek_us is None && actions.seek_delta_us is None ==> told.seek_us is None
                && after.control_bar.current_us == player.control_bar.current_us
                && after.seek_target_us == player.seek_target_us
            &&& !player.can_seek() ==> told.seek_us is None && after.control_bar.current_us
                == player.control_bar.current_us
            &&& player.can_seek() && actions.seek_us is Some && actions.seek_delta_us is None
                ==> told.seek_us == actions.seek_us && Some(after.control_bar.current_us)
                == actions.seek_us
            &&& player.can_seek() && actions.seek_us is None && actions.seek_delta_us is Some
                ==> told.seek_us == Some(player.position_at(actions.seek_delta_us->0 as int) as u64)
                && after.control_bar.current_us == player.position_at(
                actions.seek_delta_us->0 as int,
            )
        }),
{
    if player.can_seek() {
        if let Some(delta) = actions.seek_delta_us {
            law_seek_by_stays_in_the_video(player, delta as int);
        }
    }
}

/// Without an open video the decoder is told nothing.
pub proof fn law_nothing_is_told_without_a_video(
    player: Player,
    actions: ControlBarActions,
    pts: u64,
    now: u64,
)
    requires
        player.open_duration_us is None,
    ensures
        player.commands(actions, pts, now) == (PlaybackCommands {
            paused: None,
            speed_index: None,
            looping: None,
            seek_us: None,
        }),
{
}

} // verus!

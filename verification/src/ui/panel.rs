//! Pointing at panels: what the controllers' rays and buttons mean for a panel.
//!
//! A widget is activated if the button was pressed while the pointer was over it, and the
//! pointer is still over it at release. Moving off cancels; moving onto a different widget does
//! not steal the press.

use vstd::prelude::*;

verus! {

/// What one controller does to a panel in a frame. The stick's deflection is the bit pattern of
/// a single-precision number.
#[derive(Clone, Copy)]
pub struct PanelInput<P> {
    /// Where its ray hits the panel.
    pub hit: Option<P>,
    /// Its select button is held.
    pub clicking: bool,
    pub stick_y_bits: u32,
}

/// An event for the widgets of a panel.
#[derive(Clone, Copy)]
pub enum PointerEvent<P> {
    Moved(P),
    Pressed(P),
    Released(P),
    /// The stick scrolls, with this deflection.
    Scroll(u32),
    Gone,
}

/// What a frame means for a panel.
pub struct PanelFrame<P> {
    pub events: Vec<PointerEvent<P>>,
    /// Where the button was pressed and where it was released, on the frame of the release.
    pub interaction: Option<(P, P)>,
}

/// What is remembered of the pointer between frames.
pub struct PointerTracker<P> {
    pub cursor: Option<P>,
    pub prev_clicking: bool,
    /// Whether the left and the right select button were held.
    pub held: (bool, bool),
    /// Where the button was pressed that is held now.
    pub press: Option<P>,
}

/// The bit pattern of 0.05, the deflection up to which the stick does not scroll.
pub const SCROLL_DEAD_ZONE_BITS: u32 = 0x3d4c_cccd;

/// The controller, if there is one and its ray hits.
pub open spec fn hitting<P>(c: Option<PanelInput<P>>) -> Option<P> {
    match c {
        Some(c) => c.hit,
        None => None,
    }
}

/// The select button is held.
pub open spec fn is_held<P>(c: Option<PanelInput<P>>) -> bool {
    c matches Some(c) && c.clicking
}

/// The right controller points at the panel, and so leads; otherwise the left one does.
pub open spec fn right_leads<P>(right: Option<PanelInput<P>>) -> bool {
    hitting(right) is Some
}

/// Where the leading controller points.
pub open spec fn pointed<P>(left: Option<PanelInput<P>>, right: Option<PanelInput<P>>) -> Option<
    P,
> {
    if right_leads(right) {
        hitting(right)
    } else {
        hitting(left)
    }
}

/// The leading controller points at the panel with its button held.
pub open spec fn clicks<P>(left: Option<PanelInput<P>>, right: Option<PanelInput<P>>) -> bool {
    pointed(left, right) is Some && if right_leads(right) {
        is_held(right)
    } else {
        is_held(left)
    }
}

/// The deflection of the stick that is pushed farther, of the left one where both are pushed
/// alike; patterns that are no number do not count.
pub open spec fn scroll_of<P>(left: Option<PanelInput<P>>, right: Option<PanelInput<P>>) -> u32 {
    let l = match left {
        Some(c) => if crate::vr::is_number(c.stick_y_bits) && crate::vr::size_bits(c.stick_y_bits)
            > 0 {
            c.stick_y_bits
        } else {
            0
        },
        None => 0,
    };
    match right {
        Some(c) => if crate::vr::is_number(c.stick_y_bits) && crate::vr::size_bits(c.stick_y_bits)
            > crate::vr::size_bits(l) {
            c.stick_y_bits
        } else {
            l
        },
        None => l,
    }
}

/// The events of a frame.
pub open spec fn events_of<P>(
    tracker: PointerTracker<P>,
    left: Option<PanelInput<P>>,
    right: Option<PanelInput<P>>,
) -> Seq<PointerEvent<P>> {
    let clicking = clicks(left, right);
    match pointed(left, right) {
        Some(pos) => {
            let moved = seq![PointerEvent::Moved(pos)];
            let button = if clicking && !tracker.prev_clicking {
                seq![PointerEvent::Pressed(pos)]
            } else if !clicking && tracker.prev_clicking {
                seq![PointerEvent::Released(pos)]
            } else {
                Seq::empty()
            };
            let scroll = if crate::vr::size_bits(scroll_of(left, right)) > SCROLL_DEAD_ZONE_BITS {
                seq![PointerEvent::Scroll(scroll_of(left, right))]
            } else {
                Seq::empty()
            };
            moved + button + scroll
        },
        None => if tracker.cursor is Some {
            seq![PointerEvent::Gone]
        } else {
            Seq::empty()
        },
    }
}

impl<P> PointerTracker<P> {
    /// A press that is remembered is one of a button that is held over the panel.
    pub open spec fn wf(self) -> bool {
        self.press is Some ==> self.prev_clicking
    }

    /// The leading controller's button has just been pressed.
    pub open spec fn is_press(
        self,
        left: Option<PanelInput<P>>,
        right: Option<PanelInput<P>>,
    ) -> bool {
        clicks(left, right) && !(if right_leads(right) {
            self.held.1
        } else {
            self.held.0
        })
    }
}

impl<P> PointerTracker<P> {
    /// The press that is remembered after a frame.
    pub open spec fn next_press(
        self,
        left: Option<PanelInput<P>>,
        right: Option<PanelInput<P>>,
    ) -> Option<P> {
        if !clicks(left, right) {
            None
        } else if self.is_press(left, right) {
            pointed(left, right)
        } else {
            self.press
        }
    }

    /// The interaction that ends in a frame.
    pub open spec fn interaction_of(
        self,
        left: Option<PanelInput<P>>,
        right: Option<PanelInput<P>>,
    ) -> Option<(P, P)> {
        match (self.press, pointed(left, right)) {
            (Some(press), Some(release)) => if clicks(left, right) {
                None
            } else {
                Some((press, release))
            },
            _ => None,
        }
    }
}

impl<P: Copy> PointerTracker<P> {
    /// No pointer has been seen.
    pub fn new() -> (r: PointerTracker<P>)
        ensures
            r.wf(),
            r == (PointerTracker {
                cursor: None::<P>,
                prev_clicking: false,
                held: (false, false),
                press: None::<P>,
            }),
    {
        PointerTracker { cursor: None, prev_clicking: false, held: (false, false), press: None }
    }

    /// Takes the controllers of a frame.
    pub fn update(&mut self, left: Option<PanelInput<P>>, right: Option<PanelInput<P>>) -> (r:
        PanelFrame<P>)
        requires
            old(self).wf(),
        ensures
            final(self).wf(),
            r.events@ == events_of(*old(self), left, right),
            final(self).cursor == pointed(left, right),
            final(self).prev_clicking == clicks(left, right),
            final(self).held == (is_held(left), is_held(right)),
            // a press counts where it happens, lasts while the button is held over the panel ...
            final(self).press == old(self).next_press(left, right),
            // ... and ends in an interaction where it is released
            r.interaction == old(self).interaction_of(left, right),
    {
        let mut pos: Option<P> = None;
        let mut clicking = false;
        let mut was_held = false;
        let mut scroll: u32 = 0;
        let mut scroll_size: u32 = 0;
        let mut held: (bool, bool) = (false, false);
        if let Some(c) = left {
            held.0 = c.clicking;
            if c.hit.is_some() {
                pos = c.hit;
                clicking = c.clicking;
                was_held = self.held.0;
            }
            let size: u32 = c.stick_y_bits % 0x8000_0000;
            if size <= 0x7f80_0000 && size > scroll_size {
                scroll = c.stick_y_bits;
                scroll_size = size;
            }
        }
        if let Some(c) = right {
            held.1 = c.clicking;
            if c.hit.is_some() {
                pos = c.hit;
                clicking = c.clicking;
                was_held = self.held.1;
            }
            let size: u32 = c.stick_y_bits % 0x8000_0000;
            if size <= 0x7f80_0000 && size > scroll_size {
                scroll = c.stick_y_bits;
                scroll_size = size;
            }
        }
        assert(pos == pointed(left, right));
        assert(clicking == clicks(left, right));
        assert(scroll == scroll_of(left, right));
        assert(scroll_size == crate::vr::size_bits(scroll));
        let mut events: Vec<PointerEvent<P>> = Vec::new();
        let mut interaction: Option<(P, P)> = None;
        match pos {
            Some(at) => {
                events.push(PointerEvent::Moved(at));
                if clicking && !self.prev_clicking {
                    events.push(PointerEvent::Pressed(at));
                }
                if !clicking && self.prev_clicking {
                    events.push(PointerEvent::Released(at));
                }
                if scroll_size > SCROLL_DEAD_ZONE_BITS {
                    events.push(PointerEvent::Scroll(scroll));
                }
                if !clicking {
                    if let Some(press) = self.press {
                        interaction = Some((press, at));
                    }
                }
            },
            None => {
                if self.cursor.is_some() {
                    events.push(PointerEvent::Gone);
                }
            },
        }
        assert(events@ =~= events_of(*old(self), left, right));
        if !clicking {
            self.press = None;
        } else if !was_held {
            self.press = pos;
        }
        self.cursor = pos;
        self.prev_clicking = clicking;
        self.held = held;
        PanelFrame { events, interaction }
    }
}

// ── laws ────────────────────────────────────────────────────────────────────

/// Moving off the panel cancels a press, and coming back with the button still held does not
/// bring it back: there is no interaction until the button is pressed anew.
pub proof fn law_moving_off_cancels<P>(
    tracker: PointerTracker<P>,
    left: Option<PanelInput<P>>,
    right: Option<PanelInput<P>>,
)
    ensures
        pointed(left, right) is None ==> tracker.next_press(left, right) is None
            && tracker.interaction_of(left, right) is None,
        tracker.press is None && !tracker.is_press(left, right) ==> tracker.next_press(
            left,
            right,
        ) is None && tracker.interaction_of(left, right) is None,
{
}

/// While the button stays held over the panel the press stays where it was, wherever the pointer
/// moves; its release gives that place and the place of the release.
pub proof fn law_press_is_not_stolen<P>(
    tracker: PointerTracker<P>,
    left: Option<PanelInput<P>>,
    right: Option<PanelInput<P>>,
    place: P,
)
    requires
        tracker.press == Some(place),
    ensures
        clicks(left, right) && !tracker.is_press(left, right) ==> tracker.next_press(left, right)
            == Some(place),
        !clicks(left, right) && pointed(left, right) is Some ==> tracker.interaction_of(left, right)
            == Some((place, pointed(left, right)->0)),
{
}

/// The right controller leads where it points at the panel, and the left one where only it does.
pub proof fn law_which_controller_leads<P>(left: Option<PanelInput<P>>, right: Option<PanelInput<P>>)
    ensures
        right is Some && right->0.hit is Some ==> pointed(left, right) == right->0.hit && clicks(
            left,
            right,
        ) == right->0.clicking,
        (right is None || right->0.hit is None) && left is Some && left->0.hit is Some ==> pointed(
            left,
            right,
        ) == left->0.hit && clicks(left, right) == left->0.clicking,
        (right is None || right->0.hit is None) && (left is None || left->0.hit is None) ==> pointed(
            left,
            right,
        ) is None && !clicks(left, right),
{
}

/// The widgets are told where the pointer is in every frame that has one, of a press and of a
/// release when they happen, and once when the pointer is gone.
pub proof fn law_widgets_are_told_of_the_pointer<P>(
    tracker: PointerTracker<P>,
    left: Option<PanelInput<P>>,
    right: Option<PanelInput<P>>,
    i: int,
)
    requires
        0 <= i,
    ensures
        ({
            let events = events_of(tracker, left, right);
            let place = pointed(left, right);
            let now = clicks(left, right);
            &&& place matches Some(at) ==> {
                &&& events.len() > 0 && events[0] == PointerEvent::Moved(at)
                &&& now && !tracker.prev_clicking <==> events.contains(PointerEvent::Pressed(at))
                &&& !now && tracker.prev_clicking <==> events.contains(PointerEvent::Released(at))
                &&& 0 < i < events.len() ==> !(events[i] is Moved) && !(events[i] is Gone)
            }
            &&& place is None ==> events == if tracker.cursor is Some {
                seq![PointerEvent::<P>::Gone]
            } else {
                seq![]
            }
        }),
{
    let events = events_of(tracker, left, right);
    let now = clicks(left, right);
    if let Some(at) = pointed(left, right) {
        if now && !tracker.prev_clicking {
            assert(events[1] == PointerEvent::Pressed(at));
        }
        if !now && tracker.prev_clicking {
            assert(events[1] == PointerEvent::Released(at));
        }
    }
}

/// The stick scrolls where it is pushed by more than a twentieth of its way while the pointer is on
/// the panel, by the deflection of the stick that is pushed farther.
pub proof fn law_stick_scrolls<P>(
    tracker: PointerTracker<P>,
    left: Option<PanelInput<P>>,
    right: Option<PanelInput<P>>,
    bits: u32,
)
    ensures
        events_of(tracker, left, right).contains(PointerEvent::<P>::Scroll(bits)) <==> pointed(
            left,
            right,
        ) is Some && bits == scroll_of(left, right) && crate::vr::size_bits(bits) > 0x3d4c_cccd,
{
    let events = events_of(tracker, left, right);
    if pointed(left, right) is Some && crate::vr::size_bits(scroll_of(left, right)) > 0x3d4c_cccd {
        assert(events[events.len() - 1] == PointerEvent::<P>::Scroll(scroll_of(left, right)));
    }
}

/// Of two sticks the one that is pushed farther scrolls, the left one where they are pushed alike;
/// a stick whose deflection is no number does not count.
pub proof fn law_farther_stick_scrolls<P>(l: PanelInput<P>, r: PanelInput<P>)
    requires
        crate::vr::is_number(l.stick_y_bits),
        crate::vr::is_number(r.stick_y_bits),
    ensures
        crate::vr::size_bits(r.stick_y_bits) > crate::vr::size_bits(l.stick_y_bits) ==> scroll_of(
            Some(l),
            Some(r),
        ) == r.stick_y_bits,
        crate::vr::size_bits(r.stick_y_bits) <= crate::vr::size_bits(l.stick_y_bits)
            && crate::vr::size_bits(l.stick_y_bits) > 0 ==> scroll_of(Some(l), Some(r))
            == l.stick_y_bits,
        crate::vr::size_bits(l.stick_y_bits) > 0 ==> scroll_of(Some(l), None) == l.stick_y_bits,
        crate::vr::size_bits(r.stick_y_bits) > 0 ==> scroll_of(None, Some(r)) == r.stick_y_bits,
        scroll_of::<P>(None, None) == 0,
{
}

/// A press is where the pointer was when the leading button went down, and an interaction needs
/// such a press: a release without one means nothing.
pub proof fn law_interactions_begin_with_a_press<P>(
    tracker: PointerTracker<P>,
    left: Option<PanelInput<P>>,
    right: Option<PanelInput<P>>,
)
    ensures
        tracker.is_press(left, right) ==> tracker.next_press(left, right) == pointed(left, right)
            && tracker.next_press(left, right) is Some,
        tracker.press is None ==> tracker.interaction_of(left, right) is None,
        clicks(left, right) ==> tracker.interaction_of(left, right) is None,
        !clicks(left, right) ==> tracker.next_press(left, right) is None,
        tracker.is_press(left, right) <==> clicks(left, right) && if right is Some && right->0.hit
            is Some {
            !tracker.held.1
        } else {
            !tracker.held.0
        },
{
}

} // verus!

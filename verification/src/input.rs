//! The controllers' buttons and how they are bound.

use vstd::prelude::*;

verus! {

/// What a button or stick does.
#[derive(Clone, Copy, PartialEq, Eq, Structural, Debug)]
pub enum InputAction {
    /// Where the controller points.
    Pose,
    /// Selects.
    Click,
    Thumbstick,
    /// Shows or hides the panel.
    Menu,
    /// Turns the video to where the user looks.
    Grip,
}

/// A kind of controllers.
#[derive(Clone, Copy, PartialEq, Eq, Structural, Debug)]
pub enum Profile {
    /// Oculus / Meta Touch controllers.
    Touch,
    /// The generic fallback.
    Simple,
}

/// The path of a profile.
pub fn profile_path(profile: Profile) -> (r: &'static str)
    ensures
        r@ == match profile {
            Profile::Touch => "/interaction_profiles/oculus/touch_controller"@,
            Profile::Simple => "/interaction_profiles/khr/simple_controller"@,
        },
{
    match profile {
        Profile::Touch => "/interaction_profiles/oculus/touch_controller",
        Profile::Simple => "/interaction_profiles/khr/simple_controller",
    }
}

/// What an action is bound to on the left controller; the simple controllers have no sticks, no
/// menu button and no grip.
pub open spec fn left_path(profile: Profile, action: InputAction) -> Option<Seq<char>> {
    match (profile, action) {
        (_, InputAction::Pose) => Some("/user/hand/left/input/aim/pose"@),
        (Profile::Touch, InputAction::Click) => Some("/user/hand/left/input/x/click"@),
        (Profile::Touch, InputAction::Thumbstick) => Some("/user/hand/left/input/thumbstick"@),
        (Profile::Touch, InputAction::Menu) => Some("/user/hand/left/input/y/click"@),
        (Profile::Touch, InputAction::Grip) => Some("/user/hand/left/input/squeeze/value"@),
        (Profile::Simple, InputAction::Click) => Some("/user/hand/left/input/select/click"@),
        (Profile::Simple, _) => None,
    }
}

/// What an action is bound to on the right controller.
pub open spec fn right_path(profile: Profile, action: InputAction) -> Option<Seq<char>> {
    match (profile, action) {
        (_, InputAction::Pose) => Some("/user/hand/right/input/aim/pose"@),
        (Profile::Touch, InputAction::Click) => Some("/user/hand/right/input/a/click"@),
        (Profile::Touch, InputAction::Thumbstick) => Some("/user/hand/right/input/thumbstick"@),
        (Profile::Touch, InputAction::Menu) => Some("/user/hand/right/input/b/click"@),
        (Profile::Touch, InputAction::Grip) => Some("/user/hand/right/input/squeeze/value"@),
        (Profile::Simple, InputAction::Click) => Some("/user/hand/right/input/select/click"@),
        (Profile::Simple, _) => None,
    }
}

/// What an action is bound to on the left and on the right controller.
pub fn binding(profile: Profile, action: InputAction) -> (r: Option<
    (&'static str, &'static str),
>)
    ensures
        match r {
            Some((left, right)) => left_path(profile, action) == Some(left@) && right_path(
                profile,
                action,
            ) == Some(right@),
            None => left_path(profile, action) is None && right_path(profile, action) is None,
        },
{
    match (profile, action) {
        (_, InputAction::Pose) => Some(
            ("/user/hand/left/input/aim/pose", "/user/hand/right/input/aim/pose"),
        ),
        (Profile::Touch, InputAction::Click) => Some(
            ("/user/hand/left/input/x/click", "/user/hand/right/input/a/click"),
        ),
        (Profile::Touch, InputAction::Thumbstick) => Some(
            ("/user/hand/left/input/thumbstick", "/user/hand/right/input/thumbstick"),
        ),
        (Profile::Touch, InputAction::Menu) => Some(
            ("/user/hand/left/input/y/click", "/user/hand/right/input/b/click"),
        ),
        (Profile::Touch, InputAction::Grip) => Some(
            ("/user/hand/left/input/squeeze/value", "/user/hand/right/input/squeeze/value"),
        ),
        (Profile::Simple, InputAction::Click) => Some(
            ("/user/hand/left/input/select/click", "/user/hand/right/input/select/click"),
        ),
        (Profile::Simple, _) => None,
    }
}

/// Whether a button counts as pressed: its state is known, it is in use, and it is down.
/// `state` holds whether it is down and whether it is in use.
pub fn is_pressed(state: Option<(bool, bool)>) -> (r: bool)
    ensures
        r <==> state == Some((true, true)),
{
    match state {
        Some((down, active)) => down && active,
        None => false,
    }
}

/// The deflection of a stick: at rest where its state is not known or it is not in use. `state`
/// holds the deflection, as two bit patterns, and whether it is in use.
pub fn stick(state: Option<((u32, u32), bool)>) -> (r: (u32, u32))
    ensures
        r == match state {
            Some((xy, true)) => xy,
            _ => (0u32, 0u32),
        },
{
    match state {
        Some((xy, active)) => if active {
            xy
        } else {
            (0, 0)
        },
        None => (0, 0),
    }
}

// ── laws ────────────────────────────────────────────────────────────────────

/// Both hands have the same actions: all of them on touch controllers, pointing and selecting on
/// simple ones.
pub proof fn law_both_hands_are_bound(profile: Profile, action: InputAction)
    ensures
        left_path(profile, action) is Some <==> right_path(profile, action) is Some,
        left_path(Profile::Touch, action) is Some,
        left_path(Profile::Simple, action) is Some <==> action == InputAction::Pose || action
            == InputAction::Click,
{
}

/// A and X select, B and Y show and hide the panel, the grip turns the video.
pub proof fn law_buttons_of_touch_controllers()
    ensures
        left_path(Profile::Touch, InputAction::Click) == Some("/user/hand/left/input/x/click"@),
        right_path(Profile::Touch, InputAction::Click) == Some("/user/hand/right/input/a/click"@),
        left_path(Profile::Touch, InputAction::Menu) == Some("/user/hand/left/input/y/click"@),
        right_path(Profile::Touch, InputAction::Menu) == Some("/user/hand/right/input/b/click"@),
        left_path(Profile::Touch, InputAction::Grip) == Some(
            "/user/hand/left/input/squeeze/value"@,
        ),
        right_path(Profile::Touch, InputAction::Grip) == Some(
            "/user/hand/right/input/squeeze/value"@,
        ),
        left_path(Profile::Touch, InputAction::Thumbstick) == Some(
            "/user/hand/left/input/thumbstick"@,
        ),
        right_path(Profile::Touch, InputAction::Thumbstick) == Some(
            "/user/hand/right/input/thumbstick"@,
        ),
        left_path(Profile::Simple, InputAction::Click) == Some(
            "/user/hand/left/input/select/click"@,
        ),
        right_path(Profile::Simple, InputAction::Click) == Some(
            "/user/hand/right/input/select/click"@,
        ),
{
}

} // verus!

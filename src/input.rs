use vstd::prelude::*;

verus! {

/// The keys the camera reacts to; every other key is `Other`.
#[derive(Clone, Copy, Debug, PartialEq, Eq, Structural)]
pub enum Key {
    A,
    D,
    W,
    S,
    Left,
    Right,
    Up,
    Down,
    Other,
}

/// What is asked of the camera in one update: each action is active or not.
#[derive(Clone, Copy, Debug, PartialEq, Eq, Structural)]
pub struct Actions {
    pub strafe_left: bool,
    pub strafe_right: bool,
    pub move_forward: bool,
    pub move_backward: bool,
    pub yaw_decrease: bool,
    pub yaw_increase: bool,
    pub pitch_decrease: bool,
    pub pitch_increase: bool,
}

pub open spec fn no_actions() -> Actions {
    Actions {
        strafe_left: false,
        strafe_right: false,
        move_forward: false,
        move_backward: false,
        yaw_decrease: false,
        yaw_increase: false,
        pitch_decrease: false,
        pitch_increase: false,
    }
}

/// The single action that a key press stands for: A strafes left, D right,
/// W moves forward, S backward; Left and Right turn the yaw down and up,
/// Up and Down turn the pitch down and up. Other keys, and no key, ask
/// nothing.
pub open spec fn actions_of_key(key: Option<Key>) -> Actions {
    match key {
        Some(Key::A) => Actions { strafe_left: true, ..no_actions() },
        Some(Key::D) => Actions { strafe_right: true, ..no_actions() },
        Some(Key::W) => Actions { move_forward: true, ..no_actions() },
        Some(Key::S) => Actions { move_backward: true, ..no_actions() },
        Some(Key::Left) => Actions { yaw_decrease: true, ..no_actions() },
        Some(Key::Right) => Actions { yaw_increase: true, ..no_actions() },
        Some(Key::Up) => Actions { pitch_decrease: true, ..no_actions() },
        Some(Key::Down) => Actions { pitch_increase: true, ..no_actions() },
        _ => no_actions(),
    }
}

pub open spec fn signed(minus: bool, plus: bool) -> int {
    (if plus { 1int } else { 0int }) - (if minus { 1int } else { 0int })
}

impl Actions {
    /// How many times `right` goes into the movement: -1, 0 or 1.
    pub open spec fn right_factor(&self) -> int {
        signed(self.strafe_left, self.strafe_right)
    }

    /// How many times `forward` goes into the movement: -1, 0 or 1.
    pub open spec fn forward_factor(&self) -> int {
        signed(self.move_backward, self.move_forward)
    }

    /// The sign of the yaw change: -1, 0 or 1.
    pub open spec fn yaw_factor(&self) -> int {
        signed(self.yaw_decrease, self.yaw_increase)
    }

    /// The sign of the pitch change: -1, 0 or 1.
    pub open spec fn pitch_factor(&self) -> int {
        signed(self.pitch_decrease, self.pitch_increase)
    }

    /// No action at all.
    pub fn none() -> (r: Actions)
        ensures
            r == no_actions(),
    {
        Actions {
            strafe_left: false,
            strafe_right: false,
            move_forward: false,
            move_backward: false,
            yaw_decrease: false,
            yaw_increase: false,
            pitch_decrease: false,
            pitch_increase: false,
        }
    }

    /// The actions that a press of `key` asks for.
    pub fn from_key(key: Option<Key>) -> (r: Actions)
        ensures
            r == actions_of_key(key),
    {
        let none = Actions::none();
        match key {
            Some(Key::A) => Actions { strafe_left: true, ..none },
            Some(Key::D) => Actions { strafe_right: true, ..none },
            Some(Key::W) => Actions { move_forward: true, ..none },
            Some(Key::S) => Actions { move_backward: true, ..none },
            Some(Key::Left) => Actions { yaw_decrease: true, ..none },
            Some(Key::Right) => Actions { yaw_increase: true, ..none },
            Some(Key::Up) => Actions { pitch_decrease: true, ..none },
            Some(Key::Down) => Actions { pitch_increase: true, ..none },
            _ => none,
        }
    }
}

/// The sign of an action pair as a machine integer.
pub fn signed_exec(minus: bool, plus: bool) -> (r: i8)
    ensures
        r == signed(minus, plus),
{
    let p: i8 = if plus { 1 } else { 0 };
    let m: i8 = if minus { 1 } else { 0 };
    p - m
}

} // verus!

//! What an avatar does next: the rules of its random walk.

use rand::Rng;
use vstd::prelude::*;

verus! {

/// What an avatar is doing.
#[derive(Clone, Copy, Debug, PartialEq, Eq, Structural)]
pub enum UserAction {
    MoveLeft,
    MoveRight,
    Stop,
    Bark,
}

/// The action that a roll of the die picks. A roll of zero walks left and a
/// roll of one walks right, unless the avatar is close to that edge: then it
/// turns away from the edge. Every other roll stops.
pub open spec fn picked_action(roll: u32, near_left: bool, near_right: bool) -> UserAction {
    if roll == 0 {
        if near_left {
            UserAction::MoveRight
        } else {
            UserAction::MoveLeft
        }
    } else if roll == 1 {
        if near_right {
            UserAction::MoveLeft
        } else {
            UserAction::MoveRight
        }
    } else {
        UserAction::Stop
    }
}

/// How long an action lasts before the next one is picked: standing still
/// lasts the waiting time, everything else the action time.
pub open spec fn hold_of(action: UserAction, wait: u64, act: u64) -> u64 {
    if action == UserAction::Stop {
        wait
    } else {
        act
    }
}

/// The direction in which an action moves the avatar: -1 to the left, 1 to
/// the right, 0 not at all.
pub open spec fn direction_of(action: UserAction) -> int {
    match action {
        UserAction::MoveLeft => -1,
        UserAction::MoveRight => 1,
        _ => 0,
    }
}

/// Calls `Rng::gen_range` on `rand::thread_rng()` with the range `0..3`.
/// Trusted: the number lies in that range. Which number comes is chance.
#[verifier::external_body]
fn roll_die() -> (r: u32)
    ensures
        r < 3,
{
    rand::thread_rng().gen_range(0..3)
}

impl UserAction {
    /// The action that a roll of the die picks.
    pub fn pick(roll: u32, near_left: bool, near_right: bool) -> (r: UserAction)
        ensures
            r == picked_action(roll, near_left, near_right),
    {
        if roll == 0 {
            if near_left {
                UserAction::MoveRight
            } else {
                UserAction::MoveLeft
            }
        } else if roll == 1 {
            if near_right {
                UserAction::MoveLeft
            } else {
                UserAction::MoveRight
            }
        } else {
            UserAction::Stop
        }
    }

    /// Rolls the die and picks the next action. Whatever the roll, an avatar
    /// close to one edge only does not walk towards that edge.
    pub fn pick_random(near_left: bool, near_right: bool) -> (r: UserAction)
        ensures
            exists|roll: u32| roll < 3 && r == picked_action(roll, near_left, near_right),
            near_left && !near_right ==> r != UserAction::MoveLeft,
            near_right && !near_left ==> r != UserAction::MoveRight,
    {
        let roll = roll_die();
        UserAction::pick(roll, near_left, near_right)
    }

    /// How long this action lasts before the next one is picked.
    pub fn hold(&self, wait: u64, act: u64) -> (r: u64)
        ensures
            r == hold_of(*self, wait, act),
    {
        match self {
            UserAction::Stop => wait,
            _ => act,
        }
    }

    /// The direction in which this action moves the avatar.
    pub fn direction(&self) -> (r: i8)
        ensures
            r == direction_of(*self),
    {
        match self {
            UserAction::MoveLeft => -1,
            UserAction::MoveRight => 1,
            _ => 0,
        }
    }
}

} // verus!

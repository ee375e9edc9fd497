//! The player's input states: idle, interacting, observing, moving.
use vstd::prelude::*;

verus! {

/// The keys read in one frame: `up`, `left`, `down`, `right` held;
/// `interact` and `observe` pressed or released this frame.
#[derive(Clone, Copy, Debug, Default, PartialEq, Eq, Structural)]
pub struct PlayerKeys {
    pub up: bool,
    pub left: bool,
    pub down: bool,
    pub right: bool,
    pub interact_pressed: bool,
    pub interact_released: bool,
    pub observe_pressed: bool,
    pub observe_released: bool,
}

/// What the player is doing. A move carries its direction as steps of
/// -1, 0 or 1 along x and y, not both 0; the host scales it to unit
/// length.
#[derive(Clone, Copy, Debug, PartialEq, Eq, Structural)]
pub enum PlayerState {
    Idle,
    Interact,
    Observe,
    Move(i8, i8),
}

/// A held key as a step.
pub open spec fn step(on: bool) -> int {
    if on {
        1
    } else {
        0
    }
}

/// The direction the held keys ask for: right minus left, up minus down.
pub open spec fn movement_of(k: PlayerKeys) -> (int, int) {
    (step(k.right) - step(k.left), step(k.up) - step(k.down))
}

/// The state after `s` when the frame's keys are `k`. Idle: interact
/// wins, then observe, then moving. Interacting or observing lasts until
/// its key is released. Moving: interact wins, then moving on, else idle.
pub open spec fn next_state_of(s: PlayerState, k: PlayerKeys) -> PlayerState {
    let (dx, dy) = movement_of(k);
    let moving = dx != 0 || dy != 0;
    match s {
        PlayerState::Idle => if k.interact_pressed {
            PlayerState::Interact
        } else if k.observe_pressed {
            PlayerState::Observe
        } else if moving {
            PlayerState::Move(dx as i8, dy as i8)
        } else {
            PlayerState::Idle
        },
        PlayerState::Interact => if k.interact_released {
            PlayerState::Idle
        } else {
            PlayerState::Interact
        },
        PlayerState::Observe => if k.observe_released {
            PlayerState::Idle
        } else {
            PlayerState::Observe
        },
        PlayerState::Move(_, _) => if k.interact_pressed {
            PlayerState::Interact
        } else if moving {
            PlayerState::Move(dx as i8, dy as i8)
        } else {
            PlayerState::Idle
        },
    }
}

/// The direction the held keys ask for.
pub fn movement(k: &PlayerKeys) -> (r: (i8, i8))
    ensures
        (r.0 as int, r.1 as int) == movement_of(*k),
{
    let mut dx: i8 = 0;
    let mut dy: i8 = 0;
    if k.up {
        dy = dy + 1;
    }
    if k.left {
        dx = dx - 1;
    }
    if k.down {
        dy = dy - 1;
    }
    if k.right {
        dx = dx + 1;
    }
    (dx, dy)
}

impl PlayerState {
    /// The state that follows this one under the frame's keys.
    pub fn next(&self, k: &PlayerKeys) -> (r: PlayerState)
        ensures
            r == next_state_of(*self, *k),
    {
        let (dx, dy) = movement(k);
        let moving = dx != 0 || dy != 0;
        match *self {
            PlayerState::Idle => if k.interact_pressed {
                PlayerState::Interact
            } else if k.observe_pressed {
                PlayerState::Observe
            } else if moving {
                PlayerState::Move(dx, dy)
            } else {
                PlayerState::Idle
            },
            PlayerState::Interact => if k.interact_released {
                PlayerState::Idle
            } else {
                PlayerState::Interact
            },
            PlayerState::Observe => if k.observe_released {
                PlayerState::Idle
            } else {
                PlayerState::Observe
            },
            PlayerState::Move(_, _) => if k.interact_pressed {
                PlayerState::Interact
            } else if moving {
                PlayerState::Move(dx, dy)
            } else {
                PlayerState::Idle
            },
        }
    }
}

/// A moving state always has a direction other than standing still.
pub proof fn lemma_moves_somewhere(s: PlayerState, k: PlayerKeys)
    ensures
        next_state_of(s, k) matches PlayerState::Move(dx, dy) ==> (dx != 0 || dy != 0) && -1 <= dx
            <= 1 && -1 <= dy <= 1,
{
}

} // verus!

use vstd::prelude::*;

use crate::actor::{next_height, next_jumping};
use crate::frame::rows_of;
use crate::game::{next_offset, tick_due, Game};

verus! {

/// A key press that the game reacts to.
#[derive(Clone, Copy, Debug, PartialEq, Eq, Structural)]
pub enum Input {
    Jump,
    Quit,
}

/// What the loop does after one iteration.
#[derive(Clone, Copy, Debug, PartialEq, Eq, Structural)]
pub enum Status {
    /// Show the frame and go on.
    Running,
    /// Show the frame, then the final score, and stop.
    GameOver,
    /// Stop at once.
    Quit,
}

/// Jump flag once `input` has been applied.
pub open spec fn jumping_after_input(g: Game, input: Option<Input>) -> bool {
    if input == Some(Input::Jump) {
        g.jumping || g.plane_y == 0
    } else {
        g.jumping
    }
}

impl Game {
    /// One iteration of the game loop: a quit stops at once; otherwise a
    /// jump request is applied, the clock-gated tick runs, the frame is
    /// redrawn and the collision check decides whether the game is over.
    pub fn step(&mut self, input: Option<Input>, now: u64) -> (s: Status)
        requires
            old(self).wf(),
        ensures
            final(self).wf(),
            input == Some(Input::Quit) ==> s == Status::Quit && *final(self) == *old(self),
            input != Some(Input::Quit) ==> s == (if final(self).collides() {
                Status::GameOver
            } else {
                Status::Running
            }),
            input != Some(Input::Quit) ==> rows_of(final(self).buffer@)
                == final(self).view_frame(),
            input != Some(Input::Quit) && tick_due(old(self).last_update, now) ==> {
                let j = jumping_after_input(*old(self), input);
                &&& final(self).last_update == now
                &&& final(self).plane_y == next_height(old(self).plane_y as nat, j)
                &&& final(self).jumping == next_jumping(old(self).plane_y as nat, j)
                &&& final(self).ground_offset == next_offset(old(self).ground_offset as nat)
                &&& final(self).score == (if old(self).score < u32::MAX {
                    old(self).score + 1
                } else {
                    old(self).score as int
                })
            },
            input != Some(Input::Quit) && !tick_due(old(self).last_update, now) ==> {
                &&& final(self).last_update == old(self).last_update
                &&& final(self).plane_y == old(self).plane_y
                &&& final(self).jumping == jumping_after_input(*old(self), input)
                &&& final(self).ground_offset == old(self).ground_offset
                &&& final(self).score == old(self).score
                &&& final(self).obstacles == old(self).obstacles
            },
    {
        match input {
            Some(Input::Quit) => {
                return Status::Quit;
            },
            Some(Input::Jump) => {
                self.request_jump();
            },
            None => {},
        }
        self.update(now);
        self.draw();
        if self.is_collision() {
            Status::GameOver
        } else {
            Status::Running
        }
    }
}

} // verus!

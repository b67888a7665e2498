use vstd::prelude::*;

use crate::config::JUMP_HEIGHT;

verus! {

/// Height of the plane after one tick: one unit up while jumping (never
/// above the apex), one unit down while falling, resting on the ground.
pub open spec fn next_height(h: nat, jumping: bool) -> nat {
    if jumping {
        if h + 1 >= JUMP_HEIGHT {
            JUMP_HEIGHT as nat
        } else {
            h + 1
        }
    } else if h > 0 {
        (h - 1) as nat
    } else {
        0
    }
}

/// Jump flag after one tick: the ascent ends once the apex is reached.
pub open spec fn next_jumping(h: nat, jumping: bool) -> bool {
    jumping && next_height(h, jumping) < JUMP_HEIGHT
}

/// Height and jump flag after `n` ticks without any new jump request.
pub open spec fn run_actor(h: nat, jumping: bool, n: nat) -> (nat, bool)
    decreases n,
{
    if n == 0 {
        (h, jumping)
    } else {
        let prev = run_actor(h, jumping, (n - 1) as nat);
        (next_height(prev.0, prev.1), next_jumping(prev.0, prev.1))
    }
}

/// The height never leaves `0..=JUMP_HEIGHT`, whatever the number of ticks.
pub proof fn lemma_height_bounded(h: nat, jumping: bool, n: nat)
    requires
        h <= JUMP_HEIGHT,
    ensures
        run_actor(h, jumping, n).0 <= JUMP_HEIGHT,
    decreases n,
{
    if n > 0 {
        lemma_height_bounded(h, jumping, (n - 1) as nat);
    }
}

proof fn lemma_trajectory(n: nat)
    requires
        n <= 2 * JUMP_HEIGHT,
    ensures
        run_actor(0, true, n).0 == (if n <= JUMP_HEIGHT {
            n as int
        } else {
            2 * JUMP_HEIGHT - n
        }),
        run_actor(0, true, n).1 == (n < JUMP_HEIGHT),
    decreases n,
{
    if n > 0 {
        lemma_trajectory((n - 1) as nat);
    }
}

/// A jump started on the ground lands after exactly `2 * JUMP_HEIGHT` ticks:
/// the plane is in the air at every tick before, and grounded and no longer
/// jumping at that tick.
pub proof fn lemma_jump_round_trip()
    ensures
        forall|n: nat|
            0 < n < 2 * JUMP_HEIGHT ==> #[trigger] run_actor(0, true, n).0 > 0,
        run_actor(0, true, (2 * JUMP_HEIGHT) as nat) == (0nat, false),
{
    assert forall|n: nat| 0 < n < 2 * JUMP_HEIGHT implies #[trigger] run_actor(0, true, n).0 > 0 by {
        lemma_trajectory(n);
    }
    lemma_trajectory((2 * JUMP_HEIGHT) as nat);
}

} // verus!

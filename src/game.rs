use vstd::prelude::*;
use vstd::arithmetic::div_mod::{lemma_add_mod_noop, lemma_mod_add_multiples_vanish};

use crate::actor::{next_height, next_jumping};
use crate::chance::{choose_glyph, gen_ratio};
use crate::config::{
    building_glyphs, buildings, GAME_HEIGHT, GAME_SPEED, GAME_WIDTH, JUMP_HEIGHT, PLANE_COLUMN,
    SPAWN_DENOMINATOR, SPAWN_NUMERATOR,
};
use crate::frame::{blank_line, blank_row, compose_frame, frame, frame_cell, rows_of};
use crate::obstacles::{
    any_at, lemma_tick_keeps_obstacle_order, lemma_shift_clears_edge, obstacles_after, occupied,
    on_screen, shift_obstacles, Obstacle,
};

verus! {

/// Ground offset after one tick: one column to the left, wrapping around.
pub open spec fn next_offset(offset: nat) -> nat {
    ((offset + GAME_WIDTH - 1) % (GAME_WIDTH as int)) as nat
}

/// Ground offset after `n` ticks.
pub open spec fn run_scroll(offset: nat, n: nat) -> nat
    decreases n,
{
    if n == 0 {
        offset
    } else {
        next_offset(run_scroll(offset, (n - 1) as nat))
    }
}

proof fn lemma_scroll_closed_form(offset: nat, n: nat)
    requires
        offset < GAME_WIDTH,
    ensures
        run_scroll(offset, n) == (offset - n) % (GAME_WIDTH as int),
    decreases n,
{
    let w = GAME_WIDTH as int;
    if n > 0 {
        lemma_scroll_closed_form(offset, (n - 1) as nat);
        let a = offset - n + 1;
        lemma_add_mod_noop(a, w - 1, w);
        lemma_mod_add_multiples_vanish(offset - n, w);
        assert((w - 1) % w == w - 1);
    } else {
        assert((offset as int) % w == offset);
    }
}

/// The ground scrolls through every offset and is back where it started
/// after `GAME_WIDTH` ticks.
pub proof fn lemma_ground_cycle(offset: nat)
    requires
        offset < GAME_WIDTH,
    ensures
        forall|n: nat| #[trigger] run_scroll(offset, n) < GAME_WIDTH,
        run_scroll(offset, GAME_WIDTH as nat) == offset,
{
    assert forall|n: nat| #[trigger] run_scroll(offset, n) < GAME_WIDTH by {
        lemma_scroll_closed_form(offset, n);
    }
    lemma_scroll_closed_form(offset, GAME_WIDTH as nat);
    lemma_mod_add_multiples_vanish(offset - GAME_WIDTH, GAME_WIDTH as int);
    assert((offset as int) % (GAME_WIDTH as int) == offset);
}

/// Whether a tick is due at time `now`, the last one having been at `last`
/// (both in milliseconds).
pub open spec fn tick_due(last: u64, now: u64) -> bool {
    now >= last && now - last >= GAME_SPEED
}

/// The state of one running game.
#[derive(Clone, Debug, PartialEq, Eq)]
pub struct Game {
    /// Height of the plane above the ground.
    pub plane_y: usize,
    /// Whether the plane is still climbing.
    pub jumping: bool,
    /// Live buildings, oldest first.
    pub obstacles: Vec<Obstacle>,
    /// Ticks survived.
    pub score: u32,
    /// Time of the last tick, in milliseconds.
    pub last_update: u64,
    /// The frame drawn last.
    pub buffer: Vec<Vec<char>>,
    /// Scroll position of the ground.
    pub ground_offset: usize,
}

impl Game {
    /// The plane stays within its jump range, the ground offset within the
    /// width, and every building on a column of the frame.
    pub open spec fn wf(&self) -> bool {
        &&& self.plane_y <= JUMP_HEIGHT
        &&& self.ground_offset < GAME_WIDTH
        &&& on_screen(self.obstacles@)
    }

    /// The frame of this state.
    pub open spec fn view_frame(&self) -> Seq<Seq<char>> {
        frame(self.plane_y as nat, self.obstacles@)
    }

    /// The plane is on the ground and a building stands on its column.
    pub open spec fn collides(&self) -> bool {
        self.plane_y == 0 && occupied(self.obstacles@, PLANE_COLUMN as int)
    }

    /// Whether `wf` holds, for callers outside verified code.
    pub fn is_well_formed(&self) -> (r: bool)
        ensures
            r == self.wf(),
    {
        if self.plane_y > JUMP_HEIGHT || self.ground_offset >= GAME_WIDTH {
            return false;
        }
        let mut i: usize = 0;
        while i < self.obstacles.len()
            invariant
                i <= self.obstacles@.len(),
                forall|k: int| 0 <= k < i ==> #[trigger] self.obstacles@[k].x < GAME_WIDTH,
            decreases self.obstacles.len() - i,
        {
            if self.obstacles[i].x >= GAME_WIDTH {
                return false;
            }
            i = i + 1;
        }
        true
    }

    /// A grounded plane with no buildings, a blank frame, and `now` as the
    /// time of the last tick.
    pub fn new(now: u64) -> (g: Game)
        ensures
            g.wf(),
            g.plane_y == 0,
            !g.jumping,
            g.obstacles@.len() == 0,
            g.score == 0,
            g.last_update == now,
            g.ground_offset == 0,
            rows_of(g.buffer@) == Seq::new(GAME_HEIGHT as nat, |r: int| blank_line()),
    {
        let mut buffer: Vec<Vec<char>> = Vec::new();
        let mut r: usize = 0;
        while r < GAME_HEIGHT
            invariant
                r <= GAME_HEIGHT,
                buffer@.len() == r,
                forall|i: int| 0 <= i < r ==> (#[trigger] buffer@[i])@ == blank_line(),
            decreases GAME_HEIGHT - r,
        {
            let row = blank_row();
            buffer.push(row);
            assert forall|i: int| 0 <= i < r + 1 implies (#[trigger] buffer@[i])@ == blank_line() by {
                if i == r {
                    assert(buffer@[i] == row);
                }
            }
            r = r + 1;
        }
        assert(rows_of(buffer@) =~= Seq::new(GAME_HEIGHT as nat, |r: int| blank_line()));
        Game {
            plane_y: 0,
            jumping: false,
            obstacles: Vec::new(),
            score: 0,
            last_update: now,
            buffer,
            ground_offset: 0,
        }
    }

    /// Starts a jump if the plane rests on the ground; does nothing otherwise.
    pub fn request_jump(&mut self)
        ensures
            final(self).jumping == (old(self).jumping || old(self).plane_y == 0),
            final(self).plane_y == old(self).plane_y,
            final(self).obstacles == old(self).obstacles,
            final(self).score == old(self).score,
            final(self).last_update == old(self).last_update,
            final(self).buffer == old(self).buffer,
            final(self).ground_offset == old(self).ground_offset,
            old(self).plane_y > 0 ==> *final(self) == *old(self),
            old(self).jumping ==> *final(self) == *old(self),
    {
        if !self.jumping && self.plane_y == 0 {
            self.jumping = true;
        }
    }

    /// Records `now` as the time of the last tick and returns true when at
    /// least `GAME_SPEED` milliseconds have passed since the last one;
    /// returns false and changes nothing otherwise.
    pub fn should_advance(&mut self, now: u64) -> (due: bool)
        ensures
            due == tick_due(old(self).last_update, now),
            due ==> final(self).last_update == now,
            due ==> final(self).plane_y == old(self).plane_y && final(self).jumping == old(
                self,
            ).jumping && final(self).obstacles == old(self).obstacles && final(self).score == old(
                self,
            ).score && final(self).buffer == old(self).buffer && final(self).ground_offset == old(
                self,
            ).ground_offset,
            !due ==> *final(self) == *old(self),
    {
        if now >= self.last_update && now - self.last_update >= GAME_SPEED {
            self.last_update = now;
            true
        } else {
            false
        }
    }

    /// Moves the plane one tick along its trajectory: up while jumping, with
    /// the ascent ending at `JUMP_HEIGHT`, down otherwise until grounded.
    pub fn advance_actor(&mut self)
        ensures
            final(self).plane_y == next_height(old(self).plane_y as nat, old(self).jumping),
            final(self).jumping == next_jumping(old(self).plane_y as nat, old(self).jumping),
            old(self).plane_y <= JUMP_HEIGHT ==> final(self).plane_y <= JUMP_HEIGHT,
            final(self).obstacles == old(self).obstacles,
            final(self).score == old(self).score,
            final(self).last_update == old(self).last_update,
            final(self).buffer == old(self).buffer,
            final(self).ground_offset == old(self).ground_offset,
    {
        if self.jumping {
            if self.plane_y >= JUMP_HEIGHT - 1 {
                self.plane_y = JUMP_HEIGHT;
            } else {
                self.plane_y = self.plane_y + 1;
            }
            if self.plane_y >= JUMP_HEIGHT {
                self.jumping = false;
            }
        } else if self.plane_y > 0 {
            self.plane_y = self.plane_y - 1;
        }
    }

    /// One simulation tick with the outcome of the spawn roll and the glyph
    /// for a new building given: the plane moves, the ground scrolls, the
    /// buildings shift left and retire at column 0, a new building enters at
    /// the right edge when the roll succeeded and that column is free, and
    /// the score counts the tick (saturating).
    pub fn advance(&mut self, spawn_roll: bool, glyph: char)
        requires
            old(self).wf(),
        ensures
            final(self).wf(),
            final(self).plane_y == next_height(old(self).plane_y as nat, old(self).jumping),
            final(self).jumping == next_jumping(old(self).plane_y as nat, old(self).jumping),
            final(self).ground_offset == next_offset(old(self).ground_offset as nat),
            final(self).obstacles@ == obstacles_after(old(self).obstacles@, spawn_roll, glyph),
            final(self).score == (if old(self).score < u32::MAX {
                old(self).score + 1
            } else {
                old(self).score as int
            }),
            final(self).last_update == old(self).last_update,
            final(self).buffer == old(self).buffer,
    {
        self.advance_actor();
        self.ground_offset = (self.ground_offset + GAME_WIDTH - 1) % GAME_WIDTH;
        let moved = shift_obstacles(&self.obstacles);
        proof {
            lemma_shift_clears_edge(self.obstacles@);
        }
        let mut next = moved;
        if spawn_roll && !any_at(&next, GAME_WIDTH - 1) {
            next.push(Obstacle { x: GAME_WIDTH - 1, glyph });
        }
        proof {
            let t = next@;
            assert forall|i: int| 0 <= i < t.len() implies #[trigger] t[i].x < GAME_WIDTH by {
                if i < moved@.len() {
                    assert(t[i] == moved@[i]);
                }
            }
        }
        self.obstacles = next;
        self.score = self.score.saturating_add(1);
    }

    /// Polls the clock and, when a tick is due, runs it with a spawn roll of
    /// probability `SPAWN_NUMERATOR / SPAWN_DENOMINATOR` and, on success, a
    /// glyph drawn from `building_glyphs()`. Returns whether a tick ran.
    pub fn update(&mut self, now: u64) -> (ticked: bool)
        requires
            old(self).wf(),
        ensures
            final(self).wf(),
            ticked == tick_due(old(self).last_update, now),
            !ticked ==> *final(self) == *old(self),
            ticked ==> final(self).last_update == now,
            ticked ==> final(self).plane_y == next_height(
                old(self).plane_y as nat,
                old(self).jumping,
            ),
            ticked ==> final(self).jumping == next_jumping(
                old(self).plane_y as nat,
                old(self).jumping,
            ),
            ticked ==> final(self).ground_offset == next_offset(old(self).ground_offset as nat),
            ticked ==> final(self).score == (if old(self).score < u32::MAX {
                old(self).score + 1
            } else {
                old(self).score as int
            }),
            ticked ==> final(self).buffer == old(self).buffer,
            ticked ==> (final(self).obstacles@ == obstacles_after(old(self).obstacles@, false, ' ')
                || exists|g: char|
                building_glyphs().contains(g) && final(self).obstacles@ == #[trigger] obstacles_after(
                    old(self).obstacles@,
                    true,
                    g,
                )),
    {
        if !self.should_advance(now) {
            return false;
        }
        let spawn_roll = gen_ratio(SPAWN_NUMERATOR, SPAWN_DENOMINATOR);
        if spawn_roll {
            let set = buildings();
            let glyph = choose_glyph(set.as_slice());
            self.advance(true, glyph);
        } else {
            self.advance(false, ' ');
        }
        true
    }

    /// A fresh frame of this state: blank, the ground on the bottom row, the
    /// plane on column `PLANE_COLUMN` of its row, the buildings on the row
    /// above the ground. It depends on nothing but the state.
    pub fn compose(&self) -> (f: Vec<Vec<char>>)
        requires
            self.wf(),
        ensures
            rows_of(f@) == self.view_frame(),
            f@.len() == GAME_HEIGHT,
            forall|r: int| 0 <= r < GAME_HEIGHT ==> (#[trigger] f@[r])@.len() == GAME_WIDTH,
            forall|r: int, c: int|
                0 <= r < GAME_HEIGHT && 0 <= c < GAME_WIDTH ==> #[trigger] f@[r]@[c] == frame_cell(
                    self.plane_y as nat,
                    self.obstacles@,
                    r,
                    c,
                ),
    {
        compose_frame(self.plane_y, &self.obstacles, self.ground_offset)
    }

    /// Redraws the buffer from the current state.
    pub fn draw(&mut self)
        requires
            old(self).wf(),
        ensures
            rows_of(final(self).buffer@) == old(self).view_frame(),
            final(self).buffer@.len() == GAME_HEIGHT,
            forall|r: int|
                0 <= r < GAME_HEIGHT ==> (#[trigger] final(self).buffer@[r])@.len() == GAME_WIDTH,
            forall|r: int, c: int|
                0 <= r < GAME_HEIGHT && 0 <= c < GAME_WIDTH ==> #[trigger] final(self).buffer@[r]@[c]
                    == frame_cell(old(self).plane_y as nat, old(self).obstacles@, r, c),
            final(self).plane_y == old(self).plane_y,
            final(self).jumping == old(self).jumping,
            final(self).obstacles == old(self).obstacles,
            final(self).score == old(self).score,
            final(self).last_update == old(self).last_update,
            final(self).ground_offset == old(self).ground_offset,
    {
        self.buffer = self.compose();
    }

    /// Whether the plane, on the ground, shares its column with a building.
    pub fn is_collision(&self) -> (hit: bool)
        ensures
            hit == self.collides(),
    {
        any_at(&self.obstacles, PLANE_COLUMN) && self.plane_y == 0
    }
}

} // verus!

use vstd::prelude::*;

use crate::config::GAME_WIDTH;

verus! {

/// A building scrolling from the right edge towards the plane.
#[derive(Clone, Copy, Debug, PartialEq, Eq, Structural)]
pub struct Obstacle {
    pub x: usize,
    pub glyph: char,
}

/// Every obstacle lies on a column of the frame.
pub open spec fn on_screen(obs: Seq<Obstacle>) -> bool {
    forall|i: int| 0 <= i < obs.len() ==> #[trigger] obs[i].x < GAME_WIDTH
}

/// Obstacles spawned earlier stand further to the left.
pub open spec fn spawn_ordered(obs: Seq<Obstacle>) -> bool {
    forall|i: int, j: int| 0 <= i < j < obs.len() ==> #[trigger] obs[i].x < #[trigger] obs[j].x
}

/// Some obstacle stands on column `x`.
pub open spec fn occupied(obs: Seq<Obstacle>, x: int) -> bool {
    exists|i: int| 0 <= i < obs.len() && #[trigger] obs[i].x == x
}

/// At most one obstacle stands on the rightmost column.
pub open spec fn single_at_edge(obs: Seq<Obstacle>) -> bool {
    forall|i: int, j: int|
        0 <= i < obs.len() && 0 <= j < obs.len() && #[trigger] obs[i].x == GAME_WIDTH - 1
            && #[trigger] obs[j].x == GAME_WIDTH - 1 ==> i == j
}

/// Every obstacle moved one column to the left; those that reached column 0
/// are gone. Order is kept.
pub open spec fn shifted(obs: Seq<Obstacle>) -> Seq<Obstacle>
    decreases obs.len(),
{
    if obs.len() == 0 {
        Seq::empty()
    } else {
        let rest = shifted(obs.drop_last());
        let o = obs.last();
        if o.x > 1 {
            rest.push(Obstacle { x: (o.x - 1) as usize, glyph: o.glyph })
        } else {
            rest
        }
    }
}

/// The obstacles after one tick: shifted, then a new one at the right edge
/// when the spawn roll succeeded and that column is free.
pub open spec fn obstacles_after(obs: Seq<Obstacle>, spawn_roll: bool, glyph: char) -> Seq<
    Obstacle,
> {
    let moved = shifted(obs);
    if spawn_roll && !occupied(moved, GAME_WIDTH - 1) {
        moved.push(Obstacle { x: (GAME_WIDTH - 1) as usize, glyph })
    } else {
        moved
    }
}

/// `o` is `p` after one step to the left.
pub open spec fn moved_from(o: Obstacle, p: Obstacle) -> bool {
    p.x > 1 && o == Obstacle { x: (p.x - 1) as usize, glyph: p.glyph }
}

/// `o` is one of `obs` after one step to the left.
pub open spec fn has_source(obs: Seq<Obstacle>, o: Obstacle) -> bool {
    exists|i: int| 0 <= i < obs.len() && #[trigger] moved_from(o, obs[i])
}

/// Each obstacle left after a shift is an earlier one, one column further left.
pub proof fn lemma_no_move_right(obs: Seq<Obstacle>)
    ensures
        forall|k: int| 0 <= k < shifted(obs).len() ==> has_source(obs, #[trigger] shifted(obs)[k]),
    decreases obs.len(),
{
    if obs.len() > 0 {
        let rest = obs.drop_last();
        lemma_no_move_right(rest);
        assert forall|k: int| 0 <= k < shifted(obs).len() implies has_source(
            obs,
            #[trigger] shifted(obs)[k],
        ) by {
            if k < shifted(rest).len() {
                let s = shifted(rest)[k];
                assert(has_source(rest, s));
                let i = choose|i: int| 0 <= i < rest.len() && #[trigger] moved_from(s, rest[i]);
                assert(obs[i] == rest[i]);
                assert(shifted(obs)[k] == s);
                assert(moved_from(shifted(obs)[k], obs[i]));
            } else {
                let i = obs.len() - 1;
                assert(obs[i] == obs.last());
                assert(moved_from(shifted(obs)[k], obs[i]));
            }
        }
    }
}

/// Shifting keeps the obstacles in spawn order.
pub proof fn lemma_shift_keeps_order(obs: Seq<Obstacle>)
    requires
        spawn_ordered(obs),
    ensures
        spawn_ordered(shifted(obs)),
    decreases obs.len(),
{
    if obs.len() > 0 {
        let rest = obs.drop_last();
        assert(spawn_ordered(rest)) by {
            assert forall|i: int, j: int| 0 <= i < j < rest.len() implies #[trigger] rest[i].x
                < #[trigger] rest[j].x by {
                assert(rest[i] == obs[i] && rest[j] == obs[j]);
            }
        }
        lemma_shift_keeps_order(rest);
        lemma_no_move_right(rest);
        let s = shifted(rest);
        let o = obs.last();
        if o.x > 1 {
            let t = s.push(Obstacle { x: (o.x - 1) as usize, glyph: o.glyph });
            assert forall|i: int, j: int| 0 <= i < j < t.len() implies #[trigger] t[i].x
                < #[trigger] t[j].x by {
                if j == s.len() {
                    assert(t[i] == s[i]);
                    assert(has_source(rest, s[i]));
                    let a = choose|a: int| 0 <= a < rest.len() && #[trigger] moved_from(s[i], rest[a]);
                    assert(obs[a] == rest[a]);
                    assert(obs[obs.len() - 1] == o);
                } else {
                    assert(t[i] == s[i] && t[j] == s[j]);
                }
            }
            assert(shifted(obs) == t);
        }
    }
}

/// After a shift no obstacle stands on the rightmost column.
pub proof fn lemma_shift_clears_edge(obs: Seq<Obstacle>)
    requires
        on_screen(obs),
    ensures
        on_screen(shifted(obs)),
        forall|k: int| 0 <= k < shifted(obs).len() ==> #[trigger] shifted(obs)[k].x < GAME_WIDTH - 1,
{
    lemma_no_move_right(obs);
    assert forall|k: int| 0 <= k < shifted(obs).len() implies #[trigger] shifted(obs)[k].x
        < GAME_WIDTH - 1 by {
        assert(has_source(obs, shifted(obs)[k]));
        let i = choose|i: int| 0 <= i < obs.len() && #[trigger] moved_from(shifted(obs)[k], obs[i]);
        assert(obs[i].x < GAME_WIDTH);
    }
}

/// Across a tick, obstacles stay on screen, stay in spawn order, and at most
/// one of them stands on the rightmost column, whatever the spawn roll gives.
pub proof fn lemma_tick_keeps_obstacle_order(obs: Seq<Obstacle>, spawn_roll: bool, glyph: char)
    requires
        on_screen(obs),
        spawn_ordered(obs),
    ensures
        on_screen(obstacles_after(obs, spawn_roll, glyph)),
        spawn_ordered(obstacles_after(obs, spawn_roll, glyph)),
        single_at_edge(obstacles_after(obs, spawn_roll, glyph)),
{
    lemma_shift_keeps_order(obs);
    lemma_shift_clears_edge(obs);
    let s = shifted(obs);
    let t = obstacles_after(obs, spawn_roll, glyph);
    if t != s {
        assert forall|i: int, j: int| 0 <= i < j < t.len() implies #[trigger] t[i].x
            < #[trigger] t[j].x by {
            assert(t[i] == s[i]);
            if j < s.len() {
                assert(t[j] == s[j]);
            }
        }
        assert forall|i: int| 0 <= i < t.len() implies #[trigger] t[i].x < GAME_WIDTH by {
            if i < s.len() {
                assert(t[i] == s[i]);
            }
        }
    }
    assert forall|i: int, j: int|
        0 <= i < t.len() && 0 <= j < t.len() && #[trigger] t[i].x == GAME_WIDTH - 1
            && #[trigger] t[j].x == GAME_WIDTH - 1 implies i == j by {
        if i < s.len() {
            assert(t[i] == s[i]);
        }
        if j < s.len() {
            assert(t[j] == s[j]);
        }
    }
}

/// The obstacles after one tick for each `(spawn_roll, glyph)` of `rolls`,
/// in order.
pub open spec fn run_obstacles(obs: Seq<Obstacle>, rolls: Seq<(bool, char)>) -> Seq<Obstacle>
    decreases rolls.len(),
{
    if rolls.len() == 0 {
        obs
    } else {
        let prev = run_obstacles(obs, rolls.drop_last());
        obstacles_after(prev, rolls.last().0, rolls.last().1)
    }
}

/// Over any run of ticks, whatever the spawn rolls, the obstacles stay on
/// screen and in spawn order, and at most one stands on the rightmost column.
pub proof fn lemma_run_keeps_obstacle_order(obs: Seq<Obstacle>, rolls: Seq<(bool, char)>)
    requires
        on_screen(obs),
        spawn_ordered(obs),
    ensures
        on_screen(run_obstacles(obs, rolls)),
        spawn_ordered(run_obstacles(obs, rolls)),
        single_at_edge(run_obstacles(obs, rolls)),
    decreases rolls.len(),
{
    if rolls.len() > 0 {
        lemma_run_keeps_obstacle_order(obs, rolls.drop_last());
        let prev = run_obstacles(obs, rolls.drop_last());
        lemma_tick_keeps_obstacle_order(prev, rolls.last().0, rolls.last().1);
    } else {
        assert forall|i: int, j: int|
            0 <= i < obs.len() && 0 <= j < obs.len() && #[trigger] obs[i].x == GAME_WIDTH - 1
                && #[trigger] obs[j].x == GAME_WIDTH - 1 implies i == j by {
            if i < j {
                assert(obs[i].x < obs[j].x);
            } else if j < i {
                assert(obs[j].x < obs[i].x);
            }
        }
    }
}

/// Moves every obstacle one column left and drops those that reach column 0.
pub fn shift_obstacles(obs: &Vec<Obstacle>) -> (r: Vec<Obstacle>)
    ensures
        r@ == shifted(obs@),
{
    let mut out: Vec<Obstacle> = Vec::new();
    let mut i: usize = 0;
    while i < obs.len()
        invariant
            i <= obs@.len(),
            out@ == shifted(obs@.take(i as int)),
        decreases obs.len() - i,
    {
        let o = obs[i];
        assert(obs@.take(i + 1).drop_last() == obs@.take(i as int));
        if o.x > 1 {
            out.push(Obstacle { x: o.x - 1, glyph: o.glyph });
        }
        i = i + 1;
    }
    assert(obs@.take(obs@.len() as int) == obs@);
    out
}

/// Whether some obstacle stands on column `x`.
pub fn any_at(obs: &Vec<Obstacle>, x: usize) -> (r: bool)
    ensures
        r == occupied(obs@, x as int),
{
    let mut i: usize = 0;
    while i < obs.len()
        invariant
            i <= obs@.len(),
            forall|k: int| 0 <= k < i ==> #[trigger] obs@[k].x != x,
        decreases obs.len() - i,
    {
        if obs[i].x == x {
            return true;
        }
        i = i + 1;
    }
    false
}

} // verus!

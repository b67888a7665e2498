use vstd::prelude::*;

use crate::config::{GAME_HEIGHT, GAME_WIDTH, GROUND, PLANE, PLANE_COLUMN};
use crate::obstacles::Obstacle;

verus! {

/// Glyph drawn on column `x` of the obstacle row: that of the last obstacle
/// on that column, if any.
pub open spec fn glyph_at(obs: Seq<Obstacle>, x: int) -> Option<char>
    decreases obs.len(),
{
    if obs.len() == 0 {
        None
    } else if obs.last().x == x {
        Some(obs.last().glyph)
    } else {
        glyph_at(obs.drop_last(), x)
    }
}

/// Row of the frame that holds the plane at height `plane_y`.
pub open spec fn plane_row(plane_y: nat) -> int {
    GAME_HEIGHT - 2 - plane_y
}

/// The character on row `r`, column `c` of the frame: buildings drawn over
/// the plane, the plane over the ground, blank elsewhere.
pub open spec fn frame_cell(plane_y: nat, obs: Seq<Obstacle>, r: int, c: int) -> char {
    if r == GAME_HEIGHT - 2 && glyph_at(obs, c) is Some {
        glyph_at(obs, c)->0
    } else if r == plane_row(plane_y) && c == PLANE_COLUMN {
        PLANE
    } else if r == GAME_HEIGHT - 1 {
        GROUND
    } else {
        ' '
    }
}

/// The whole frame, row by row.
pub open spec fn frame(plane_y: nat, obs: Seq<Obstacle>) -> Seq<Seq<char>> {
    Seq::new(
        GAME_HEIGHT as nat,
        |r: int| Seq::new(GAME_WIDTH as nat, |c: int| frame_cell(plane_y, obs, r, c)),
    )
}

/// A row of blanks.
pub open spec fn blank_line() -> Seq<char> {
    Seq::new(GAME_WIDTH as nat, |c: int| ' ')
}

/// The contents of a buffer of rows.
pub open spec fn rows_of(f: Seq<Vec<char>>) -> Seq<Seq<char>> {
    f.map_values(|row: Vec<char>| row@)
}

pub(crate) fn blank_row() -> (row: Vec<char>)
    ensures
        row@.len() == GAME_WIDTH,
        forall|c: int| 0 <= c < GAME_WIDTH ==> #[trigger] row@[c] == ' ',
        row@ == blank_line(),
{
    let mut row: Vec<char> = Vec::new();
    let mut i: usize = 0;
    while i < GAME_WIDTH
        invariant
            i <= GAME_WIDTH,
            row@.len() == i,
            forall|c: int| 0 <= c < i ==> #[trigger] row@[c] == ' ',
        decreases GAME_WIDTH - i,
    {
        row.push(' ');
        i = i + 1;
    }
    assert(row@ =~= blank_line());
    row
}

proof fn lemma_rotation_hits(c: int, offset: int) -> (j: int)
    requires
        0 <= c < GAME_WIDTH,
        0 <= offset < GAME_WIDTH,
    ensures
        0 <= j < GAME_WIDTH,
        (j + offset) % (GAME_WIDTH as int) == c,
{
    if c >= offset {
        c - offset
    } else {
        c + GAME_WIDTH - offset
    }
}

/// The ground row: the ground glyph plotted on column `(x + offset) % GAME_WIDTH`
/// for every `x`, which covers the whole row.
fn ground_row(offset: usize) -> (row: Vec<char>)
    requires
        offset < GAME_WIDTH,
    ensures
        row@.len() == GAME_WIDTH,
        forall|c: int| 0 <= c < GAME_WIDTH ==> #[trigger] row@[c] == GROUND,
{
    let mut row = blank_row();
    let mut x: usize = 0;
    while x < GAME_WIDTH
        invariant
            x <= GAME_WIDTH,
            offset < GAME_WIDTH,
            row@.len() == GAME_WIDTH,
            forall|j: int| 0 <= j < x ==> #[trigger] row@[(j + offset) % (GAME_WIDTH as int)] == GROUND,
        decreases GAME_WIDTH - x,
    {
        let col = (x + offset) % GAME_WIDTH;
        row.set(col, GROUND);
        assert forall|j: int| 0 <= j < x + 1 implies #[trigger] row@[(j + offset) % (GAME_WIDTH as int)] == GROUND by {
            if j < x {
                assert(row@[(j + offset) % (GAME_WIDTH as int)] == GROUND);
            }
        }
        x = x + 1;
    }
    assert forall|c: int| 0 <= c < GAME_WIDTH implies #[trigger] row@[c] == GROUND by {
        let j = lemma_rotation_hits(c, offset as int);
        assert(row@[(j + offset) % (GAME_WIDTH as int)] == GROUND);
    }
    row
}

/// Draws the obstacles on top of `row`, each on its own column.
fn overlay_obstacles(row: &mut Vec<char>, obs: &Vec<Obstacle>)
    requires
        old(row)@.len() == GAME_WIDTH,
    ensures
        final(row)@.len() == GAME_WIDTH,
        forall|c: int|
            0 <= c < GAME_WIDTH ==> #[trigger] final(row)@[c] == (match glyph_at(obs@, c) {
                Some(g) => g,
                None => old(row)@[c],
            }),
{
    let ghost base = row@;
    let mut i: usize = 0;
    while i < obs.len()
        invariant
            i <= obs@.len(),
            base.len() == GAME_WIDTH,
            row@.len() == GAME_WIDTH,
            forall|c: int|
                0 <= c < GAME_WIDTH ==> #[trigger] row@[c] == (match glyph_at(obs@.take(i as int), c) {
                    Some(g) => g,
                    None => base[c],
                }),
        decreases obs.len() - i,
    {
        let o = obs[i];
        let ghost prev = row@;
        assert(obs@.take(i + 1).drop_last() == obs@.take(i as int));
        assert(obs@.take(i + 1).last() == o);
        if o.x < GAME_WIDTH {
            row.set(o.x, o.glyph);
        }
        assert forall|c: int| 0 <= c < GAME_WIDTH implies #[trigger] row@[c] == (match glyph_at(
            obs@.take(i + 1),
            c,
        ) {
            Some(g) => g,
            None => base[c],
        }) by {
            assert(prev[c] == (match glyph_at(obs@.take(i as int), c) {
                Some(g) => g,
                None => base[c],
            }));
        }
        i = i + 1;
    }
    assert(obs@.take(obs@.len() as int) == obs@);
}

/// Builds the frame for a plane at height `plane_y` among `obs`, with the
/// ground scrolled by `ground_offset`. Each call builds a fresh buffer.
pub fn compose_frame(plane_y: usize, obs: &Vec<Obstacle>, ground_offset: usize) -> (f: Vec<Vec<char>>)
    requires
        plane_y <= GAME_HEIGHT - 2,
        ground_offset < GAME_WIDTH,
    ensures
        f@.len() == GAME_HEIGHT,
        forall|r: int| 0 <= r < GAME_HEIGHT ==> (#[trigger] f@[r])@.len() == GAME_WIDTH,
        forall|r: int, c: int|
            0 <= r < GAME_HEIGHT && 0 <= c < GAME_WIDTH ==> #[trigger] f@[r]@[c] == frame_cell(
                plane_y as nat,
                obs@,
                r,
                c,
            ),
        rows_of(f@) == frame(plane_y as nat, obs@),
{
    let mut f: Vec<Vec<char>> = Vec::new();
    let plane_at: usize = GAME_HEIGHT - 2 - plane_y;
    let mut r: usize = 0;
    while r < GAME_HEIGHT
        invariant
            r <= GAME_HEIGHT,
            plane_at == plane_row(plane_y as nat),
            ground_offset < GAME_WIDTH,
            f@.len() == r,
            forall|i: int| 0 <= i < r ==> (#[trigger] f@[i])@.len() == GAME_WIDTH,
            forall|i: int, c: int|
                0 <= i < r && 0 <= c < GAME_WIDTH ==> #[trigger] f@[i]@[c] == frame_cell(
                    plane_y as nat,
                    obs@,
                    i,
                    c,
                ),
        decreases GAME_HEIGHT - r,
    {
        let mut row = if r == GAME_HEIGHT - 1 {
            ground_row(ground_offset)
        } else {
            blank_row()
        };
        if r == plane_at {
            row.set(PLANE_COLUMN, PLANE);
        }
        if r == GAME_HEIGHT - 2 {
            overlay_obstacles(&mut row, obs);
        }
        assert forall|c: int| 0 <= c < GAME_WIDTH implies #[trigger] row@[c] == frame_cell(
            plane_y as nat,
            obs@,
            r as int,
            c,
        ) by {}
        f.push(row);
        assert forall|i: int, c: int|
            0 <= i < r + 1 && 0 <= c < GAME_WIDTH implies #[trigger] f@[i]@[c] == frame_cell(
                plane_y as nat,
                obs@,
                i,
                c,
            ) by {
            if i == r {
                assert(f@[i] == row);
            }
        }
        r = r + 1;
    }
    assert(rows_of(f@) =~~= frame(plane_y as nat, obs@));
    f
}

} // verus!

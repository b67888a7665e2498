use vstd::prelude::*;

verus! {

/// Glyph of the plane.
pub const PLANE: char = '\u{1F6E9}';

/// Glyph of the scrolling ground.
pub const GROUND: char = '\u{2581}';

/// Highest row offset the plane reaches above the ground.
pub const JUMP_HEIGHT: usize = 5;

/// Number of columns of the frame.
pub const GAME_WIDTH: usize = 80;

/// Number of rows of the frame.
pub const GAME_HEIGHT: usize = 10;

/// Minimum number of milliseconds between two simulation ticks.
pub const GAME_SPEED: u64 = 50;

/// Fixed column of the plane, counted from the left edge.
pub const PLANE_COLUMN: usize = 2;

/// A new building appears on a tick with probability
/// `SPAWN_NUMERATOR / SPAWN_DENOMINATOR`.
pub const SPAWN_NUMERATOR: u32 = 1;

/// See `SPAWN_NUMERATOR`.
pub const SPAWN_DENOMINATOR: u32 = 20;

/// The glyphs a building may be drawn with.
pub open spec fn building_glyphs() -> Seq<char> {
    seq!['\u{1F3E0}', '\u{1F3E2}', '\u{1F3EB}', '\u{1F3DB}', '\u{1F3F0}']
}

/// The glyphs a building may be drawn with, in a fresh vector.
pub fn buildings() -> (r: Vec<char>)
    ensures
        r@ == building_glyphs(),
{
    let mut r: Vec<char> = Vec::new();
    r.push('\u{1F3E0}');
    r.push('\u{1F3E2}');
    r.push('\u{1F3EB}');
    r.push('\u{1F3DB}');
    r.push('\u{1F3F0}');
    assert(r@ == building_glyphs());
    r
}

} // verus!

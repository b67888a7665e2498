//! An endless-runner simulation on a fixed tick: a jumping plane, scrolling
//! buildings, collision detection and a character frame for each tick.
//!
//! The state lives in [`Game`]; one iteration of the loop is [`Game::step`].
//! Randomness enters only through [`Game::update`]; [`Game::advance`] takes
//! the spawn roll and glyph as arguments and is fully determined by them.
mod actor;
mod chance;
mod config;
mod frame;
mod game;
mod obstacles;
mod session;

pub use actor::{lemma_height_bounded, lemma_jump_round_trip, next_height, next_jumping, run_actor};
pub use config::{
    building_glyphs, buildings, GAME_HEIGHT, GAME_SPEED, GAME_WIDTH, GROUND, JUMP_HEIGHT, PLANE,
    PLANE_COLUMN, SPAWN_DENOMINATOR, SPAWN_NUMERATOR,
};
pub use frame::{blank_line, compose_frame, frame, frame_cell, glyph_at, plane_row, rows_of};
pub use game::{lemma_ground_cycle, next_offset, run_scroll, tick_due, Game};
pub use obstacles::{
    any_at, has_source, lemma_no_move_right, lemma_run_keeps_obstacle_order,
    lemma_tick_keeps_obstacle_order, moved_from, obstacles_after, occupied, on_screen,
    run_obstacles, shift_obstacles, shifted, single_at_edge, spawn_ordered, Obstacle,
};
pub use session::{jumping_after_input, Input, Status};

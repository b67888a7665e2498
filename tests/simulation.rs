use flight_sim::{
    buildings, Game, Input, Obstacle, Status, GAME_HEIGHT, GAME_SPEED, GAME_WIDTH, GROUND,
    JUMP_HEIGHT, PLANE, PLANE_COLUMN,
};

fn game_with(plane_y: usize, jumping: bool, xs: &[usize]) -> Game {
    let mut g = Game::new(0);
    g.plane_y = plane_y;
    g.jumping = jumping;
    g.obstacles = xs.iter().map(|&x| Obstacle { x, glyph: '#' }).collect();
    g
}

#[test]
fn height_stays_in_range() {
    for start in 0..=JUMP_HEIGHT {
        for jumping in [false, true] {
            let mut g = game_with(start, jumping, &[]);
            for _ in 0..50 {
                g.advance_actor();
                assert!(g.plane_y <= JUMP_HEIGHT);
            }
        }
    }
}

#[test]
fn jump_lands_after_twice_jump_height() {
    let mut g = Game::new(0);
    g.request_jump();
    assert!(g.jumping);
    let mut ticks = 0;
    loop {
        g.advance_actor();
        ticks += 1;
        if g.plane_y == 0 {
            break;
        }
        assert!(ticks < 100);
    }
    assert_eq!(ticks, 2 * JUMP_HEIGHT);
    assert!(!g.jumping);
}

#[test]
fn jump_request_in_air_is_ignored() {
    for h in 1..=JUMP_HEIGHT {
        for jumping in [false, true] {
            let mut g = game_with(h, jumping, &[10, 40]);
            let before = g.clone();
            g.request_jump();
            assert_eq!(g, before);
        }
    }
}

#[test]
fn jump_request_while_jumping_on_ground_is_ignored() {
    let mut g = game_with(0, true, &[]);
    let before = g.clone();
    g.request_jump();
    assert_eq!(g, before);
}

#[test]
fn jump_climbs_one_unit_per_tick() {
    let mut g = Game::new(0);
    g.request_jump();
    let mut heights = Vec::new();
    for _ in 0..5 {
        assert!(g.jumping);
        g.advance(false, ' ');
        heights.push(g.plane_y);
    }
    assert_eq!(heights, vec![1, 2, 3, 4, 5]);
    assert!(!g.jumping);
    assert_eq!(g.plane_y, JUMP_HEIGHT);
    g.advance(false, ' ');
    assert_eq!(g.plane_y, 4);
}

#[test]
fn obstacles_never_move_right() {
    let mut g = Game::new(0);
    let mut before: Vec<Obstacle> = Vec::new();
    for t in 0..500 {
        let spawn = t % 7 == 0 || t % 11 == 3;
        g.advance(spawn, '#');
        let xs: Vec<usize> = g.obstacles.iter().map(|o| o.x).collect();
        for w in xs.windows(2) {
            assert!(w[0] < w[1]);
        }
        for o in &g.obstacles {
            assert!(o.x == GAME_WIDTH - 1 || before.iter().any(|b| b.x == o.x + 1));
        }
        before = g.obstacles.clone();
    }
}

#[test]
fn single_building_at_edge_over_many_ticks() {
    let mut g = Game::new(0);
    for _ in 0..1000 {
        g.advance(true, 'B');
        let at_edge = g.obstacles.iter().filter(|o| o.x == GAME_WIDTH - 1).count();
        assert!(at_edge <= 1);
    }
    assert!(!g.obstacles.is_empty());
}

#[test]
fn spawn_enters_at_right_edge_with_glyph() {
    let mut g = Game::new(0);
    g.advance(true, 'Z');
    assert_eq!(g.obstacles, vec![Obstacle { x: GAME_WIDTH - 1, glyph: 'Z' }]);
    g.advance(true, 'Y');
    assert_eq!(
        g.obstacles,
        vec![
            Obstacle { x: GAME_WIDTH - 2, glyph: 'Z' },
            Obstacle { x: GAME_WIDTH - 1, glyph: 'Y' }
        ]
    );
}

#[test]
fn failed_roll_spawns_nothing() {
    let mut g = Game::new(0);
    g.advance(false, 'Z');
    assert!(g.obstacles.is_empty());
}

#[test]
fn buildings_retire_at_column_zero() {
    let mut g = game_with(0, false, &[1, 2, 30]);
    g.advance(false, ' ');
    let xs: Vec<usize> = g.obstacles.iter().map(|o| o.x).collect();
    assert_eq!(xs, vec![1, 29]);
    g.advance(false, ' ');
    let xs: Vec<usize> = g.obstacles.iter().map(|o| o.x).collect();
    assert_eq!(xs, vec![28]);
}

#[test]
fn collision_grounded_at_plane_column() {
    let g = game_with(0, false, &[PLANE_COLUMN]);
    assert!(g.is_collision());
}

#[test]
fn no_collision_in_the_air() {
    let g = game_with(1, false, &[PLANE_COLUMN]);
    assert!(!g.is_collision());
}

#[test]
fn no_collision_without_building_at_plane_column() {
    let g = game_with(0, false, &[1, 3, 50]);
    assert!(!g.is_collision());
}

#[test]
fn ground_offset_wraps_after_full_width() {
    let mut g = Game::new(0);
    assert_eq!(g.ground_offset, 0);
    for t in 1..=GAME_WIDTH {
        g.advance(false, ' ');
        assert_eq!(g.ground_offset, (GAME_WIDTH - t) % GAME_WIDTH);
        let f = g.compose();
        assert!(f[GAME_HEIGHT - 1].iter().all(|&c| c == GROUND));
        assert_eq!(f[GAME_HEIGHT - 1].len(), GAME_WIDTH);
    }
    assert_eq!(g.ground_offset, 0);
}

#[test]
fn compose_twice_is_identical() {
    let mut g = game_with(2, true, &[5, 20, 79]);
    g.ground_offset = 17;
    let a = g.compose();
    let b = g.compose();
    assert_eq!(a, b);
    g.draw();
    let first = g.buffer.clone();
    g.draw();
    assert_eq!(g.buffer, first);
}

#[test]
fn frame_places_plane_ground_and_buildings() {
    let g = game_with(3, false, &[10, 40]);
    let f = g.compose();
    assert_eq!(f.len(), GAME_HEIGHT);
    for (r, row) in f.iter().enumerate() {
        assert_eq!(row.len(), GAME_WIDTH);
        for (c, &ch) in row.iter().enumerate() {
            let expected = if r == GAME_HEIGHT - 1 {
                GROUND
            } else if r == GAME_HEIGHT - 2 && (c == 10 || c == 40) {
                '#'
            } else if r == GAME_HEIGHT - 2 - 3 && c == PLANE_COLUMN {
                PLANE
            } else {
                ' '
            };
            assert_eq!(ch, expected, "row {} column {}", r, c);
        }
    }
}

#[test]
fn building_drawn_over_grounded_plane() {
    let mut g = game_with(0, false, &[PLANE_COLUMN]);
    g.obstacles[0].glyph = 'H';
    let f = g.compose();
    assert_eq!(f[GAME_HEIGHT - 2][PLANE_COLUMN], 'H');
    let g = game_with(0, false, &[]);
    assert_eq!(g.compose()[GAME_HEIGHT - 2][PLANE_COLUMN], PLANE);
}

#[test]
fn new_game_is_blank_and_grounded() {
    let g = Game::new(1234);
    assert_eq!(g.plane_y, 0);
    assert!(!g.jumping);
    assert!(g.obstacles.is_empty());
    assert_eq!(g.score, 0);
    assert_eq!(g.last_update, 1234);
    assert_eq!(g.ground_offset, 0);
    assert_eq!(g.buffer.len(), GAME_HEIGHT);
    assert!(g.buffer.iter().all(|row| row.len() == GAME_WIDTH && row.iter().all(|&c| c == ' ')));
}

#[test]
fn ticker_waits_for_game_speed() {
    let mut g = Game::new(1000);
    assert!(!g.should_advance(1000 + GAME_SPEED - 1));
    assert_eq!(g.last_update, 1000);
    assert!(g.should_advance(1000 + GAME_SPEED));
    assert_eq!(g.last_update, 1000 + GAME_SPEED);
    assert!(!g.should_advance(1000 + GAME_SPEED + 10));
    assert!(!g.should_advance(500));
    assert_eq!(g.last_update, 1000 + GAME_SPEED);
}

#[test]
fn update_runs_only_when_due() {
    let mut g = Game::new(0);
    let before = g.clone();
    assert!(!g.update(GAME_SPEED - 1));
    assert_eq!(g, before);
    assert!(g.update(GAME_SPEED));
    assert_eq!(g.score, 1);
    assert_eq!(g.last_update, GAME_SPEED);
    assert_eq!(g.ground_offset, GAME_WIDTH - 1);
}

#[test]
fn update_spawns_only_known_buildings() {
    let set = buildings();
    let mut g = Game::new(0);
    for t in 1..=2000u64 {
        assert!(g.update(t * GAME_SPEED));
        for o in &g.obstacles {
            assert!(set.contains(&o.glyph));
            assert!(o.x < GAME_WIDTH);
        }
    }
    assert_eq!(g.score, 2000);
}

#[test]
fn score_counts_ticks_and_saturates() {
    let mut g = Game::new(0);
    for _ in 0..7 {
        g.advance(false, ' ');
    }
    assert_eq!(g.score, 7);
    g.score = u32::MAX;
    g.advance(false, ' ');
    assert_eq!(g.score, u32::MAX);
}

#[test]
fn step_quit_stops_without_change() {
    let mut g = game_with(0, false, &[PLANE_COLUMN]);
    let before = g.clone();
    assert_eq!(g.step(Some(Input::Quit), GAME_SPEED), Status::Quit);
    assert_eq!(g, before);
}

#[test]
fn step_reports_game_over_on_collision() {
    let mut g = game_with(0, false, &[PLANE_COLUMN + 1]);
    assert_eq!(g.step(None, GAME_SPEED), Status::GameOver);
    assert_eq!(g.buffer[GAME_HEIGHT - 2][PLANE_COLUMN], '#');
}

#[test]
fn step_jump_clears_building() {
    let mut g = game_with(0, false, &[PLANE_COLUMN + 1]);
    assert_eq!(g.step(Some(Input::Jump), GAME_SPEED), Status::Running);
    assert_eq!(g.plane_y, 1);
    assert_eq!(g.buffer[GAME_HEIGHT - 3][PLANE_COLUMN], PLANE);
}

#[test]
fn step_without_due_tick_applies_jump_only() {
    let mut g = Game::new(0);
    assert_eq!(g.step(Some(Input::Jump), 1), Status::Running);
    assert!(g.jumping);
    assert_eq!(g.plane_y, 0);
    assert_eq!(g.score, 0);
}

use breakout_core::ball::Ball;
use breakout_core::geometry::clamp_i64;
use breakout_core::geometry::div_trunc;
use breakout_core::geometry::isqrt_u64;
use breakout_core::geometry::Color;
use breakout_core::geometry::Rect;
use breakout_core::geometry::SimpleVec2;
use breakout_core::player::MoveIntent;
use breakout_core::player::Player;
use breakout_core::player::GAP_WIDTH;
use breakout_core::tiles::TileMap;
use breakout_core::tiles::TileMapError;

fn red() -> Color {
    Color::rgb(255, 0, 0)
}

fn blue() -> Color {
    Color::rgb(0, 0, 255)
}

#[test]
fn clamp_basics() {
    assert_eq!(clamp_i64(5, 0, 10), 5);
    assert_eq!(clamp_i64(-3, 0, 10), 0);
    assert_eq!(clamp_i64(15, 0, 10), 10);
    assert_eq!(clamp_i64(0, 0, 0), 0);
}

#[test]
fn div_trunc_rounds_toward_zero() {
    assert_eq!(div_trunc(7, 2), 3);
    assert_eq!(div_trunc(-7, 2), -3);
    assert_eq!(div_trunc(6, 3), 2);
    assert_eq!(div_trunc(-6, 3), -2);
    assert_eq!(div_trunc(0, 5), 0);
}

#[test]
fn isqrt_exact_values() {
    assert_eq!(isqrt_u64(0), 0);
    assert_eq!(isqrt_u64(1), 1);
    assert_eq!(isqrt_u64(24), 4);
    assert_eq!(isqrt_u64(25), 5);
    assert_eq!(isqrt_u64(26), 5);
    assert_eq!(isqrt_u64(50), 7);
    assert_eq!(isqrt_u64(1_000_000_000_000), 1_000_000);
}

#[test]
fn ball_low_edge_bounce() {
    // Ball at half its radius from the left wall, moving left: after one
    // integration step it sits exactly at `radius` with the horizontal
    // velocity flipped to positive.
    let mut ball = Ball::new(SimpleVec2::new(5, 100), 10, SimpleVec2::new(-50, 0), red());
    ball.update(0, 200, 200);
    assert_eq!(ball.position.x, 10);
    assert_eq!(ball.position.y, 100);
    assert_eq!(ball.velocity.x, 50);
    assert_eq!(ball.velocity.y, 0);
}

#[test]
fn ball_stays_within_screen_for_large_dt() {
    let mut ball = Ball::new(SimpleVec2::new(100, 100), 10, SimpleVec2::new(7, -3), red());
    ball.update(1000, 200, 200);
    assert!(ball.position.x >= 10 && ball.position.x <= 190);
    assert!(ball.position.y >= 10 && ball.position.y <= 190);
    // High x edge crossed, low y edge crossed: both axes reflect.
    assert_eq!(ball.position.x, 190);
    assert_eq!(ball.velocity.x, -7);
    assert_eq!(ball.position.y, 10);
    assert_eq!(ball.velocity.y, 3);
}

#[test]
fn ball_free_flight_is_exact() {
    let mut ball = Ball::new(SimpleVec2::new(100, 100), 10, SimpleVec2::new(3, -2), red());
    ball.update(5, 400, 400);
    assert_eq!(ball.position.x, 115);
    assert_eq!(ball.position.y, 90);
    assert_eq!(ball.velocity.x, 3);
    assert_eq!(ball.velocity.y, -2);
}

#[test]
fn paddle_reflection_from_above_preserves_energy() {
    // Contact from straight above: the normal is vertical, the bounce is a
    // pure vertical flip and the squared speed is preserved exactly.
    let mut ball = Ball::new(SimpleVec2::new(50, 95), 10, SimpleVec2::new(30, 40), red());
    let rect = Rect::new(0, 100, 100, 20);
    ball.check_collision_and_bounce(rect);
    assert_eq!(ball.position.x, 50);
    assert_eq!(ball.position.y, 90);
    assert_eq!(ball.velocity.x, 30);
    assert_eq!(ball.velocity.y, -40);
    let before = 30 * 30 + 40 * 40;
    let after = ball.velocity.x * ball.velocity.x + ball.velocity.y * ball.velocity.y;
    assert_eq!(before, after);
}

#[test]
fn paddle_corner_contact_is_exact() {
    // Diagonal contact at the paddle's top-right corner.
    let mut ball = Ball::new(SimpleVec2::new(105, 95), 10, SimpleVec2::new(10, 0), red());
    let rect = Rect::new(0, 100, 100, 20);
    ball.check_collision_and_bounce(rect);
    // delta = (5, -5), squared distance 50, contact distance 7, depth 3.
    assert_eq!(ball.position.x, 107);
    assert_eq!(ball.position.y, 93);
    assert_eq!(ball.velocity.x, 0);
    assert_eq!(ball.velocity.y, 10);
}

#[test]
fn paddle_diagonal_contact_rounds_toward_zero() {
    // Oblique corner contact: the reflection divides by the squared
    // contact distance and rounds each component toward zero, so a little
    // energy can be shed (here |v'|^2 is 20 against 25 before).
    let mut ball = Ball::new(SimpleVec2::new(103, 124), 10, SimpleVec2::new(5, 0), red());
    let rect = Rect::new(0, 100, 100, 20);
    ball.check_collision_and_bounce(rect);
    // delta = (3, 4), squared distance 25, contact distance 5, depth 5.
    assert_eq!(ball.position.x, 106);
    assert_eq!(ball.position.y, 128);
    assert_eq!(ball.velocity.x, 2);
    assert_eq!(ball.velocity.y, -4);
}

#[test]
fn paddle_degenerate_center_on_corner() {
    // Ball center exactly on the rectangle corner: distance is zero, the
    // normal defaults to straight up; no crash, no division by zero.
    let mut ball = Ball::new(SimpleVec2::new(0, 100), 10, SimpleVec2::new(5, 7), red());
    let rect = Rect::new(0, 100, 100, 20);
    ball.check_collision_and_bounce(rect);
    assert_eq!(ball.position.x, 0);
    assert_eq!(ball.position.y, 90);
    assert_eq!(ball.velocity.x, 5);
    assert_eq!(ball.velocity.y, -7);
}

#[test]
fn paddle_no_overlap_is_noop() {
    let mut ball = Ball::new(SimpleVec2::new(50, 50), 10, SimpleVec2::new(5, 7), red());
    let rect = Rect::new(0, 100, 100, 20);
    ball.check_collision_and_bounce(rect);
    assert_eq!(ball.position.x, 50);
    assert_eq!(ball.position.y, 50);
    assert_eq!(ball.velocity.x, 5);
    assert_eq!(ball.velocity.y, 7);
}

#[test]
fn player_moves_and_clamps() {
    let mut player = Player::new(SimpleVec2::new(100, 500), 250, 20, 80);
    player.control_rectangle(2, MoveIntent::Right, None, 1000);
    assert_eq!(player.position_vector.x, 600);
    assert_eq!(player.position_vector.y, 500);
    player.control_rectangle(2, MoveIntent::Left, Some(100_000), 1000);
    assert_eq!(player.position_vector.x, GAP_WIDTH);
    player.control_rectangle(2, MoveIntent::Right, Some(100_000), 1000);
    assert_eq!(player.position_vector.x, 1000 - GAP_WIDTH);
    player.control_rectangle(5, MoveIntent::Still, None, 1000);
    assert_eq!(player.position_vector.x, 1000 - GAP_WIDTH);
}

#[test]
fn player_rect_matches_position_and_size() {
    let mut player = Player::new(SimpleVec2::new(100, 500), 250, 20, 80);
    player.control_rectangle(0, MoveIntent::Still, None, 1000);
    let rect = player.get_player_rect();
    assert_eq!(rect, Rect::new(100, 500, 80, 20));
}

#[test]
fn uniform_grid_dimensions_and_layout() {
    let map = TileMap::new(1280, 720, 80, 40, 5);
    // Two thirds of 720 is 480; 1280 / 85 = 15 columns, 480 / 45 = 10 rows.
    assert_eq!(map.rows, 10);
    assert_eq!(map.cols, 15);
    let first = map.tile_at(0, 0);
    assert_eq!(first.position.x, 2);
    assert_eq!(first.position.y, 2);
    assert_eq!(first.size.x, 80);
    assert_eq!(first.size.y, 40);
    assert!(first.is_solid);
    assert!(!first.destroyed);
    let last = map.tile_at(9, 14);
    assert_eq!(last.position.x, 14 * 85 + 2);
    assert_eq!(last.position.y, 9 * 45 + 2);
    for i in 0..map.rows {
        for j in 0..map.cols {
            let t = map.tile_at(i, j);
            assert!(t.is_solid);
            assert!(!t.destroyed);
        }
    }
}

#[test]
fn pattern_two_by_two_counts() {
    // [[Some(RED), None], [None, Some(BLUE)]]: exactly two drawable tiles
    // (top-left red, bottom-right blue) and two destroyed placeholders.
    let pattern = vec![vec![Some(red()), None], vec![None, Some(blue())]];
    let map = TileMap::from_pattern(&pattern, 80, 40, 5).unwrap();
    assert_eq!(map.rows, 2);
    assert_eq!(map.cols, 2);
    let mut drawable = 0;
    let mut destroyed = 0;
    for i in 0..map.rows {
        for j in 0..map.cols {
            let t = map.tile_at(i, j);
            if t.destroyed {
                destroyed += 1;
            } else {
                drawable += 1;
            }
        }
    }
    assert_eq!(drawable, 2);
    assert_eq!(destroyed, 2);
    assert_eq!(map.tile_at(0, 0).color, red());
    assert!(map.tile_at(0, 0).is_solid);
    assert_eq!(map.tile_at(1, 1).color, blue());
    assert!(map.tile_at(1, 1).is_solid);
    assert!(map.tile_at(0, 1).destroyed);
    assert!(!map.tile_at(0, 1).is_solid);
    assert!(map.tile_at(1, 0).destroyed);
    assert!(!map.tile_at(1, 0).is_solid);
}

#[test]
fn pattern_round_trip_matches_cells() {
    let pattern = vec![
        vec![Some(red()), None, Some(blue())],
        vec![None, Some(blue()), None],
    ];
    let map = TileMap::from_pattern(&pattern, 80, 40, 5).unwrap();
    assert_eq!(map.rows, pattern.len());
    assert_eq!(map.cols, pattern[0].len());
    for (i, row) in pattern.iter().enumerate() {
        for (j, cell) in row.iter().enumerate() {
            let t = map.tile_at(i, j);
            assert_eq!(t.position.x, j as i64 * 85 + 2);
            assert_eq!(t.position.y, i as i64 * 45 + 2);
            assert_eq!(t.size.x, 80);
            assert_eq!(t.size.y, 40);
            match cell {
                Some(c) => {
                    assert_eq!(t.color, *c);
                    assert!(t.is_solid);
                    assert!(!t.destroyed);
                }
                None => {
                    assert!(!t.is_solid);
                    assert!(t.destroyed);
                }
            }
        }
    }
}

#[test]
fn pattern_empty_makes_empty_map() {
    let pattern: Vec<Vec<Option<Color>>> = vec![];
    let map = TileMap::from_pattern(&pattern, 80, 40, 5).unwrap();
    assert_eq!(map.rows, 0);
    assert_eq!(map.cols, 0);
    assert_eq!(map.tiles.len(), 0);
}

#[test]
fn pattern_with_empty_rows_makes_no_tiles() {
    let pattern: Vec<Vec<Option<Color>>> = vec![vec![], vec![]];
    let map = TileMap::from_pattern(&pattern, 80, 40, 5).unwrap();
    assert_eq!(map.rows, 2);
    assert_eq!(map.cols, 0);
    assert_eq!(map.tiles.len(), 0);
}

#[test]
fn pattern_rejects_ragged_rows() {
    let pattern = vec![vec![Some(red()), None], vec![Some(blue())]];
    let result = TileMap::from_pattern(&pattern, 80, 40, 5);
    assert!(matches!(result, Err(TileMapError::NonRectangularPattern)));
}

#[test]
fn tile_collision_destroys_and_bounces() {
    let pattern = vec![vec![Some(red())]];
    let mut map = TileMap::from_pattern(&pattern, 100, 20, 0).unwrap();
    // Tile rectangle is [0, 100] x [0, 20]; ball below it, overlapping.
    let mut ball = Ball::new(SimpleVec2::new(50, 25), 10, SimpleVec2::new(3, -7), red());
    map.handle_ball_collision(&mut ball);
    assert!(map.tile_at(0, 0).destroyed);
    assert_eq!(ball.velocity.x, 3);
    assert_eq!(ball.velocity.y, 7);
    // Pushed out along the vertical normal by the penetration depth 5.
    assert_eq!(ball.position.x, 50);
    assert_eq!(ball.position.y, 30);
}

#[test]
fn tile_destruction_is_single_shot() {
    let pattern = vec![vec![Some(red())]];
    let mut map = TileMap::from_pattern(&pattern, 100, 20, 0).unwrap();
    let mut ball = Ball::new(SimpleVec2::new(50, 25), 10, SimpleVec2::new(3, -7), red());
    map.handle_ball_collision(&mut ball);
    assert!(map.tile_at(0, 0).destroyed);
    // Second call: the destroyed tile is inert, the ball flies through.
    let pos = ball.position;
    let vel = ball.velocity;
    map.handle_ball_collision(&mut ball);
    assert!(map.tile_at(0, 0).destroyed);
    assert_eq!(ball.position, pos);
    assert_eq!(ball.velocity, vel);
}

#[test]
fn at_most_one_tile_destroyed_per_call() {
    // Two adjacent tiles, ball overlapping both: only the row-major-first
    // tile is destroyed.
    let pattern = vec![vec![Some(red()), Some(blue())]];
    let mut map = TileMap::from_pattern(&pattern, 20, 20, 0).unwrap();
    let mut ball = Ball::new(SimpleVec2::new(20, 10), 15, SimpleVec2::new(1, -1), red());
    map.handle_ball_collision(&mut ball);
    assert!(map.tile_at(0, 0).destroyed);
    assert!(!map.tile_at(0, 1).destroyed);
    assert_eq!(ball.velocity.y, 1);
}

#[test]
fn tile_corner_degenerate_contact() {
    // Ball center exactly on a tile corner: distance zero, no division by
    // zero; the normal defaults to straight up, so the ball is pushed up
    // by the full radius and its vertical velocity is inverted.
    let pattern = vec![vec![Some(red())]];
    let mut map = TileMap::from_pattern(&pattern, 100, 20, 0).unwrap();
    let mut ball = Ball::new(SimpleVec2::new(0, 0), 10, SimpleVec2::new(4, 6), red());
    map.handle_ball_collision(&mut ball);
    assert!(map.tile_at(0, 0).destroyed);
    assert_eq!(ball.position.x, 0);
    assert_eq!(ball.position.y, -10);
    assert_eq!(ball.velocity.x, 4);
    assert_eq!(ball.velocity.y, -6);
}

#[test]
fn destroyed_pattern_cells_never_collide() {
    // The ball sits inside a `None` cell's rectangle; nothing happens.
    let pattern = vec![vec![None, Some(red())]];
    let mut map = TileMap::from_pattern(&pattern, 100, 20, 0).unwrap();
    let mut ball = Ball::new(SimpleVec2::new(50, 10), 10, SimpleVec2::new(4, 6), red());
    map.handle_ball_collision(&mut ball);
    assert!(map.tile_at(0, 0).destroyed);
    assert!(!map.tile_at(0, 1).destroyed);
    assert_eq!(ball.velocity.y, 6);
    assert_eq!(ball.position, SimpleVec2::new(50, 10));
}

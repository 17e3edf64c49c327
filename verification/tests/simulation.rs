//! End-to-end tests of the simulation core, driven through the public tick
//! entry point on concrete states.

use breakout::ball::Ball;
use breakout::brick::{alive_count, find_first_colliding, init_bricks, Brick};
use breakout::config::{
    BALL_RADIUS, BALL_SPEED, BRICKS_START_X, BRICK_HEIGHT, BRICK_PADDING, BRICK_WIDTH, DT_MAX,
    PADDLE_SPEED, PADDLE_START_X, PADDLE_WIDTH, PADDLE_Y, SCREEN_WIDTH, SPEED_SQ_MAX,
    SPEED_SQ_MIN, START_LIVES, SUBPIXELS,
};
use breakout::game::{GameState, Outcome};
use breakout::geom::Vec2;
use breakout::input::Input;

fn idle() -> Input {
    Input::new(false, false, false)
}

fn serve() -> Input {
    Input::new(false, false, true)
}

fn left() -> Input {
    Input::new(true, false, false)
}

fn right() -> Input {
    Input::new(false, true, false)
}

/// A 3-4-5 velocity of magnitude exactly `BALL_SPEED`.
fn diag_up_left() -> Vec2 {
    Vec2::new(-378_000, -504_000)
}

#[test]
fn initial_layout() {
    let g = GameState::init();
    assert_eq!(g.outcome, Outcome::Playing);
    assert_eq!(g.score, 0);
    assert_eq!(g.paddle.lives, START_LIVES);
    assert_eq!(g.paddle.rect.x, PADDLE_START_X);
    assert_eq!(g.paddle.rect.y, PADDLE_Y);
    assert_eq!(g.ball.pos.x, PADDLE_START_X + PADDLE_WIDTH / 2);
    assert_eq!(g.ball.pos.y, PADDLE_Y - BALL_RADIUS);
    assert!(!g.ball.active);
    assert_eq!(g.ball.vel.x, 0);
    assert_eq!(g.ball.vel.y, 0);
}

#[test]
fn brick_grid_layout() {
    let bricks = init_bricks();
    assert_eq!(alive_count(&bricks), 48);
    // Row 0, column 0.
    assert_eq!(bricks[0].pos.x, BRICKS_START_X);
    assert_eq!(bricks[0].pos.y, BRICK_PADDING);
    assert_eq!(bricks[0].score, 10);
    // The grid is centred: 8 bricks of 75 px with 20 px of padding span
    // 740 px, so it starts 80 px in.
    assert_eq!(BRICKS_START_X, 80 * SUBPIXELS);
    // Row 0, column 7.
    assert_eq!(bricks[7].pos.x, BRICKS_START_X + 7 * (BRICK_PADDING + BRICK_WIDTH));
    // Row 5, column 7: the last brick, ending 80 px short of the right edge.
    assert_eq!(bricks[47].pos.x, 745 * SUBPIXELS);
    assert_eq!(bricks[47].pos.x + BRICK_WIDTH, (900 - 80) * SUBPIXELS);
    assert_eq!(bricks[47].pos.y, BRICK_PADDING + 5 * (BRICK_PADDING + BRICK_HEIGHT));
    assert_eq!(bricks[47].score, 60);
    // Reward tiers by row, and the total worth of a fresh field.
    let total: i64 = bricks.iter().map(|b| b.score).sum();
    assert_eq!(total, 1680);
    for (i, b) in bricks.iter().enumerate() {
        assert_eq!(b.score, 10 + (i as i64 / 8) * 10);
    }
}

#[test]
fn paddle_moves_and_clamps() {
    let mut g = GameState::init();
    // 100 ms of holding left: exactly 45 pixels.
    g.tick(left(), 100);
    assert_eq!(g.paddle.rect.x, PADDLE_START_X - 45 * SUBPIXELS);
    assert_eq!(g.paddle.vel_x, -PADDLE_SPEED);
    // Keep holding left for a long time: the paddle pins to the left edge
    // and never leaves the screen.
    for _ in 0..100 {
        g.tick(left(), 100);
        assert!(g.paddle.rect.x >= 0);
        assert!(g.paddle.rect.x <= SCREEN_WIDTH - PADDLE_WIDTH);
    }
    assert_eq!(g.paddle.rect.x, 0);
    // And back to the right edge.
    for _ in 0..200 {
        g.tick(right(), 100);
        assert!(g.paddle.rect.x >= 0);
        assert!(g.paddle.rect.x <= SCREEN_WIDTH - PADDLE_WIDTH);
    }
    assert_eq!(g.paddle.rect.x, SCREEN_WIDTH - PADDLE_WIDTH);
}

#[test]
fn left_wins_when_both_held() {
    let mut g = GameState::init();
    g.tick(Input::new(true, true, false), 100);
    assert_eq!(g.paddle.vel_x, -PADDLE_SPEED);
    assert_eq!(g.paddle.rect.x, PADDLE_START_X - 45 * SUBPIXELS);
}

#[test]
fn stalled_frame_is_clamped() {
    let mut g1 = GameState::init();
    let mut g2 = GameState::init();
    g1.tick(left(), DT_MAX);
    g2.tick(left(), 1_000_000);
    assert_eq!(g1.paddle.rect.x, g2.paddle.rect.x);
    assert_eq!(g1.paddle.rect.x, PADDLE_START_X - 225 * SUBPIXELS);
}

#[test]
fn serve_sends_ball_straight_up() {
    let mut g = GameState::init();
    let o = g.tick(serve(), 0);
    assert_eq!(o, Outcome::Playing);
    assert!(g.ball.active);
    assert_eq!(g.ball.vel.x, 0);
    assert_eq!(g.ball.vel.y, -BALL_SPEED);
    // A second serve input has no further effect on an active ball.
    g.tick(serve(), 0);
    assert_eq!(g.ball.vel.y, -BALL_SPEED);
}

#[test]
fn unserved_ball_rides_paddle() {
    let mut g = GameState::init();
    g.tick(right(), 100);
    assert!(!g.ball.active);
    assert_eq!(g.ball.vel.y, 0);
    // The riding ball's horizontal velocity is the paddle's own, so it
    // stays glued over the paddle's centre.
    assert_eq!(g.ball.vel.x, PADDLE_SPEED);
    assert_eq!(g.ball.pos.x, g.paddle.rect.x + PADDLE_WIDTH / 2);
    assert_eq!(g.ball.pos.y, PADDLE_Y - BALL_RADIUS);
    // And back the other way.
    g.tick(left(), 100);
    assert_eq!(g.ball.vel.x, -PADDLE_SPEED);
    assert_eq!(g.ball.pos.x, g.paddle.rect.x + PADDLE_WIDTH / 2);
    assert_eq!(g.ball.pos.x, PADDLE_START_X + PADDLE_WIDTH / 2);
}

#[test]
fn ball_speed_stays_in_band() {
    let mut g = GameState::init();
    g.tick(serve(), 16);
    for i in 0..2000 {
        let input = match i % 5 {
            0 => left(),
            1 => right(),
            _ => idle(),
        };
        let o = g.tick(input, 16);
        if o != Outcome::Playing {
            break;
        }
        if g.ball.active {
            let m2 = g.ball.vel.x * g.ball.vel.x + g.ball.vel.y * g.ball.vel.y;
            assert!(SPEED_SQ_MIN <= m2 && m2 <= SPEED_SQ_MAX, "speed out of band: {}", m2);
        }
    }
}

#[test]
fn left_wall_bounces_ball_right() {
    let mut g = GameState::init();
    g.ball = Ball { pos: Vec2::new(15 * SUBPIXELS, 400 * SUBPIXELS), vel: diag_up_left(), active: true };
    let o = g.tick(idle(), 16);
    assert_eq!(o, Outcome::Playing);
    assert!(g.ball.vel.x > 0);
    assert_eq!(g.ball.vel.x, 378_000);
    assert_eq!(g.ball.vel.y, -504_000);
}

#[test]
fn right_wall_bounces_ball_left() {
    let mut g = GameState::init();
    g.ball = Ball {
        pos: Vec2::new(890 * SUBPIXELS, 400 * SUBPIXELS),
        vel: Vec2::new(378_000, -504_000),
        active: true,
    };
    g.tick(idle(), 16);
    assert!(g.ball.vel.x < 0);
    assert_eq!(g.ball.vel.x, -378_000);
}

#[test]
fn top_wall_bounces_ball_down() {
    let mut g = GameState::init();
    g.ball = Ball {
        pos: Vec2::new(450 * SUBPIXELS, 320 * SUBPIXELS),
        vel: Vec2::new(378_000, -504_000),
        active: true,
    };
    // Out of brick territory, moving up: let it fly into the top wall.
    let mut bounced = false;
    for _ in 0..200 {
        g.tick(idle(), 16);
        if g.ball.vel.y > 0 {
            bounced = true;
            break;
        }
    }
    assert!(bounced);
    assert_eq!(g.ball.vel.y, 504_000);
}

#[test]
fn bottom_with_last_life_loses_without_reset() {
    let mut g = GameState::init();
    g.paddle.lives = 1;
    g.ball = Ball {
        pos: Vec2::new(100 * SUBPIXELS, 790 * SUBPIXELS),
        vel: Vec2::new(0, BALL_SPEED),
        active: true,
    };
    let o = g.tick(idle(), 16);
    assert_eq!(o, Outcome::Lost);
    assert_eq!(g.outcome, Outcome::Lost);
    assert_eq!(g.paddle.lives, 0);
    // Neither the ball nor the paddle was reset.
    assert_eq!(g.ball.pos.x, 100 * SUBPIXELS);
    assert_eq!(g.ball.pos.y, 790 * SUBPIXELS);
    assert!(g.ball.active);
    assert_eq!(g.paddle.rect.x, PADDLE_START_X);
}

#[test]
fn bottom_with_lives_left_respawns() {
    let mut g = GameState::init();
    g.score = 120;
    g.ball = Ball {
        pos: Vec2::new(100 * SUBPIXELS, 790 * SUBPIXELS),
        vel: Vec2::new(0, BALL_SPEED),
        active: true,
    };
    let o = g.tick(idle(), 16);
    assert_eq!(o, Outcome::Playing);
    assert_eq!(g.paddle.lives, START_LIVES - 1);
    // Paddle and ball are back in the initial layout, ball unserved.
    assert_eq!(g.paddle.rect.x, PADDLE_START_X);
    assert_eq!(g.ball.pos.x, PADDLE_START_X + PADDLE_WIDTH / 2);
    assert_eq!(g.ball.pos.y, PADDLE_Y - BALL_RADIUS);
    assert!(!g.ball.active);
    assert_eq!(g.ball.vel.x, 0);
    assert_eq!(g.ball.vel.y, 0);
    // Score and bricks survive the life loss.
    assert_eq!(g.score, 120);
    assert_eq!(alive_count(&g.bricks), 48);
}

#[test]
fn brick_hit_bounces_on_minimum_penetration_axis() {
    // A brick at pixel rectangle (100, 100, 75, 25) and a ball fully inside
    // it, 10 px from its left edge but 12 px from its top edge: the
    // horizontal penetration is smaller, so the bounce is horizontal.
    let mut g = GameState::init();
    g.bricks = vec![Brick { pos: Vec2::new(100 * SUBPIXELS, 100 * SUBPIXELS), score: 35 }];
    g.score = 7;
    g.ball = Ball {
        pos: Vec2::new(110 * SUBPIXELS, 112 * SUBPIXELS),
        vel: diag_up_left(),
        active: true,
    };
    let o = g.tick(idle(), 0);
    // Horizontal bounce: x velocity inverted, y velocity kept.
    assert_eq!(g.ball.vel.x, 378_000);
    assert_eq!(g.ball.vel.y, -504_000);
    // Repositioned flush against the left edge; y untouched.
    assert_eq!(g.ball.pos.x, (100 - 20) * SUBPIXELS);
    assert_eq!(g.ball.pos.y, 112 * SUBPIXELS);
    // The brick is gone and its reward was added exactly once.
    assert_eq!(alive_count(&g.bricks), 0);
    assert_eq!(g.score, 7 + 35);
    // It was the last brick, so this same tick reports the win.
    assert_eq!(o, Outcome::Won);
    assert_eq!(g.outcome, Outcome::Won);
}

#[test]
fn first_brick_in_order_is_hit_not_the_nearest() {
    let mut g = GameState::init();
    g.bricks = vec![
        Brick { pos: Vec2::new(100 * SUBPIXELS, 100 * SUBPIXELS), score: 10 },
        Brick { pos: Vec2::new(110 * SUBPIXELS, 100 * SUBPIXELS), score: 20 },
    ];
    // The ball overlaps both bricks; the first one in the field's order is
    // the one that goes, even though the second is nearer.
    g.ball = Ball {
        pos: Vec2::new(112 * SUBPIXELS, 112 * SUBPIXELS),
        vel: diag_up_left(),
        active: true,
    };
    let hit = find_first_colliding(&g.bricks, g.ball.pos, BALL_RADIUS);
    assert_eq!(hit, Some(0));
    let o = g.tick(idle(), 0);
    assert_eq!(o, Outcome::Playing);
    assert_eq!(g.score, 10);
    assert_eq!(alive_count(&g.bricks), 1);
    assert_eq!(g.bricks[0].score, 20);
}

#[test]
fn paddle_english_steers_the_ball() {
    let mut g = GameState::init();
    // A ball falling straight onto the paddle while the paddle moves right:
    // the bounce sends it up and the english tilts it to the right.
    g.ball = Ball {
        pos: Vec2::new(450 * SUBPIXELS, 765 * SUBPIXELS),
        vel: Vec2::new(0, BALL_SPEED),
        active: true,
    };
    g.tick(right(), 0);
    assert!(g.ball.vel.y < 0);
    assert!(g.ball.vel.x > 0);
    // And it sits exactly on the paddle's top edge.
    assert_eq!(g.ball.pos.y, PADDLE_Y - BALL_RADIUS);
}

#[test]
fn reset_is_idempotent() {
    let mut g = GameState::init();
    g.tick(serve(), 16);
    for _ in 0..50 {
        g.tick(right(), 16);
    }
    g.reset();
    let first = g.clone();
    g.reset();
    assert_eq!(g, first);
    assert_eq!(g.score, 0);
    assert_eq!(g.paddle.lives, START_LIVES);
    assert_eq!(alive_count(&g.bricks), 48);
    assert_eq!(g.outcome, Outcome::Playing);
    // And the reset state is the same as a fresh match.
    assert_eq!(g, GameState::init());
}

#[test]
fn empty_field_never_wins_by_itself() {
    // Winning takes a brick destroyed on that very tick; a field that is
    // already empty keeps the match playing.
    let mut g = GameState::init();
    g.bricks = vec![];
    g.tick(serve(), 16);
    let o = g.tick(idle(), 16);
    assert_eq!(o, Outcome::Playing);
    assert_eq!(alive_count(&g.bricks), 0);
}

#[test]
fn idle_unserved_ball_stays_put() {
    // Normalizing the zero velocity is a defined no-op: with the paddle at
    // rest, the unserved ball does not move at all.
    let mut g = GameState::init();
    for _ in 0..10 {
        g.tick(idle(), 100);
    }
    assert_eq!(g.ball.pos.x, PADDLE_START_X + PADDLE_WIDTH / 2);
    assert_eq!(g.ball.pos.y, PADDLE_Y - BALL_RADIUS);
    assert_eq!(g.ball.vel.x, 0);
    assert_eq!(g.ball.vel.y, 0);
    assert!(!g.ball.active);
}

#[test]
fn full_rally_reaches_a_terminal_outcome() {
    // Play blindly: serve, then hold the paddle still.  The ball must keep
    // flying, scoring must be monotone, and the match must stay coherent.
    let mut g = GameState::init();
    let mut o = g.tick(serve(), 16);
    let mut last_score = g.score;
    for _ in 0..20_000 {
        if o != Outcome::Playing {
            break;
        }
        o = g.tick(idle(), 16);
        assert!(g.score >= last_score);
        last_score = g.score;
        assert!(g.paddle.rect.x >= 0 && g.paddle.rect.x <= SCREEN_WIDTH - PADDLE_WIDTH);
        assert!(g.paddle.lives >= 0);
    }
    // Whatever happened, the stored outcome and the returned one agree.
    assert_eq!(g.outcome, o);
}

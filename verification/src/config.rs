//! Fixed configuration of the playfield.
//!
//! Lengths are in micropixels (1 pixel = `SUBPIXELS` units), velocities in
//! micropixels per millisecond and time steps in milliseconds.

use vstd::prelude::*;

verus! {

/// Number of length units per pixel.
pub const SUBPIXELS: i64 = 1_000_000;

pub const SCREEN_WIDTH: i64 = 900 * SUBPIXELS;
pub const SCREEN_HEIGHT: i64 = 800 * SUBPIXELS;

pub const PADDLE_WIDTH: i64 = 150 * SUBPIXELS;
pub const PADDLE_HEIGHT: i64 = 10 * SUBPIXELS;
/// Vertical position of the paddle, two paddle heights above the bottom edge.
pub const PADDLE_Y: i64 = SCREEN_HEIGHT - 2 * PADDLE_HEIGHT;
/// Horizontal start position: the paddle is centred on the screen.
pub const PADDLE_START_X: i64 = 375 * SUBPIXELS;
/// Horizontal paddle speed: 450 pixels per second.
pub const PADDLE_SPEED: i64 = 450_000;
pub const START_LIVES: i64 = 3;

pub const BALL_RADIUS: i64 = 20 * SUBPIXELS;
/// Fixed ball speed, 1.4 times the paddle speed: 630 pixels per second.
pub const BALL_SPEED: i64 = 630_000;

/// Brick width: one twelfth of the screen width.
pub const BRICK_WIDTH: i64 = 75 * SUBPIXELS;
pub const BRICK_HEIGHT: i64 = 25 * SUBPIXELS;
pub const BRICK_PADDING: i64 = 20 * SUBPIXELS;
pub const BRICK_ROWS: usize = 6;
pub const BRICK_COLS: usize = 8;
/// Horizontal start of the brick grid, centring the grid on the screen:
/// 8 bricks of 75 px with 20 px of padding between them span 740 px, which
/// leaves 80 px on either side.
pub const BRICKS_START_X: i64 = 80 * SUBPIXELS;
/// A brick in row `r` is worth `BRICK_BASE_SCORE + r * BRICK_SCORE_STEP`.
pub const BRICK_BASE_SCORE: i64 = 10;
pub const BRICK_SCORE_STEP: i64 = 10;
/// Largest reward a single brick can carry (bottom row of the grid).
pub const BRICK_MAX_SCORE: i64 = 60;
/// `BRICK_MAX_SCORE * BRICK_ROWS * BRICK_COLS`: with every brick worth at
/// most `BRICK_MAX_SCORE`, the accumulated score plus the potential of the
/// remaining bricks never exceeds this cap.
pub const SCORE_CAP: i64 = 2880;

/// Largest time step a single tick will advance by.  A caller-supplied step
/// beyond this (a stalled frame) is clamped, so that one tick never moves
/// the ball by more than `BALL_SPEED * DT_MAX` units.
pub const DT_MAX: i64 = 500;

/// How far outside the screen the ball centre can transiently get: one
/// maximal step plus slack.
pub const POS_MARGIN: i64 = 400 * SUBPIXELS;

/// Bound on the magnitude of either velocity component at any point of a
/// tick, including the transient states between collision responses.
pub const VEL_LIMIT: i64 = 800_000;

/// `BALL_SPEED * BALL_SPEED - 4 * BALL_SPEED`: lower end of the band that
/// the squared magnitude of a renormalized velocity is guaranteed to lie in.
pub const SPEED_SQ_MIN: i64 = 396_897_480_000;

/// `BALL_SPEED * BALL_SPEED + 8 * BALL_SPEED`: upper end of that band.
pub const SPEED_SQ_MAX: i64 = 396_905_040_000;

/// `(BALL_SPEED / 2) * (BALL_SPEED / 2)`: how small the squared magnitude of
/// a velocity may get before renormalization still guarantees the band.
pub const MIN_PRENORM_SQ: i64 = 99_225_000_000;

} // verus!

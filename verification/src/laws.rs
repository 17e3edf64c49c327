//! The guarantees the simulation gives across its components, stated and
//! proved over the tick transition itself.

use vstd::prelude::*;
use crate::ball::{
    ball_init_v, bottom_out, brick_step, pen_x, pen_y, ride_serve_step, BallV,
};
use crate::brick::{first_hit, BrickV};
use crate::config::{
    BALL_RADIUS, BALL_SPEED, PADDLE_WIDTH, SCREEN_WIDTH, SPEED_SQ_MAX, SPEED_SQ_MIN, START_LIVES,
};
use crate::game::{
    clamp_dt, contact_ball, game_wf, initial_state, lemma_tick_preserves_wf, pre_brick_ball,
    tick_spec, GameStateV, Outcome,
};
use crate::geom::{lemma_normalize_basic, sq_mag, Vec2V};
use crate::input::Input;
use crate::paddle::{paddle_init_v, paddle_step, paddle_wf, PaddleV};

verus! {

use crate::ball::paddle_overlap;

/// The paddle never leaves the screen: after any tick of a well-formed
/// paddle, its position is within `[0, SCREEN_WIDTH - PADDLE_WIDTH]`.
pub proof fn lemma_paddle_stays_on_screen(p: PaddleV, inp: Input, dt: int)
    requires
        paddle_wf(p),
    ensures
        0 <= paddle_step(p, inp, dt).rect.x <= SCREEN_WIDTH - PADDLE_WIDTH,
        paddle_wf(paddle_step(p, inp, dt)),
{
}

/// While a match keeps playing (and on a winning tick), an active ball's
/// squared speed stays in the fixed band around `BALL_SPEED * BALL_SPEED`:
/// the speed is an invariant of the simulation, up to integer rounding.
pub proof fn lemma_ball_speed_constant(s: GameStateV, inp: Input, dt: int)
    requires
        game_wf(s),
        s.outcome == Outcome::Playing,
        dt >= 0,
    ensures
        (tick_spec(s, inp, dt).1 != Outcome::Lost && tick_spec(s, inp, dt).0.ball.active)
            ==> SPEED_SQ_MIN <= sq_mag(tick_spec(s, inp, dt).0.ball.vel) <= SPEED_SQ_MAX,
{
    lemma_tick_preserves_wf(s, inp, dt);
}

/// Ball versus left wall: a ball past the left wall and moving left is
/// moving right after one tick.  The guard excludes the cases where
/// something else also touches the ball on the same tick: a simultaneous
/// paddle overlap (whose english could cancel the rebound), a simultaneous
/// bottom exit (which costs a life instead), and a simultaneous brick hit
/// (which could bounce the ball a second time).
pub proof fn lemma_left_wall_bounce(s: GameStateV, inp: Input, dt: int)
    requires
        game_wf(s),
        s.outcome == Outcome::Playing,
        dt >= 0,
        s.ball.active,
        s.ball.pos.x - BALL_RADIUS < 0,
        s.ball.vel.x < 0,
        !paddle_overlap(s.ball, paddle_step(s.paddle, inp, clamp_dt(dt))),
        !bottom_out(contact_ball(s, inp, dt)),
        first_hit(s.bricks, contact_ball(s, inp, dt).pos, BALL_RADIUS as int) is None,
    ensures
        tick_spec(s, inp, dt).0.ball.vel.x > 0,
{
    let b3 = contact_ball(s, inp, dt);
    assert(b3.vel.x == -s.ball.vel.x);
    lemma_normalize_basic(brick_step(pre_brick_ball(s, inp, dt), s.bricks).0.vel);
}

/// Bottom exit on the last life: the tick reports `Lost`, the life count
/// reaches exactly zero, and neither the ball nor the paddle is reset —
/// both keep the state they had when the loss was detected.
pub proof fn lemma_bottom_out_last_life(s: GameStateV, inp: Input, dt: int)
    requires
        game_wf(s),
        s.outcome == Outcome::Playing,
        dt >= 0,
        bottom_out(contact_ball(s, inp, dt)),
        s.paddle.lives == 1,
    ensures
        tick_spec(s, inp, dt).1 == Outcome::Lost,
        tick_spec(s, inp, dt).0.paddle.lives == 0,
        tick_spec(s, inp, dt).0.ball == contact_ball(s, inp, dt),
        tick_spec(s, inp, dt).0.paddle.rect == paddle_step(s.paddle, inp, clamp_dt(dt)).rect,
        tick_spec(s, inp, dt).0.bricks == s.bricks,
        tick_spec(s, inp, dt).0.score == s.score,
{
}

/// Bottom exit with lives to spare: exactly one life is lost, and paddle
/// and ball are restored to their initial layout with the ball unserved.
/// The guard excludes a brick overlapping the respawn point, which would
/// bounce the freshly placed ball on the same tick.
pub proof fn lemma_bottom_out_respawn(s: GameStateV, inp: Input, dt: int)
    requires
        game_wf(s),
        s.outcome == Outcome::Playing,
        dt >= 0,
        bottom_out(contact_ball(s, inp, dt)),
        s.paddle.lives >= 2,
        first_hit(s.bricks, ball_init_v(paddle_init_v()).pos, BALL_RADIUS as int) is None,
    ensures
        tick_spec(s, inp, dt).1 == Outcome::Playing,
        tick_spec(s, inp, dt).0.paddle.lives == s.paddle.lives - 1,
        tick_spec(s, inp, dt).0.paddle.rect == paddle_init_v().rect,
        !tick_spec(s, inp, dt).0.ball.active,
        tick_spec(s, inp, dt).0.ball.pos == ball_init_v(paddle_init_v()).pos,
        tick_spec(s, inp, dt).0.ball.vel == (Vec2V { x: 0, y: 0 }),
{
    let b4 = pre_brick_ball(s, inp, dt);
    assert(brick_step(b4, s.bricks).0 == b4);
    let dtc = clamp_dt(dt);
    assert(b4.vel.x * dtc == 0 && b4.vel.y * dtc == 0) by (nonlinear_arith)
        requires
            b4.vel.x == 0,
            b4.vel.y == 0,
    ;
}

/// Ball versus brick with the horizontal penetration smaller than the
/// vertical one: the bounce is horizontal — the horizontal velocity is
/// inverted and the vertical one untouched — the hit brick leaves the
/// field, and its reward is the returned score delta.
pub proof fn lemma_brick_bounce_horizontal(b: BallV, s: Seq<BrickV>, i: int)
    requires
        first_hit(s, b.pos, BALL_RADIUS as int) == Some(i),
        0 <= i < s.len(),
        pen_x(b, s[i]) < pen_y(b, s[i]),
    ensures
        brick_step(b, s).0.vel.x == -b.vel.x,
        brick_step(b, s).0.vel.y == b.vel.y,
        brick_step(b, s).0.pos.y == b.pos.y,
        brick_step(b, s).1 == s.remove(i),
        brick_step(b, s).2 == s[i].score,
        brick_step(b, s).3 == (s.len() == 1),
{
}

/// The last brick wins the match on the very tick it is destroyed, and a
/// tick wins only that way: `Won` is reported exactly when the tick is not
/// a terminal loss, a brick is hit, and that brick was the last one.
pub proof fn lemma_last_brick_wins(s: GameStateV, inp: Input, dt: int)
    requires
        game_wf(s),
        s.outcome == Outcome::Playing,
        dt >= 0,
    ensures
        tick_spec(s, inp, dt).1 == Outcome::Won <==> {
            &&& !(bottom_out(contact_ball(s, inp, dt)) && s.paddle.lives == 1)
            &&& first_hit(s.bricks, pre_brick_ball(s, inp, dt).pos, BALL_RADIUS as int) is Some
            &&& s.bricks.len() == 1
        },
{
}

/// A full reset lands in the one fixed initial state: no score, all lives,
/// a full grid, the ball resting unserved on the centred paddle.  Because
/// the state is a constant, consecutive resets produce identical layouts.
pub proof fn lemma_initial_state_fixed()
    ensures
        game_wf(initial_state()),
        initial_state().score == 0,
        initial_state().paddle.lives == START_LIVES,
        initial_state().outcome == Outcome::Playing,
        !initial_state().ball.active,
        initial_state().bricks.len() == 48,
{
    assert forall|i: int| 0 <= i < initial_state().bricks.len() implies crate::brick::brick_wf(
        #[trigger] initial_state().bricks[i],
    ) by {
        assert(0 <= i / 8 <= 5);
        assert(0 <= i % 8 <= 7);
    }
}

/// Serve gating: on a serve input, an unserved ball becomes active with a
/// vertical velocity of exactly `-BALL_SPEED`; the transition itself leaves
/// the horizontal velocity to the paddle slaving alone, and the position
/// untouched.
pub proof fn lemma_serve_transition(b: BallV, paddle_vel_x: int)
    requires
        !b.active,
    ensures
        ride_serve_step(b, paddle_vel_x, true).active,
        ride_serve_step(b, paddle_vel_x, true).vel.y == -BALL_SPEED,
        ride_serve_step(b, paddle_vel_x, true).vel.x == paddle_vel_x,
        ride_serve_step(b, paddle_vel_x, true).pos == b.pos,
{
}

/// While the ball stays unserved, no serve input arriving or not arriving
/// ever gives it a vertical velocity: it only rides the paddle.
pub proof fn lemma_unserved_ball_rides(b: BallV, paddle_vel_x: int)
    requires
        !b.active,
        b.vel.y == 0,
    ensures
        !ride_serve_step(b, paddle_vel_x, false).active,
        ride_serve_step(b, paddle_vel_x, false).vel.y == 0,
        ride_serve_step(b, paddle_vel_x, false).vel.x == paddle_vel_x,
{
}

} // verus!

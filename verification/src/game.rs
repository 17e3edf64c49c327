//! The match controller: owns the paddle, the ball and the brick field,
//! runs the fixed per-tick update order, and decides the lifecycle
//! transitions (serve, play, life loss, win, game over).

use vstd::prelude::*;
use crate::ball::{
    advance_step, ball_init_v, ball_vel_wf, bottom_out, brick_step, paddle_bounce_step,
    ride_serve_step, wall_step, Ball, BallV,
};
use crate::brick::{
    bricks_view, bricks_wf, first_hit, init_bricks, lemma_first_hit_props, Brick, BrickV,
};
use crate::config::{
    BALL_RADIUS, BALL_SPEED, BRICK_MAX_SCORE, DT_MAX, MIN_PRENORM_SQ, SCORE_CAP, SCREEN_HEIGHT,
    SCREEN_WIDTH, VEL_LIMIT,
};
use crate::geom::{
    abs_v, lemma_neg_square, lemma_normalize_band, lemma_normalize_basic,
    lemma_shift_keeps_magnitude, lemma_square_bound, normalize_spec, pos_x_ok, pos_y_ok, sq_mag,
};
use crate::input::Input;
use crate::paddle::{paddle_init_v, paddle_step, paddle_wf, Paddle, PaddleV};

verus! {

/// The externally visible state of a match.
#[derive(Clone, Copy, PartialEq, Eq, Structural, Debug)]
pub enum Outcome {
    Playing,
    Won,
    Lost,
}

/// One match: the paddle (which carries the lives), the ball, the brick
/// field, the accumulated score and the lifecycle state.
#[derive(Clone, PartialEq, Eq, Debug)]
pub struct GameState {
    pub paddle: Paddle,
    pub ball: Ball,
    pub bricks: Vec<Brick>,
    pub score: i64,
    pub outcome: Outcome,
}

#[verifier::ext_equal]
pub ghost struct GameStateV {
    pub paddle: PaddleV,
    pub ball: BallV,
    pub bricks: Seq<BrickV>,
    pub score: int,
    pub outcome: Outcome,
}

impl View for GameState {
    type V = GameStateV;

    open spec fn view(&self) -> GameStateV {
        GameStateV {
            paddle: self.paddle@,
            ball: self.ball@,
            bricks: bricks_view(self.bricks@),
            score: self.score as int,
            outcome: self.outcome,
        }
    }
}

/// The match invariant.  The velocity part of the ball's well-formedness is
/// only claimed while the match is still playing: a terminal tick stores the
/// ball exactly as it flew, and a terminal match is never ticked again.
pub open spec fn game_wf(s: GameStateV) -> bool {
    &&& paddle_wf(s.paddle)
    &&& pos_x_ok(s.ball.pos.x)
    &&& pos_y_ok(s.ball.pos.y)
    &&& (s.outcome == Outcome::Playing ==> ball_vel_wf(s.ball))
    &&& bricks_wf(s.bricks)
    &&& 0 <= s.score
    &&& s.score + BRICK_MAX_SCORE * s.bricks.len() <= SCORE_CAP
    &&& (s.outcome == Outcome::Playing ==> s.paddle.lives >= 1)
}

/// The state a fresh match (and a full reset) produces.
pub open spec fn initial_state() -> GameStateV {
    GameStateV {
        paddle: paddle_init_v(),
        ball: ball_init_v(paddle_init_v()),
        bricks: crate::brick::initial_bricks(),
        score: 0,
        outcome: Outcome::Playing,
    }
}

/// The time step a tick actually advances by: stalled frames are clamped.
pub open spec fn clamp_dt(dt: int) -> int {
    if dt > DT_MAX {
        DT_MAX as int
    } else {
        dt
    }
}

/// The ball after the contact phases of a tick: serve gating, paddle
/// bounce, then wall bounces — before the bottom edge is considered.
pub open spec fn contact_ball(s: GameStateV, inp: Input, dt: int) -> BallV {
    let p1 = paddle_step(s.paddle, inp, clamp_dt(dt));
    wall_step(paddle_bounce_step(ride_serve_step(s.ball, p1.vel_x, inp.serve), p1))
}

/// The paddle a life-loss reset produces: freshly laid out, with the
/// decremented life count.
pub open spec fn reset_paddle(lives: int) -> PaddleV {
    PaddleV { rect: paddle_init_v().rect, vel_x: 0, lives }
}

/// The ball that enters the brick phase of a tick: either the contact-phase
/// ball, or — after a survivable bottom exit — the freshly reset ball.
pub open spec fn pre_brick_ball(s: GameStateV, inp: Input, dt: int) -> BallV {
    if bottom_out(contact_ball(s, inp, dt)) {
        ball_init_v(paddle_init_v())
    } else {
        contact_ball(s, inp, dt)
    }
}

/// One full tick.  Order of operations: (1) paddle update, (2) ball serve
/// gating, paddle bounce and wall bounces, (3) bottom-edge handling — a
/// terminal loss stops the tick, a survivable one resets paddle and ball,
/// (4) brick collision and score accumulation, (5) speed renormalization
/// and integration, (6) the outcome.
pub open spec fn tick_spec(s: GameStateV, inp: Input, dt: int) -> (GameStateV, Outcome) {
    let dtc = clamp_dt(dt);
    let p1 = paddle_step(s.paddle, inp, dtc);
    let b3 = contact_ball(s, inp, dt);
    if bottom_out(b3) && s.paddle.lives - 1 == 0 {
        let state = GameStateV {
            paddle: PaddleV { rect: p1.rect, vel_x: p1.vel_x, lives: 0 },
            ball: b3,
            bricks: s.bricks,
            score: s.score,
            outcome: Outcome::Lost,
        };
        (state, Outcome::Lost)
    } else {
        let p2 = if bottom_out(b3) {
            reset_paddle(s.paddle.lives - 1)
        } else {
            p1
        };
        let b4 = pre_brick_ball(s, inp, dt);
        let hit = brick_step(b4, s.bricks);
        let b6 = advance_step(hit.0, dtc);
        let outcome = if hit.3 {
            Outcome::Won
        } else {
            Outcome::Playing
        };
        let state = GameStateV {
            paddle: p2,
            ball: b6,
            bricks: hit.1,
            score: s.score + hit.2,
            outcome,
        };
        (state, outcome)
    }
}

/// A tick keeps the match invariant, never lowers the score, and reports
/// the outcome it stores.  Unless the tick ends the match in a loss, the
/// stored ball also satisfies the velocity invariant (in particular, an
/// active ball's speed lies in the renormalization band).
#[verifier::rlimit(80)]
pub proof fn lemma_tick_preserves_wf(s: GameStateV, inp: Input, dt: int)
    requires
        game_wf(s),
        s.outcome == Outcome::Playing,
        dt >= 0,
    ensures
        game_wf(tick_spec(s, inp, dt).0),
        tick_spec(s, inp, dt).0.score >= s.score,
        tick_spec(s, inp, dt).0.outcome == tick_spec(s, inp, dt).1,
        tick_spec(s, inp, dt).1 != Outcome::Lost ==> ball_vel_wf(tick_spec(s, inp, dt).0.ball),
{
    let dtc = clamp_dt(dt);
    let p1 = paddle_step(s.paddle, inp, dtc);
    let b0 = s.ball;
    let b1 = ride_serve_step(b0, p1.vel_x, inp.serve);
    let b2 = paddle_bounce_step(b1, p1);
    let b3 = wall_step(b2);

    // Component bounds and magnitude through the contact phases.
    lemma_square_bound(b1.vel.x, VEL_LIMIT as int);
    lemma_square_bound(b1.vel.y, VEL_LIMIT as int);
    lemma_neg_square(b1.vel.y);
    lemma_neg_square(abs_v(b1.vel.y));
    lemma_neg_square(b2.vel.x);
    lemma_neg_square(b2.vel.y);
    lemma_neg_square(b3.vel.x);
    lemma_neg_square(b3.vel.y);
    assert(abs_v(b2.vel.x) <= 765_000 && abs_v(b2.vel.y) <= BALL_SPEED);
    assert(sq_mag(b2.vel) == b2.vel.x * b2.vel.x + b1.vel.y * b1.vel.y);
    if b0.active {
        // The active ball enters with its speed in the band; the paddle
        // bounce shifts the horizontal component by at most the english.
        assert(sq_mag(b1.vel) >= 629_997 * 629_997);
        lemma_shift_keeps_magnitude(
            b1.vel.x,
            -abs_v(b1.vel.y),
            b2.vel.x,
            135_000,
            629_997,
        );
        assert(sq_mag(b2.vel) >= 494_997 * 494_997);
        assert(sq_mag(b2.vel) >= MIN_PRENORM_SQ);
    } else {
        if inp.serve {
            assert(b1.vel.y == -BALL_SPEED);
            assert(sq_mag(b2.vel) >= MIN_PRENORM_SQ) by (nonlinear_arith)
                requires
                    sq_mag(b2.vel) == b2.vel.x * b2.vel.x + b1.vel.y * b1.vel.y,
                    b1.vel.y == -630_000,
                    MIN_PRENORM_SQ == 99_225_000_000,
            ;
        } else {
            // Slaved to the paddle: the horizontal velocity is one of a few
            // exact values, the vertical one stays zero.
            assert(b1.vel.y == 0 && b2.vel.y == 0);
            assert(b2.vel.x == 0 || b2.vel.x == 450_000 || b2.vel.x == -450_000 || b2.vel.x
                == 585_000 || b2.vel.x == -585_000);
            if b2.vel.x != 0 {
                assert(sq_mag(b2.vel) >= MIN_PRENORM_SQ) by (nonlinear_arith)
                    requires
                        sq_mag(b2.vel) == b2.vel.x * b2.vel.x,
                        b2.vel.x == 450_000 || b2.vel.x == -450_000 || b2.vel.x == 585_000
                            || b2.vel.x == -585_000,
                        MIN_PRENORM_SQ == 99_225_000_000,
                ;
            } else {
                assert(b2.vel.x == 0 && b2.vel.y == 0);
            }
        }
    }
    assert(sq_mag(b3.vel) == sq_mag(b2.vel));
    assert(abs_v(b3.vel.x) == abs_v(b2.vel.x) && abs_v(b3.vel.y) == abs_v(b2.vel.y));
    assert(b3.vel.x == 0 && b3.vel.y == 0 ==> b2.vel.x == 0 && b2.vel.y == 0);
    assert(!b3.active ==> b3.vel.y == 0);
    // An unserved ball's velocity is the slaved one, with english at most:
    // never faster than the ball speed.
    assert(!b3.active ==> abs_v(b3.vel.x) <= 585_000);

    if bottom_out(b3) && s.paddle.lives - 1 == 0 {
        // Terminal loss: nothing moved after the contact phases.
        assert(game_wf(tick_spec(s, inp, dt).0));
    } else {
        let p2 = if bottom_out(b3) {
            reset_paddle(s.paddle.lives - 1)
        } else {
            p1
        };
        let b4 = if bottom_out(b3) {
            ball_init_v(paddle_init_v())
        } else {
            b3
        };
        // Sign-directed position bounds entering the brick phase.
        assert(b4.vel.x > 0 ==> b4.pos.x <= SCREEN_WIDTH);
        assert(b4.vel.x < 0 ==> b4.pos.x >= 0);
        assert(b4.vel.y > 0 ==> b4.pos.y <= SCREEN_HEIGHT - BALL_RADIUS);
        assert(b4.vel.y < 0 ==> b4.pos.y >= BALL_RADIUS);
        let hit = brick_step(b4, s.bricks);
        let b5 = hit.0;
        lemma_first_hit_props(s.bricks, b4.pos, BALL_RADIUS as int);
        lemma_neg_square(b4.vel.x);
        lemma_neg_square(b4.vel.y);
        if first_hit(s.bricks, b4.pos, BALL_RADIUS as int) is Some {
            let i = first_hit(s.bricks, b4.pos, BALL_RADIUS as int)->Some_0;
            assert(crate::brick::brick_wf(s.bricks[i]));
            s.bricks.remove_ensures(i);
            assert(bricks_wf(hit.1));
        }
        assert(sq_mag(b5.vel) == sq_mag(b4.vel));
        assert(abs_v(b5.vel.x) == abs_v(b4.vel.x) && abs_v(b5.vel.y) == abs_v(b4.vel.y));
        // Sign-directed position bounds after the brick phase, with one
        // ball radius of slack for a repositioning against a brick edge.
        assert(b5.vel.x > 0 ==> b5.pos.x <= SCREEN_WIDTH + BALL_RADIUS);
        assert(b5.vel.x < 0 ==> b5.pos.x >= -BALL_RADIUS);
        assert(b5.vel.y > 0 ==> b5.pos.y <= SCREEN_HEIGHT + BALL_RADIUS);
        assert(b5.vel.y < 0 ==> b5.pos.y >= -BALL_RADIUS);
        assert(pos_x_ok(b5.pos.x) && pos_y_ok(b5.pos.y));

        // The velocity the integration uses: renormalized for a ball in
        // flight, the slaved one for an unserved ball.
        let b6 = advance_step(b5, dtc);
        let n = if b5.active {
            normalize_spec(b5.vel)
        } else {
            b5.vel
        };
        if b5.active {
            lemma_normalize_basic(b5.vel);
            if !(b5.vel.x == 0 && b5.vel.y == 0) {
                lemma_normalize_band(b5.vel);
            }
        }
        assert(ball_vel_wf(b6));
        assert(-BALL_SPEED <= n.x <= BALL_SPEED && -BALL_SPEED <= n.y <= BALL_SPEED);
        assert(0 <= dtc <= DT_MAX);
        assert(-315_000_000 <= n.x * dtc <= 315_000_000) by (nonlinear_arith)
            requires
                -630_000 <= n.x <= 630_000,
                0 <= dtc <= 500,
        ;
        assert(-315_000_000 <= n.y * dtc <= 315_000_000) by (nonlinear_arith)
            requires
                -630_000 <= n.y <= 630_000,
                0 <= dtc <= 500,
        ;
        assert(n.x > 0 ==> b5.vel.x > 0);
        assert(n.x < 0 ==> b5.vel.x < 0);
        assert(n.y > 0 ==> b5.vel.y > 0);
        assert(n.y < 0 ==> b5.vel.y < 0);
        assert((n.x >= 0 ==> n.x * dtc >= 0) && (n.x <= 0 ==> n.x * dtc <= 0))
            by (nonlinear_arith)
            requires
                dtc >= 0,
        ;
        assert((n.y >= 0 ==> n.y * dtc >= 0) && (n.y <= 0 ==> n.y * dtc <= 0))
            by (nonlinear_arith)
            requires
                dtc >= 0,
        ;
        assert(pos_x_ok(b6.pos.x));
        assert(pos_y_ok(b6.pos.y));

        // Score and lives.
        assert(hit.2 >= 0 && s.score + hit.2 + BRICK_MAX_SCORE * hit.1.len() <= SCORE_CAP);
        assert(game_wf(tick_spec(s, inp, dt).0));
    }
}

impl GameState {
    /// A fresh match: paddle and ball in their initial layout, a full brick
    /// grid, no score, all lives, playing.
    pub fn init() -> (r: GameState)
        ensures
            r@ == initial_state(),
            game_wf(r@),
    {
        let paddle = Paddle::init();
        let ball = Ball::init(&paddle);
        let bricks = init_bricks();
        let g = GameState { paddle, ball, bricks, score: 0, outcome: Outcome::Playing };
        proof {
            assert(g@ =~= initial_state());
        }
        g
    }

    /// Full match restart: rebuilds paddle, ball and brick field and zeroes
    /// score and lives back to their starting values.  Deterministic, so
    /// consecutive resets produce identical states.
    pub fn reset(&mut self)
        ensures
            final(self)@ == initial_state(),
            game_wf(final(self)@),
    {
        *self = GameState::init();
    }

    /// Advance the match by one tick; see `tick_spec` for the exact
    /// transition.  Must only be called while the outcome is `Playing`;
    /// `dt_ms` is the elapsed time in milliseconds (clamped to `DT_MAX`).
    #[verifier::rlimit(80)]
    pub fn tick(&mut self, input: Input, dt_ms: i64) -> (o: Outcome)
        requires
            game_wf(old(self)@),
            old(self).outcome == Outcome::Playing,
            dt_ms >= 0,
        ensures
            final(self)@ == tick_spec(old(self)@, input, dt_ms as int).0,
            o == tick_spec(old(self)@, input, dt_ms as int).1,
            final(self).outcome == o,
            game_wf(final(self)@),
            final(self).score >= old(self).score,
    {
        proof {
            lemma_tick_preserves_wf(old(self)@, input, dt_ms as int);
        }
        let dt = if dt_ms > DT_MAX {
            DT_MAX
        } else {
            dt_ms
        };
        self.paddle.update(input, dt);
        self.ball.ride_or_serve(self.paddle.vel_x, input.serve);
        self.ball.bounce_off_paddle(&self.paddle);
        self.ball.bounce_walls();
        if self.ball.hits_bottom() {
            let lives = self.paddle.lives - 1;
            if lives == 0 {
                self.paddle.lives = lives;
                self.outcome = Outcome::Lost;
                proof {
                    assert(self@ =~= tick_spec(old(self)@, input, dt_ms as int).0);
                }
                return Outcome::Lost;
            }
            self.paddle = Paddle::init();
            self.ball = Ball::init(&self.paddle);
            self.paddle.lives = lives;
        }
        proof {
            lemma_first_hit_props(bricks_view(self.bricks@), self.ball@.pos, BALL_RADIUS as int);
        }
        let hit = self.ball.collide_with_bricks(&mut self.bricks);
        self.score = self.score + hit.0;
        self.ball.advance(dt);
        self.outcome = if hit.1 {
            Outcome::Won
        } else {
            Outcome::Playing
        };
        proof {
            assert(self@ =~= tick_spec(old(self)@, input, dt_ms as int).0);
        }
        self.outcome
    }
}

} // verus!

//! The ball: a circular actor with a velocity, collision resolution against
//! the paddle, the walls and the brick field, and the per-tick
//! renormalization of its speed.

use vstd::prelude::*;
use crate::brick::{bricks_view, bricks_wf, find_first_colliding, first_hit, Brick, BrickV};
use crate::config::{
    BALL_RADIUS, BALL_SPEED, BRICK_HEIGHT, BRICK_WIDTH, DT_MAX, SCREEN_HEIGHT, SCREEN_WIDTH,
    VEL_LIMIT,
};
use crate::geom::{
    abs_v, normalize_spec, normalize_to_speed, pos_x_ok, pos_y_ok, sq_mag, Vec2, Vec2V,
};
use crate::paddle::{paddle_wf, Paddle, PaddleV};

verus! {

use crate::config::{SPEED_SQ_MAX, SPEED_SQ_MIN};
use crate::geom::lemma_normalize_basic;

/// The ball: circle centre, velocity, and whether it has been served.
/// While `active` is false the ball rests above the paddle and rides its
/// horizontal velocity.
#[derive(Clone, Copy, PartialEq, Eq, Structural, Debug)]
pub struct Ball {
    pub pos: Vec2,
    pub vel: Vec2,
    pub active: bool,
}

#[verifier::ext_equal]
pub ghost struct BallV {
    pub pos: Vec2V,
    pub vel: Vec2V,
    pub active: bool,
}

impl View for Ball {
    type V = BallV;

    open spec fn view(&self) -> BallV {
        BallV { pos: self.pos@, vel: self.vel@, active: self.active }
    }
}

/// Velocity well-formedness between playing ticks: no component exceeds
/// the ball speed; an active ball's speed lies in the renormalization band
/// around `BALL_SPEED`, and an inactive ball only ever moves horizontally.
pub open spec fn ball_vel_wf(b: BallV) -> bool {
    &&& abs_v(b.vel.x) <= BALL_SPEED
    &&& abs_v(b.vel.y) <= BALL_SPEED
    &&& if b.active {
        SPEED_SQ_MIN <= sq_mag(b.vel) <= SPEED_SQ_MAX
    } else {
        b.vel.y == 0
    }
}

/// Well-formedness between ticks: the centre stays near the screen and the
/// velocity is as `ball_vel_wf` says.
pub open spec fn ball_wf(b: BallV) -> bool {
    &&& pos_x_ok(b.pos.x)
    &&& pos_y_ok(b.pos.y)
    &&& ball_vel_wf(b)
}

/// A fresh ball: resting on the paddle's horizontal centre, just above its
/// top edge, motionless and not yet served.
pub open spec fn ball_init_v(p: PaddleV) -> BallV {
    BallV {
        pos: Vec2V { x: p.rect.x + p.rect.w / 2, y: p.rect.y - BALL_RADIUS },
        vel: Vec2V { x: 0, y: 0 },
        active: false,
    }
}

/// Serve gating: while the ball is inactive its horizontal velocity is
/// slaved to the paddle's, and a serve input sends it straight up at the
/// ball speed.  Once active, neither has any further effect.
pub open spec fn ride_serve_step(b: BallV, paddle_vel_x: int, serve: bool) -> BallV {
    if b.active {
        b
    } else {
        BallV {
            pos: b.pos,
            vel: Vec2V {
                x: paddle_vel_x,
                y: if serve {
                    -BALL_SPEED as int
                } else {
                    b.vel.y
                },
            },
            active: serve,
        }
    }
}

/// The paddle collision test: rectangle versus the ball's bounding square,
/// with strict overlap on both axes.
pub open spec fn paddle_overlap(b: BallV, p: PaddleV) -> bool {
    &&& p.rect.x < b.pos.x + BALL_RADIUS
    &&& b.pos.x - BALL_RADIUS < p.rect.x + p.rect.w
    &&& p.rect.y < b.pos.y + BALL_RADIUS
    &&& b.pos.y - BALL_RADIUS < p.rect.y + p.rect.h
}

/// The steering ("english") effect: a bounce off the paddle adds three
/// tenths of the paddle's velocity to the ball's horizontal velocity.
pub open spec fn english(paddle_vel_x: int) -> int {
    3 * paddle_vel_x / 10
}

/// Bounce off the paddle: the ball is repositioned to sit exactly on the
/// paddle's top edge, its vertical velocity is forced upward, and it gains
/// english from the paddle's motion.
pub open spec fn paddle_bounce_step(b: BallV, p: PaddleV) -> BallV {
    if paddle_overlap(b, p) {
        BallV {
            pos: Vec2V { x: b.pos.x, y: p.rect.y - BALL_RADIUS },
            vel: Vec2V { x: b.vel.x + english(p.vel_x), y: -abs_v(b.vel.y) },
            active: b.active,
        }
    } else {
        b
    }
}

/// Side and top wall bounces: a component moving past its wall is inverted.
/// The bottom edge is not a bounce; see `bottom_out`.
pub open spec fn wall_step(b: BallV) -> BallV {
    let b1 = if (b.vel.x < 0 && b.pos.x - BALL_RADIUS < 0) || (b.vel.x > 0 && b.pos.x
        + BALL_RADIUS > SCREEN_WIDTH) {
        BallV { pos: b.pos, vel: Vec2V { x: -b.vel.x, y: b.vel.y }, active: b.active }
    } else {
        b
    };
    if b1.vel.y < 0 && b1.pos.y - BALL_RADIUS < 0 {
        BallV { pos: b1.pos, vel: Vec2V { x: b1.vel.x, y: -b1.vel.y }, active: b1.active }
    } else {
        b1
    }
}

/// The ball has moved past the bottom edge: a life is lost.
pub open spec fn bottom_out(b: BallV) -> bool {
    b.vel.y > 0 && b.pos.y + BALL_RADIUS > SCREEN_HEIGHT
}

/// Resolve a hit against one brick along the axis of minimum penetration:
/// the ball is repositioned flush against the nearer edge of that axis and
/// the corresponding velocity component is inverted; the other axis keeps
/// its pre-collision position.
/// The ball centre's distance to the nearer vertical edge of the brick:
/// the horizontal penetration depth.
pub open spec fn pen_x(b: BallV, brick: BrickV) -> int {
    if b.pos.x - brick.pos.x < brick.pos.x + BRICK_WIDTH - b.pos.x {
        b.pos.x - brick.pos.x
    } else {
        brick.pos.x + BRICK_WIDTH - b.pos.x
    }
}

/// The ball centre's distance to the nearer horizontal edge of the brick:
/// the vertical penetration depth.
pub open spec fn pen_y(b: BallV, brick: BrickV) -> int {
    if b.pos.y - brick.pos.y < brick.pos.y + BRICK_HEIGHT - b.pos.y {
        b.pos.y - brick.pos.y
    } else {
        brick.pos.y + BRICK_HEIGHT - b.pos.y
    }
}

pub open spec fn resolve_brick_hit(b: BallV, brick: BrickV) -> BallV {
    let x = b.pos.x;
    let y = b.pos.y;
    let bx = brick.pos.x;
    let by = brick.pos.y;
    let mdx = pen_x(b, brick);
    let cand_x = if x - bx < bx + BRICK_WIDTH - x {
        bx - BALL_RADIUS
    } else {
        bx + BRICK_WIDTH + BALL_RADIUS
    };
    let mdy = pen_y(b, brick);
    let cand_y = if y - by < by + BRICK_HEIGHT - y {
        by - BALL_RADIUS
    } else {
        by + BRICK_HEIGHT + BALL_RADIUS
    };
    if mdx < mdy {
        BallV {
            pos: Vec2V { x: cand_x, y },
            vel: Vec2V { x: -b.vel.x, y: b.vel.y },
            active: b.active,
        }
    } else {
        BallV {
            pos: Vec2V { x, y: cand_y },
            vel: Vec2V { x: b.vel.x, y: -b.vel.y },
            active: b.active,
        }
    }
}

/// One brick-collision step against the whole field: at most the first
/// intersecting brick is hit and removed; the result carries the new ball,
/// the new field, the score delta, and whether the field was emptied.
pub open spec fn brick_step(b: BallV, s: Seq<BrickV>) -> (BallV, Seq<BrickV>, int, bool) {
    match first_hit(s, b.pos, BALL_RADIUS as int) {
        Some(i) => (resolve_brick_hit(b, s[i]), s.remove(i), s[i].score, s.len() == 1),
        None => (b, s, 0, false),
    }
}

/// Integrate the position by one time step.  A ball in flight first has its
/// velocity renormalized to the fixed ball speed; an unserved ball keeps the
/// velocity slaved to the paddle, so it rides the paddle instead of
/// outrunning it.
pub open spec fn advance_step(b: BallV, dt: int) -> BallV {
    let v = if b.active {
        normalize_spec(b.vel)
    } else {
        b.vel
    };
    BallV {
        pos: Vec2V { x: b.pos.x + v.x * dt, y: b.pos.y + v.y * dt },
        vel: v,
        active: b.active,
    }
}

impl Ball {
    /// A fresh ball resting on the given paddle.
    pub fn init(paddle: &Paddle) -> (r: Ball)
        requires
            paddle_wf(paddle@),
        ensures
            r@ == ball_init_v(paddle@),
    {
        let half_w: i64 = ((paddle.rect.w as u64) / 2) as i64;
        Ball {
            pos: Vec2 { x: paddle.rect.x + half_w, y: paddle.rect.y - BALL_RADIUS },
            vel: Vec2 { x: 0, y: 0 },
            active: false,
        }
    }

    /// Serve gating; see `ride_serve_step`.  On the serve transition the
    /// vertical velocity becomes exactly `-BALL_SPEED` and the horizontal
    /// velocity is only what the slaving to the paddle makes it.
    pub fn ride_or_serve(&mut self, paddle_vel_x: i64, serve: bool)
        ensures
            final(self)@ == ride_serve_step(old(self)@, paddle_vel_x as int, serve),
            (!old(self).active && serve) ==> final(self).active && final(self).vel.y
                == -BALL_SPEED && final(self).vel.x == paddle_vel_x,
            (!old(self).active && !serve) ==> !final(self).active && final(self).vel.x
                == paddle_vel_x && final(self).vel.y == old(self).vel.y,
            old(self).active ==> *final(self) == *old(self),
    {
        if !self.active {
            if serve {
                self.vel.y = -BALL_SPEED;
                self.active = true;
            }
            self.vel.x = paddle_vel_x;
        }
    }

    /// Bounce off the paddle; see `paddle_bounce_step`.
    pub fn bounce_off_paddle(&mut self, paddle: &Paddle)
        requires
            paddle_wf(paddle@),
            pos_x_ok(old(self)@.pos.x),
            pos_y_ok(old(self)@.pos.y),
            abs_v(old(self)@.vel.x) <= BALL_SPEED,
            abs_v(old(self)@.vel.y) <= BALL_SPEED,
        ensures
            final(self)@ == paddle_bounce_step(old(self)@, paddle@),
    {
        let x_min = paddle.rect.x;
        let x_max = paddle.rect.x + paddle.rect.w;
        if x_min < self.pos.x + BALL_RADIUS && self.pos.x - BALL_RADIUS < x_max {
            let y_min = paddle.rect.y;
            let y_max = paddle.rect.y + paddle.rect.h;
            if y_min < self.pos.y + BALL_RADIUS && self.pos.y - BALL_RADIUS < y_max {
                self.pos.y = y_min - BALL_RADIUS;
                if self.vel.y > 0 {
                    self.vel.y = -self.vel.y;
                }
                let e: i64 = if paddle.vel_x > 0 {
                    135_000
                } else if paddle.vel_x < 0 {
                    -135_000
                } else {
                    0
                };
                assert(e == english(paddle@.vel_x));
                self.vel.x = self.vel.x + e;
            }
        }
    }

    /// Side and top wall bounces; see `wall_step`.
    pub fn bounce_walls(&mut self)
        requires
            pos_x_ok(old(self)@.pos.x),
            pos_y_ok(old(self)@.pos.y),
            abs_v(old(self)@.vel.x) <= VEL_LIMIT,
            abs_v(old(self)@.vel.y) <= VEL_LIMIT,
        ensures
            final(self)@ == wall_step(old(self)@),
    {
        if (self.vel.x < 0 && self.pos.x - BALL_RADIUS < 0) || (self.vel.x > 0 && self.pos.x
            + BALL_RADIUS > SCREEN_WIDTH) {
            self.vel.x = -self.vel.x;
        }
        if self.vel.y < 0 && self.pos.y - BALL_RADIUS < 0 {
            self.vel.y = -self.vel.y;
        }
    }

    /// Whether the ball has moved past the bottom edge; see `bottom_out`.
    pub fn hits_bottom(&self) -> (r: bool)
        requires
            pos_y_ok(self@.pos.y),
        ensures
            r == bottom_out(self@),
    {
        self.vel.y > 0 && self.pos.y + BALL_RADIUS > SCREEN_HEIGHT
    }

    /// Collide with the brick field: at most the first intersecting brick
    /// (in the field's fixed order) is hit; it is removed and its reward is
    /// returned, together with whether the field is now empty.
    pub fn collide_with_bricks(&mut self, bricks: &mut Vec<Brick>) -> (r: (i64, bool))
        requires
            pos_x_ok(old(self)@.pos.x),
            pos_y_ok(old(self)@.pos.y),
            abs_v(old(self)@.vel.x) <= VEL_LIMIT,
            abs_v(old(self)@.vel.y) <= VEL_LIMIT,
            bricks_wf(bricks_view(old(bricks)@)),
        ensures
            final(self)@ == brick_step(old(self)@, bricks_view(old(bricks)@)).0,
            bricks_view(final(bricks)@) == brick_step(old(self)@, bricks_view(old(bricks)@)).1,
            r.0 == brick_step(old(self)@, bricks_view(old(bricks)@)).2,
            r.1 == brick_step(old(self)@, bricks_view(old(bricks)@)).3,
    {
        proof {
            crate::brick::lemma_first_hit_props(
                bricks_view(bricks@),
                self@.pos,
                BALL_RADIUS as int,
            );
        }
        match find_first_colliding(bricks, self.pos, BALL_RADIUS) {
            Some(i) => {
                let brick = bricks[i];
                assert(bricks_view(bricks@)[i as int] == brick@);
                let x = self.pos.x;
                let y = self.pos.y;
                let bx = brick.pos.x;
                let by = brick.pos.y;
                let min_dist_x: i64;
                if x - bx < bx + BRICK_WIDTH - x {
                    self.pos.x = bx - BALL_RADIUS;
                    min_dist_x = x - bx;
                } else {
                    self.pos.x = bx + BRICK_WIDTH + BALL_RADIUS;
                    min_dist_x = bx + BRICK_WIDTH - x;
                }
                let min_dist_y: i64;
                if y - by < by + BRICK_HEIGHT - y {
                    self.pos.y = by - BALL_RADIUS;
                    min_dist_y = y - by;
                } else {
                    self.pos.y = by + BRICK_HEIGHT + BALL_RADIUS;
                    min_dist_y = by + BRICK_HEIGHT - y;
                }
                if min_dist_x < min_dist_y {
                    self.pos.y = y;
                    self.vel.x = -self.vel.x;
                } else {
                    self.pos.x = x;
                    self.vel.y = -self.vel.y;
                }
                let brick_score = brick.score;
                bricks.remove(i);
                proof {
                    assert(bricks_view(bricks@) =~= bricks_view(old(bricks)@).remove(i as int));
                }
                let game_win = bricks.len() == 0;
                (brick_score, game_win)
            },
            None => (0, false),
        }
    }

    /// End-of-tick integration; see `advance_step`.
    pub fn advance(&mut self, dt: i64)
        requires
            pos_x_ok(old(self)@.pos.x),
            pos_y_ok(old(self)@.pos.y),
            -VEL_LIMIT <= old(self).vel.x <= VEL_LIMIT,
            -VEL_LIMIT <= old(self).vel.y <= VEL_LIMIT,
            0 <= dt <= DT_MAX,
        ensures
            final(self)@ == advance_step(old(self)@, dt as int),
    {
        if self.active {
            proof {
                lemma_normalize_basic(old(self)@.vel);
            }
            self.vel = normalize_to_speed(self.vel);
        }
        proof {
            assert(-400_000_000 <= self.vel.x * dt <= 400_000_000) by (nonlinear_arith)
                requires
                    -800_000 <= self.vel.x <= 800_000,
                    0 <= dt <= 500,
            ;
            assert(-400_000_000 <= self.vel.y * dt <= 400_000_000) by (nonlinear_arith)
                requires
                    -800_000 <= self.vel.y <= 800_000,
                    0 <= dt <= 500,
            ;
        }
        self.pos.x = self.pos.x + self.vel.x * dt;
        self.pos.y = self.pos.y + self.vel.y * dt;
    }
}

} // verus!

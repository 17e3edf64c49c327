//! The paddle: a horizontal actor with velocity and a screen-clamped
//! position.

use vstd::prelude::*;
use crate::config::{
    DT_MAX, PADDLE_HEIGHT, PADDLE_SPEED, PADDLE_START_X, PADDLE_WIDTH, PADDLE_Y, SCREEN_WIDTH,
    START_LIVES,
};
use crate::geom::{clamp_i64, clamp_v, Rect, RectV};
use crate::input::Input;

verus! {

#[derive(Clone, Copy, PartialEq, Eq, Structural, Debug)]
pub struct Paddle {
    pub rect: Rect,
    pub vel_x: i64,
    pub lives: i64,
}

#[verifier::ext_equal]
pub ghost struct PaddleV {
    pub rect: RectV,
    pub vel_x: int,
    pub lives: int,
}

impl View for Paddle {
    type V = PaddleV;

    open spec fn view(&self) -> PaddleV {
        PaddleV { rect: self.rect@, vel_x: self.vel_x as int, lives: self.lives as int }
    }
}

/// Well-formedness: fixed size and height, position clamped to the screen,
/// velocity one of the three speeds the input can select, lives in range.
pub open spec fn paddle_wf(p: PaddleV) -> bool {
    &&& p.rect.w == PADDLE_WIDTH
    &&& p.rect.h == PADDLE_HEIGHT
    &&& p.rect.y == PADDLE_Y
    &&& 0 <= p.rect.x <= SCREEN_WIDTH - PADDLE_WIDTH
    &&& (p.vel_x == 0 || p.vel_x == PADDLE_SPEED || p.vel_x == -PADDLE_SPEED)
    &&& 0 <= p.lives <= START_LIVES
}

/// The freshly initialized paddle: centred, at rest, with all lives.
pub open spec fn paddle_init_v() -> PaddleV {
    PaddleV {
        rect: RectV {
            x: PADDLE_START_X as int,
            y: PADDLE_Y as int,
            w: PADDLE_WIDTH as int,
            h: PADDLE_HEIGHT as int,
        },
        vel_x: 0,
        lives: START_LIVES as int,
    }
}

/// The velocity the input selects; a held `left` wins over `right`.
pub open spec fn input_vel(i: Input) -> int {
    if i.left {
        -PADDLE_SPEED as int
    } else if i.right {
        PADDLE_SPEED as int
    } else {
        0
    }
}

/// One paddle tick: pick the velocity from the input, advance the position
/// by `vel * dt`, then clamp it to the screen.
pub open spec fn paddle_step(p: PaddleV, i: Input, dt: int) -> PaddleV {
    let v = input_vel(i);
    PaddleV {
        rect: RectV {
            x: clamp_v(p.rect.x + v * dt, 0, SCREEN_WIDTH - p.rect.w),
            y: p.rect.y,
            w: p.rect.w,
            h: p.rect.h,
        },
        vel_x: v,
        lives: p.lives,
    }
}

impl Paddle {
    pub fn init() -> (r: Paddle)
        ensures
            r@ == paddle_init_v(),
            paddle_wf(r@),
    {
        Paddle {
            rect: Rect { x: PADDLE_START_X, y: PADDLE_Y, w: PADDLE_WIDTH, h: PADDLE_HEIGHT },
            vel_x: 0,
            lives: START_LIVES,
        }
    }

    /// Advance the paddle one tick.  The position never leaves
    /// `[0, SCREEN_WIDTH - PADDLE_WIDTH]`.
    pub fn update(&mut self, input: Input, dt: i64)
        requires
            paddle_wf(old(self)@),
            0 <= dt <= DT_MAX,
        ensures
            final(self)@ == paddle_step(old(self)@, input, dt as int),
            paddle_wf(final(self)@),
            0 <= final(self).rect.x <= SCREEN_WIDTH - PADDLE_WIDTH,
    {
        if input.left {
            self.vel_x = -PADDLE_SPEED;
        } else if input.right {
            self.vel_x = PADDLE_SPEED;
        } else {
            self.vel_x = 0;
        }
        proof {
            assert(-225_000_000 <= self.vel_x * dt <= 225_000_000) by (nonlinear_arith)
                requires
                    -450_000 <= self.vel_x <= 450_000,
                    0 <= dt <= 500,
            ;
        }
        self.rect.x = clamp_i64(self.rect.x + self.vel_x * dt, 0, SCREEN_WIDTH - self.rect.w);
    }
}

} // verus!

//! The brick field: a fixed grid of destructible rectangles with a per-brick
//! reward value.  Destroyed bricks are removed from the collection, so the
//! field's length is its alive count and its order is the fixed iteration
//! order of the initial grid layout.

use vstd::prelude::*;
use crate::config::{
    BRICKS_START_X, BRICK_BASE_SCORE, BRICK_COLS, BRICK_HEIGHT, BRICK_MAX_SCORE, BRICK_PADDING,
    BRICK_ROWS, BRICK_SCORE_STEP, BRICK_WIDTH, SCREEN_HEIGHT, SCREEN_WIDTH,
};
use crate::geom::{circle_hits_rect, circle_hits_rect_ex, pos_x_ok, pos_y_ok, Rect, RectV, Vec2,
    Vec2V};

verus! {

/// A single brick: its top-left corner and its reward value.  Width and
/// height are shared by all bricks.
#[derive(Clone, Copy, PartialEq, Eq, Structural, Debug)]
pub struct Brick {
    pub pos: Vec2,
    pub score: i64,
}

#[verifier::ext_equal]
pub ghost struct BrickV {
    pub pos: Vec2V,
    pub score: int,
}

impl View for Brick {
    type V = BrickV;

    open spec fn view(&self) -> BrickV {
        BrickV { pos: self.pos@, score: self.score as int }
    }
}

pub open spec fn brick_rect(b: BrickV) -> RectV {
    RectV { x: b.pos.x, y: b.pos.y, w: BRICK_WIDTH as int, h: BRICK_HEIGHT as int }
}

/// A brick lies fully on the screen and carries a reward in range.
pub open spec fn brick_wf(b: BrickV) -> bool {
    &&& 0 <= b.pos.x <= SCREEN_WIDTH - BRICK_WIDTH
    &&& 0 <= b.pos.y <= SCREEN_HEIGHT - BRICK_HEIGHT
    &&& 0 <= b.score <= BRICK_MAX_SCORE
}

pub open spec fn bricks_view(s: Seq<Brick>) -> Seq<BrickV> {
    s.map_values(|b: Brick| b@)
}

pub open spec fn bricks_wf(s: Seq<BrickV>) -> bool {
    forall|i: int| 0 <= i < s.len() ==> brick_wf(#[trigger] s[i])
}

/// The brick of row `r`, column `c` in the freshly laid out grid.
pub open spec fn grid_brick(r: int, c: int) -> BrickV {
    BrickV {
        pos: Vec2V {
            x: BRICKS_START_X + c * (BRICK_PADDING + BRICK_WIDTH),
            y: BRICK_PADDING + r * (BRICK_PADDING + BRICK_HEIGHT),
        },
        score: BRICK_BASE_SCORE + r * BRICK_SCORE_STEP,
    }
}

/// The full grid in its fixed iteration order: row by row, left to right.
pub open spec fn initial_bricks() -> Seq<BrickV> {
    Seq::new((BRICK_ROWS * BRICK_COLS) as nat, |i: int| grid_brick(i / 8, i % 8))
}

pub open spec fn ball_hits_brick(c: Vec2V, radius: int, b: BrickV) -> bool {
    circle_hits_rect(c.x, c.y, radius, brick_rect(b))
}

/// Index of the first brick at or after `i` whose rectangle the circle
/// intersects.
pub open spec fn first_hit_from(s: Seq<BrickV>, c: Vec2V, radius: int, i: int) -> Option<int>
    decreases s.len() - i,
{
    if i < 0 || i >= s.len() {
        None
    } else if ball_hits_brick(c, radius, s[i]) {
        Some(i)
    } else {
        first_hit_from(s, c, radius, i + 1)
    }
}

/// Index of the first brick in the field's fixed order that the circle
/// intersects, if any.
pub open spec fn first_hit(s: Seq<BrickV>, c: Vec2V, radius: int) -> Option<int> {
    first_hit_from(s, c, radius, 0)
}

proof fn lemma_first_hit_from_props(s: Seq<BrickV>, c: Vec2V, radius: int, i: int)
    requires
        0 <= i <= s.len(),
    ensures
        match first_hit_from(s, c, radius, i) {
            Some(j) => i <= j < s.len() && ball_hits_brick(c, radius, s[j]) && (forall|k: int|
                i <= k < j ==> !ball_hits_brick(c, radius, #[trigger] s[k])),
            None => forall|k: int| i <= k < s.len() ==> !ball_hits_brick(c, radius, #[trigger] s[k]),
        },
    decreases s.len() - i,
{
    if i < s.len() && !ball_hits_brick(c, radius, s[i]) {
        lemma_first_hit_from_props(s, c, radius, i + 1);
    }
}

/// What the first-hit index means: it is in range, its brick is hit, and no
/// earlier brick is; a `None` means no brick is hit at all.
pub proof fn lemma_first_hit_props(s: Seq<BrickV>, c: Vec2V, radius: int)
    ensures
        match first_hit(s, c, radius) {
            Some(j) => 0 <= j < s.len() && ball_hits_brick(c, radius, s[j]) && (forall|k: int|
                0 <= k < j ==> !ball_hits_brick(c, radius, #[trigger] s[k])),
            None => forall|k: int| 0 <= k < s.len() ==> !ball_hits_brick(c, radius, #[trigger] s[k]),
        },
{
    lemma_first_hit_from_props(s, c, radius, 0);
}

/// Lay out the centred `BRICK_ROWS x BRICK_COLS` grid.  Row `r`, column `c`
/// gets its top-left corner at
/// `(BRICKS_START_X + c*(padding+width), padding + r*(padding+height))` and
/// a reward of `BRICK_BASE_SCORE + r * BRICK_SCORE_STEP`.
pub fn init_bricks() -> (r: Vec<Brick>)
    ensures
        bricks_view(r@) == initial_bricks(),
        bricks_wf(bricks_view(r@)),
        r@.len() == BRICK_ROWS * BRICK_COLS,
{
    let mut bricks: Vec<Brick> = Vec::new();
    let mut row: usize = 0;
    while row < BRICK_ROWS
        invariant
            0 <= row <= BRICK_ROWS,
            bricks@.len() == row * BRICK_COLS,
            forall|i: int|
                0 <= i < bricks@.len() ==> (#[trigger] bricks@[i])@ == grid_brick(i / 8, i % 8),
        decreases BRICK_ROWS - row,
    {
        let mut col: usize = 0;
        while col < BRICK_COLS
            invariant
                0 <= col <= BRICK_COLS,
                row < BRICK_ROWS,
                bricks@.len() == row * BRICK_COLS + col,
                forall|i: int|
                    0 <= i < bricks@.len() ==> (#[trigger] bricks@[i])@ == grid_brick(
                        i / 8,
                        i % 8,
                    ),
            decreases BRICK_COLS - col,
        {
            proof {
                assert(0 <= (col as i64) * (BRICK_PADDING + BRICK_WIDTH) <= 665_000_000)
                    by (nonlinear_arith)
                    requires
                        0 <= col < 8,
                        BRICK_PADDING + BRICK_WIDTH == 95_000_000,
                ;
                assert(0 <= (row as i64) * (BRICK_PADDING + BRICK_HEIGHT) <= 225_000_000)
                    by (nonlinear_arith)
                    requires
                        0 <= row < 6,
                        BRICK_PADDING + BRICK_HEIGHT == 45_000_000,
                ;
                assert(0 <= (row as i64) * BRICK_SCORE_STEP <= 50) by (nonlinear_arith)
                    requires
                        0 <= row < 6,
                        BRICK_SCORE_STEP == 10,
                ;
            }
            let x: i64 = BRICKS_START_X + (col as i64) * (BRICK_PADDING + BRICK_WIDTH);
            let y: i64 = BRICK_PADDING + (row as i64) * (BRICK_PADDING + BRICK_HEIGHT);
            let score: i64 = BRICK_BASE_SCORE + (row as i64) * BRICK_SCORE_STEP;
            bricks.push(Brick { pos: Vec2 { x, y }, score });
            proof {
                let k = bricks@.len() - 1;
                assert(k == row * 8 + col);
                assert(k / 8 == row && k % 8 == col);
            }
            col += 1;
        }
        row += 1;
    }
    proof {
        assert(bricks_view(bricks@) =~= initial_bricks());
    }
    bricks
}

/// Number of bricks still alive; destroyed bricks are removed, so this is
/// the field's length.
pub fn alive_count(bricks: &Vec<Brick>) -> (n: usize)
    ensures
        n == bricks@.len(),
{
    bricks.len()
}

/// Find the first brick, in the field's fixed order, whose rectangle
/// intersects the given circle.
pub fn find_first_colliding(bricks: &Vec<Brick>, pos: Vec2, radius: i64) -> (r: Option<usize>)
    requires
        pos_x_ok(pos.x as int),
        pos_y_ok(pos.y as int),
        bricks_wf(bricks_view(bricks@)),
        0 <= radius <= 100_000_000,
    ensures
        match r {
            Some(i) => first_hit(bricks_view(bricks@), pos@, radius as int) == Some(i as int),
            None => first_hit(bricks_view(bricks@), pos@, radius as int) is None,
        },
{
    let mut i: usize = 0;
    while i < bricks.len()
        invariant
            0 <= i <= bricks@.len(),
            pos_x_ok(pos.x as int),
            pos_y_ok(pos.y as int),
            bricks_wf(bricks_view(bricks@)),
            0 <= radius <= 100_000_000,
            first_hit(bricks_view(bricks@), pos@, radius as int) == first_hit_from(
                bricks_view(bricks@),
                pos@,
                radius as int,
                i as int,
            ),
        decreases bricks@.len() - i,
    {
        let b = bricks[i];
        assert(bricks_view(bricks@)[i as int] == b@);
        if circle_hits_rect_ex(
            pos,
            radius,
            Rect { x: b.pos.x, y: b.pos.y, w: BRICK_WIDTH, h: BRICK_HEIGHT },
        ) {
            return Some(i);
        }
        i += 1;
    }
    None
}

} // verus!

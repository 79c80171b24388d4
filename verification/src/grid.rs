//! Grid geometry: the board's dimensions and wrap-around positions on it.

use crate::random::gen_range;
use rand::rngs::ThreadRng;
use vstd::prelude::*;

verus! {

/// Width of the window in pixels.
pub const WINDOW_WIDTH: i32 = 400;

/// Height of the window in pixels.
pub const WINDOW_HEIGHT: i32 = 400;

/// Edge length of one square tile in pixels.
pub const TILE_SIZE: i32 = 20;

/// Number of columns of the board, one less than the tiles that fit across
/// the window: valid `x` coordinates are `0..TILES_W`.
pub const TILES_W: i32 = 19;

/// Number of rows of the board, one less than the tiles that fit down the
/// window: valid `y` coordinates are `0..TILES_H`.
pub const TILES_H: i32 = 19;

/// The board's dimensions are the window's size in tiles, minus one.
pub proof fn lemma_board_from_window()
    ensures
        TILES_W == WINDOW_WIDTH / TILE_SIZE - 1,
        TILES_H == WINDOW_HEIGHT / TILE_SIZE - 1,
{
}

/// One wrap step of a coordinate `v` on an axis of `n` cells: a value at or
/// past the far edge comes back by `n`, a negative one goes forward by `n`,
/// and anything else stays.
pub open spec fn wrap_step(v: int, n: int) -> int {
    if v >= n {
        v - n
    } else if v < 0 {
        v + n
    } else {
        v
    }
}

/// Within one axis' length of the axis, a wrap step is the remainder by that
/// length, and so a coordinate of the axis.
pub proof fn lemma_wrap_step_is_modulo(v: int, n: int)
    requires
        n > 0,
        -n <= v < 2 * n,
    ensures
        wrap_step(v, n) == v % n,
        0 <= wrap_step(v, n) < n,
{
    if v >= n {
        vstd::arithmetic::div_mod::lemma_mod_sub_multiples_vanish(v, n);
        vstd::arithmetic::div_mod::lemma_small_mod((v - n) as nat, n as nat);
    } else if v < 0 {
        vstd::arithmetic::div_mod::lemma_mod_add_multiples_vanish(v, n);
        vstd::arithmetic::div_mod::lemma_small_mod((v + n) as nat, n as nat);
    } else {
        vstd::arithmetic::div_mod::lemma_small_mod(v as nat, n as nat);
    }
}

/// A cell of the board, or a displacement between cells.
#[derive(Clone, Copy, Debug, PartialEq, Eq, Structural)]
pub struct Position {
    pub x: i32,
    pub y: i32,
}

impl Position {
    /// The position names a cell of the board.
    pub open spec fn in_bounds(self) -> bool {
        0 <= self.x < TILES_W && 0 <= self.y < TILES_H
    }

    /// The position is at most one board away from the board on each axis,
    /// which is as far as one wrap step can bring back.
    pub open spec fn near_bounds(self) -> bool {
        -TILES_W <= self.x < 2 * TILES_W && -TILES_H <= self.y < 2 * TILES_H
    }

    /// The position after one wrap step on each axis.
    pub open spec fn wrapped(self) -> Position {
        Position {
            x: wrap_step(self.x as int, TILES_W as int) as i32,
            y: wrap_step(self.y as int, TILES_H as int) as i32,
        }
    }

    /// The sum of two positions can be held in the coordinates' type.
    pub open spec fn can_add(self, val: Position) -> bool {
        &&& i32::MIN <= self.x + val.x <= i32::MAX
        &&& i32::MIN <= self.y + val.y <= i32::MAX
    }

    /// The component-wise sum of two positions.
    pub open spec fn sum(self, val: Position) -> Position {
        Position { x: (self.x + val.x) as i32, y: (self.y + val.y) as i32 }
    }

    /// The sum of two positions, wrapped back by one step per axis.
    pub open spec fn plus(self, val: Position) -> Position {
        self.sum(val).wrapped()
    }

    /// Whether the position names a cell of the board.
    pub fn is_in_bounds(&self) -> (inside: bool)
        ensures
            inside == self.in_bounds(),
    {
        0 <= self.x && self.x < TILES_W && 0 <= self.y && self.y < TILES_H
    }

    /// Wraps the position back onto the board by one step per axis.
    pub fn bound(&mut self)
        ensures
            *final(self) == old(self).wrapped(),
            old(self).near_bounds() ==> final(self).in_bounds(),
            old(self).in_bounds() ==> *final(self) == *old(self),
    {
        if self.x >= TILES_W {
            self.x = self.x - TILES_W;
        } else if self.x < 0 {
            self.x = self.x + TILES_W;
        }
        if self.y >= TILES_H {
            self.y = self.y - TILES_H;
        } else if self.y < 0 {
            self.y = self.y + TILES_H;
        }
    }

    /// Draws a cell of the board from `rng`, each coordinate on its own.
    pub fn random_in_bound(rng: &mut ThreadRng) -> (pos: Position)
        ensures
            pos.in_bounds(),
    {
        let x: i32 = gen_range(rng, 0, TILES_W);
        let y: i32 = gen_range(rng, 0, TILES_H);
        Position { x, y }
    }
}

impl std::ops::Add<Position> for Position {
    type Output = Position;

    /// Adds two positions component by component and wraps the sum back onto
    /// the board by one step per axis.
    fn add(self, val: Position) -> (pos: Position)
        ensures
            pos == self.plus(val),
            self.sum(val).near_bounds() ==> pos.in_bounds(),
    {
        let mut pos = Position { x: self.x + val.x, y: self.y + val.y };
        pos.bound();
        pos
    }
}

impl vstd::std_specs::ops::AddSpecImpl<Position> for Position {
    open spec fn obeys_add_spec() -> bool {
        true
    }

    open spec fn add_req(self, val: Position) -> bool {
        self.can_add(val)
    }

    open spec fn add_spec(self, val: Position) -> Position {
        self.plus(val)
    }
}

} // verus!

//! The four headings of the snake and the keys that steer it.

use crate::grid::{lemma_wrap_step_is_modulo, Position, TILES_H, TILES_W};
use vstd::prelude::*;

verus! {

/// A key of the keyboard that the game listens to.
#[derive(Clone, Copy, Debug, PartialEq, Eq, Structural)]
pub enum Key {
    W,
    S,
    A,
    D,
    Space,
}

/// A heading of the snake.
#[derive(Clone, Copy, Debug, PartialEq, Eq, Structural)]
pub enum Move {
    Up,
    Down,
    Left,
    Right,
}

impl Move {
    /// The unit step of the heading; `y` grows downwards.
    pub open spec fn delta(self) -> Position {
        match self {
            Move::Up => Position { x: 0, y: -1i32 },
            Move::Down => Position { x: 0, y: 1 },
            Move::Left => Position { x: -1i32, y: 0 },
            Move::Right => Position { x: 1, y: 0 },
        }
    }

    /// The key that steers the snake into the heading.
    pub open spec fn binding(self) -> Key {
        match self {
            Move::Up => Key::W,
            Move::Down => Key::S,
            Move::Left => Key::A,
            Move::Right => Key::D,
        }
    }

    /// The headings in the order in which held keys are looked at.
    pub open spec fn order() -> Seq<Move> {
        seq![Move::Up, Move::Down, Move::Left, Move::Right]
    }

    /// The displacement of one step in this heading.
    pub fn pos(&self) -> (step: Position)
        ensures
            step == self.delta(),
    {
        match *self {
            Move::Up => Position { x: 0, y: -1 },
            Move::Down => Position { x: 0, y: 1 },
            Move::Left => Position { x: -1, y: 0 },
            Move::Right => Position { x: 1, y: 0 },
        }
    }

    /// The key bound to this heading.
    pub fn key(&self) -> (key: Key)
        ensures
            key == self.binding(),
    {
        match *self {
            Move::Up => Key::W,
            Move::Down => Key::S,
            Move::Left => Key::A,
            Move::Right => Key::D,
        }
    }

    /// All four headings, in the fixed order up, down, left, right.
    pub fn iter() -> (all: [Move; 4])
        ensures
            all@ == Move::order(),
    {
        [Move::Up, Move::Down, Move::Left, Move::Right]
    }
}

/// No two headings share a key, and none is steered by the space bar.
pub proof fn lemma_bindings_distinct(a: Move, b: Move)
    ensures
        a.binding() == b.binding() ==> a == b,
        a.binding() != Key::Space,
{
}

/// A step in any heading from a cell of the board, once wrapped, is a cell
/// of the board again: the neighbour on a board whose edges are joined, and
/// never the cell that the step started from.
pub proof fn lemma_step_stays_on_board(from: Position, heading: Move)
    requires
        from.in_bounds(),
    ensures
        from.can_add(heading.delta()),
        from.sum(heading.delta()).near_bounds(),
        from.plus(heading.delta()).in_bounds(),
        from.plus(heading.delta()).x == (from.x + heading.delta().x) % (TILES_W as int),
        from.plus(heading.delta()).y == (from.y + heading.delta().y) % (TILES_H as int),
        from.plus(heading.delta()) != from,
{
    lemma_wrap_step_is_modulo(from.x + heading.delta().x, TILES_W as int);
    lemma_wrap_step_is_modulo(from.y + heading.delta().y, TILES_H as int);
}

} // verus!

//! What a frame shows, worked out in pixels for whoever draws it.

use crate::body::all_in_bounds;
use crate::game::{Game, GameView};
use crate::grid::{Position, TILE_SIZE, WINDOW_HEIGHT, WINDOW_WIDTH};
use vstd::prelude::*;

verus! {

/// A rectangle of the window, in pixels, by its top left corner and size.
#[derive(Clone, Copy, Debug, PartialEq, Eq, Structural)]
pub struct Rect {
    pub x: i32,
    pub y: i32,
    pub width: i32,
    pub height: i32,
}

/// The square of the window that shows the cell `cell`.
pub open spec fn tile_of(cell: Position) -> Rect {
    Rect {
        x: (cell.x * TILE_SIZE) as i32,
        y: (cell.y * TILE_SIZE) as i32,
        width: TILE_SIZE,
        height: TILE_SIZE,
    }
}

/// The squares of the window that show `cells`, in the same order.
pub open spec fn tiles_of(cells: Seq<Position>) -> Seq<Rect> {
    Seq::new(cells.len(), |i: int| tile_of(cells[i]))
}

/// What there is to draw on a frame.
#[derive(Debug)]
pub enum Scene {
    /// The game is over: the final score is shown, with a prompt to restart.
    GameOver { score: usize },
    /// The game is on: the apple's square, and the snake's squares head
    /// first.
    Board { apple: Rect, snake: Vec<Rect> },
}

impl Scene {
    /// The scene is what there is to draw of the state `game`.
    pub open spec fn shows(self, game: GameView) -> bool {
        match self {
            Scene::GameOver { score } => !game.alive && score == game.score(),
            Scene::Board { apple, snake } => {
                &&& game.alive
                &&& apple == tile_of(game.apple)
                &&& snake@ == tiles_of(game.body)
            },
        }
    }
}

/// The cell's square can be held in pixel coordinates, as that of every
/// cell of the board can.
pub open spec fn has_tile(cell: Position) -> bool {
    &&& i32::MIN <= cell.x * TILE_SIZE <= i32::MAX
    &&& i32::MIN <= cell.y * TILE_SIZE <= i32::MAX
}

/// The square of a cell of the board lies inside the window, and no other
/// cell has the same square.
pub proof fn lemma_tile_in_window(cell: Position, other: Position)
    requires
        cell.in_bounds(),
    ensures
        has_tile(cell),
        0 <= tile_of(cell).x,
        0 <= tile_of(cell).y,
        tile_of(cell).x + tile_of(cell).width <= WINDOW_WIDTH,
        tile_of(cell).y + tile_of(cell).height <= WINDOW_HEIGHT,
        other.in_bounds() && tile_of(other) == tile_of(cell) ==> other == cell,
{
}

/// The square of the window that shows a cell.
pub fn tile(cell: Position) -> (rect: Rect)
    requires
        has_tile(cell),
    ensures
        rect == tile_of(cell),
{
    Rect { x: cell.x * TILE_SIZE, y: cell.y * TILE_SIZE, width: TILE_SIZE, height: TILE_SIZE }
}

/// Works out what to draw for `game`: the score once the snake is dead, the
/// apple and the snake while it lives.
pub fn scene(game: &Game) -> (scene: Scene)
    ensures
        scene.shows(game@),
{
    if game.is_dead() {
        return Scene::GameOver { score: game.score() };
    }
    let cells = game.snake();
    let mut snake: Vec<Rect> = Vec::new();
    let mut i: usize = 0;
    while i < cells.len()
        invariant
            i <= cells.len(),
            all_in_bounds(cells@),
            snake@ == tiles_of(cells@.take(i as int)),
        decreases cells.len() - i,
    {
        snake.push(tile(cells[i]));
        i += 1;
    }
    assert(cells@.take(i as int) =~= cells@);
    Scene::Board { apple: tile(game.apple()), snake }
}

} // verus!

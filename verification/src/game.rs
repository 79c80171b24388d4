//! The state of one game and the moves that change it.

use crate::body::{
    all_distinct, all_in_bounds, contains, covers_board, first_free, first_free_cell,
    lemma_board_capacity, on_board, BOARD_CELLS,
};
use crate::direction::Move;
use crate::grid::Position;
use rand::rngs::ThreadRng;
use vstd::prelude::*;

verus! {

/// Length of the snake at the start of a game; the score counts the cells
/// grown beyond it.
pub const INITIAL_LENGTH: usize = 3;

/// How many random cells a tick tries for a new apple before it settles for
/// the first free cell of the board.
pub const DRAW_LIMIT: u32 = 100_000;

/// What a game is, as plain mathematics: the contracts of [`Game`] speak of
/// this value.
pub struct GameView {
    /// The snake's cells, head first.
    pub body: Seq<Position>,
    /// The heading that the next tick applies.
    pub heading: Move,
    /// The cell of the apple.
    pub apple: Position,
    /// Whether the snake is still alive.
    pub alive: bool,
}

impl GameView {
    /// The state in which every game starts.
    pub open spec fn initial() -> GameView {
        GameView {
            body: seq![
                Position { x: 10, y: 10 },
                Position { x: 11, y: 10 },
                Position { x: 12, y: 10 },
            ],
            heading: Move::Left,
            apple: Position { x: 4, y: 11 },
            alive: true,
        }
    }

    /// What holds of every state that a game can be in.
    ///
    /// The snake never gets shorter than it started, and it and the apple
    /// stay on the board. While the snake is alive no cell occurs twice in
    /// it, and the apple lies off the snake unless the snake has left no
    /// cell free.
    pub open spec fn well_formed(self) -> bool {
        &&& self.body.len() >= INITIAL_LENGTH
        &&& all_in_bounds(self.body)
        &&& self.apple.in_bounds()
        &&& self.alive ==> self.body.no_duplicates()
        &&& self.alive && !covers_board(self.body) ==> !self.body.contains(self.apple)
    }

    /// A live game with the given snake, heading and apple.
    pub open spec fn playing(body: Seq<Position>, heading: Move, apple: Position) -> GameView {
        GameView { body, heading, apple, alive: true }
    }

    /// The cell that the head moves to on the next tick.
    pub open spec fn next_head(self) -> Position {
        self.body[0].plus(self.heading.delta())
    }

    /// Whether a request for `heading` is taken up: the snake must be alive,
    /// and the step must not lead straight back into its second cell. A
    /// snake of a single cell may turn any way.
    pub open spec fn allows(self, heading: Move) -> bool {
        &&& self.alive
        &&& self.body.len() >= 2 ==> self.body[0].plus(heading.delta()) != self.body[1]
    }

    /// The state after a request for `heading`.
    pub open spec fn turned(self, heading: Move) -> GameView {
        if self.allows(heading) {
            GameView { heading, ..self }
        } else {
            self
        }
    }

    /// Whether the next tick eats the apple.
    pub open spec fn eats(self) -> bool {
        self.alive && self.next_head() == self.apple
    }

    /// The snake after the head has moved on and before the tail follows.
    pub open spec fn grown(self) -> Seq<Position> {
        self.body.insert(0, self.next_head())
    }

    /// `cell` is a cell of the board that the snake will not lie on after
    /// the next tick, should that tick eat the apple.
    pub open spec fn free_after_tick(self, cell: Position) -> bool {
        cell.in_bounds() && !self.grown().contains(cell)
    }

    /// `fresh` will do for the next tick: that tick needs no new apple, or
    /// `fresh` is a cell for it.
    pub open spec fn accepts(self, fresh: Position) -> bool {
        self.eats() ==> self.free_after_tick(fresh)
    }

    /// The cell that a tick takes for a new apple when `fresh` is offered:
    /// `fresh` itself if it is free, else the first free cell of the board.
    pub open spec fn settled(self, fresh: Position) -> Position {
        if self.free_after_tick(fresh) {
            fresh
        } else {
            first_free(self.grown())
        }
    }

    /// The state after one tick in which `fresh` is the cell found for a new
    /// apple, should one be needed and the board have room for it.
    ///
    /// A dead snake stays as it is. A live one dies if the cell ahead is
    /// part of it, the cell at its tail included, and in any case the head
    /// moves there. Having eaten, the snake keeps its tail and the apple
    /// moves to `fresh`; otherwise the tail is dropped.
    pub open spec fn ticked(self, fresh: Position) -> GameView {
        if !self.alive {
            self
        } else {
            let alive = !self.body.contains(self.next_head());
            if self.eats() {
                GameView {
                    body: self.grown(),
                    heading: self.heading,
                    apple: if covers_board(self.grown()) { self.apple } else { fresh },
                    alive,
                }
            } else {
                GameView {
                    body: self.grown().drop_last(),
                    heading: self.heading,
                    apple: self.apple,
                    alive,
                }
            }
        }
    }

    /// The state after a restart, which is the starting state whatever went
    /// before.
    pub open spec fn reset(self) -> GameView {
        GameView::initial()
    }

    /// The heading does not lead straight back into the snake's second cell.
    pub open spec fn heads_away(self) -> bool {
        self.body.len() >= 2 ==> self.next_head() != self.body[1]
    }

    /// The number of cells grown since the start.
    pub open spec fn score(self) -> int {
        self.body.len() - INITIAL_LENGTH
    }
}

/// One game: the snake, its heading, the apple, and whether it is over.
#[derive(Debug)]
pub struct Game {
    snake: Vec<Position>,
    dead: bool,
    direction: Move,
    apple: Position,
}

impl View for Game {
    type V = GameView;

    closed spec fn view(&self) -> GameView {
        GameView {
            body: self.snake@,
            heading: self.direction,
            apple: self.apple,
            alive: !self.dead,
        }
    }
}

impl Game {
    /// Every game is in a well-formed state, at all times.
    #[verifier::type_invariant]
    pub open spec fn well_formed(self) -> bool {
        self@.well_formed()
    }

    /// A new game: a snake of three cells heading left, and the first apple.
    pub fn init() -> (game: Game)
        ensures
            game@ == GameView::initial(),
            game@.well_formed(),
    {
        let mut snake: Vec<Position> = Vec::new();
        snake.push(Position { x: 10, y: 10 });
        snake.push(Position { x: 11, y: 10 });
        snake.push(Position { x: 12, y: 10 });
        assert(snake@ =~= GameView::initial().body);
        Game { snake, dead: false, direction: Move::Left, apple: Position { x: 4, y: 11 } }
    }

    /// A live game in a state of the caller's choosing, with `snake` given
    /// head first.
    ///
    /// `None` unless the state is well formed: at least three cells, all of
    /// them and the apple on the board, no cell twice, and the apple off
    /// the snake unless the snake covers the board.
    pub fn with_state(snake: Vec<Position>, direction: Move, apple: Position) -> (game: Option<
        Game,
    >)
        ensures
            game.is_some() <==> GameView::playing(snake@, direction, apple).well_formed(),
            game matches Some(g) ==> g@ == GameView::playing(snake@, direction, apple),
    {
        if snake.len() < INITIAL_LENGTH || !on_board(&snake) || !apple.is_in_bounds()
            || !all_distinct(&snake) {
            return None;
        }
        proof {
            lemma_board_capacity(snake@);
        }
        if contains(&snake, apple) && snake.len() < BOARD_CELLS {
            return None;
        }
        Some(Game { snake, dead: false, direction, apple })
    }

    /// The snake's cells, head first.
    pub fn snake(&self) -> (cells: &Vec<Position>)
        ensures
            cells@ == self@.body,
            self@.well_formed(),
    {
        proof {
            use_type_invariant(self);
        }
        &self.snake
    }

    /// The heading that the next tick applies.
    pub fn direction(&self) -> (heading: Move)
        ensures
            heading == self@.heading,
    {
        self.direction
    }

    /// The cell of the apple.
    pub fn apple(&self) -> (cell: Position)
        ensures
            cell == self@.apple,
            cell.in_bounds(),
    {
        proof {
            use_type_invariant(self);
        }
        self.apple
    }

    /// Whether the snake has died.
    pub fn is_dead(&self) -> (dead: bool)
        ensures
            dead == !self@.alive,
    {
        self.dead
    }

    /// Starts over: whatever the state was, it is the starting state again.
    pub fn reset(&mut self)
        ensures
            final(self)@ == old(self)@.reset(),
            final(self)@ == GameView::initial(),
            final(self)@.well_formed(),
    {
        *self = Game::init();
    }

    /// Asks for a new heading.
    ///
    /// The request is taken up if the snake is alive and the step would not
    /// lead straight back into its second cell; otherwise nothing changes.
    pub fn request_direction(&mut self, heading: Move)
        ensures
            final(self)@ == old(self)@.turned(heading),
            final(self)@.well_formed(),
    {
        proof {
            use_type_invariant(&*self);
        }
        if !self.dead && self.snake[0] + heading.pos() != self.snake[1] {
            self.direction = heading;
        }
    }

    /// Whether `fresh` will do for the next tick: either that tick does not
    /// eat the apple, or `fresh` is a cell of the board off the snake as it
    /// will lie then.
    pub fn accepts(&self, fresh: Position) -> (ok: bool)
        ensures
            ok == self@.accepts(fresh),
    {
        proof {
            use_type_invariant(self);
        }
        if self.dead {
            return true;
        }
        let next = self.snake[0] + self.direction.pos();
        if next != self.apple {
            return true;
        }
        proof {
            lemma_grown_contains(self@, fresh);
        }
        fresh.is_in_bounds() && fresh != next && !contains(&self.snake, fresh)
    }

    /// Moves the game on by one tick, with `fresh` offered as the cell of a
    /// new apple.
    ///
    /// Nothing happens to a dead snake. A live one moves its head one cell
    /// along its heading, wrapping at the edges, and dies if that cell was
    /// part of it before the move, its tail included. If the head lands on
    /// the apple the snake keeps its tail, growing by one cell, and the
    /// apple moves: to `fresh` if that is a free cell of the board, else to
    /// the first free cell in reading order; if the snake covers the board
    /// the apple is left where it was. Otherwise the tail is dropped and the
    /// length stays.
    pub fn tick_with(&mut self, fresh: Position)
        ensures
            final(self)@ == old(self)@.ticked(old(self)@.settled(fresh)),
            final(self)@.well_formed(),
            !old(self)@.alive ==> final(self)@ == old(self)@,
            old(self)@.alive
                ==> final(self)@.alive == !old(self)@.body.contains(old(self)@.next_head()),
            old(self)@.eats() ==> final(self)@.body.len() == old(self)@.body.len() + 1,
            old(self)@.eats() && final(self)@.body.len() < BOARD_CELLS
                ==> !final(self)@.body.contains(final(self)@.apple),
            old(self)@.eats() && old(self)@.accepts(fresh) ==> final(self)@.apple == fresh,
            old(self)@.alive && !old(self)@.eats()
                ==> final(self)@.body.len() == old(self)@.body.len(),
    {
        proof {
            use_type_invariant(&*self);
        }
        if self.dead {
            return ;
        }
        let next = self.snake[0] + self.direction.pos();
        let hit = contains(&self.snake, next);
        let eaten = next == self.apple;
        let mut snake = self.snake.clone();
        snake.insert(0, next);
        let mut apple = self.apple;
        if eaten {
            if fresh.is_in_bounds() && !contains(&snake, fresh) {
                apple = fresh;
            } else {
                match first_free_cell(&snake) {
                    Some(free) => {
                        apple = free;
                    },
                    None => {},
                }
            }
        } else {
            snake.pop();
        }
        proof {
            lemma_tick_keeps_well_formed(self@, apple);
            lemma_snake_fits_board(self@);
            if !hit {
                lemma_snake_fits_board(self@.ticked(apple));
            }
        }
        *self = Game { snake, dead: hit, direction: self.direction, apple };
    }

    /// Moves the game on by one tick, drawing the cell of a new apple from
    /// `rng` if one is needed.
    ///
    /// The tick is that of [`Game::tick_with`]. Cells are drawn until one
    /// will do; should [`DRAW_LIMIT`] draws in a row all fail, the last of
    /// them is offered all the same, and the tick settles for the first
    /// free cell of the board.
    pub fn tick(&mut self, rng: &mut ThreadRng)
        ensures
            final(self)@ == old(self)@.ticked(final(self)@.apple),
            final(self)@.well_formed(),
            !old(self)@.alive ==> final(self)@ == old(self)@,
            old(self)@.alive
                ==> final(self)@.alive == !old(self)@.body.contains(old(self)@.next_head()),
            old(self)@.eats() ==> final(self)@.body.len() == old(self)@.body.len() + 1,
            old(self)@.eats() && final(self)@.body.len() < BOARD_CELLS
                ==> !final(self)@.body.contains(final(self)@.apple),
            old(self)@.alive && !old(self)@.eats()
                ==> final(self)@.body.len() == old(self)@.body.len(),
    {
        let mut fresh = self.apple;
        let mut draws: u32 = 0;
        while draws < DRAW_LIMIT && !self.accepts(fresh)
            invariant
                draws <= DRAW_LIMIT,
                *self == *old(self),
            decreases DRAW_LIMIT - draws,
        {
            fresh = Position::random_in_bound(rng);
            draws += 1;
        }
        self.tick_with(fresh);
    }

    /// The score: how many cells the snake has grown since the start.
    pub fn score(&self) -> (score: usize)
        ensures
            score == self@.score(),
    {
        proof {
            use_type_invariant(self);
        }
        self.snake.len() - INITIAL_LENGTH
    }
}

/// The starting state is well formed.
pub proof fn lemma_initial_well_formed()
    ensures
        GameView::initial().well_formed(),
{
}

/// Restarting twice leaves the same state as restarting once, and that
/// state does not depend on the one before: it is the well-formed starting
/// state, with a score of zero.
pub proof fn lemma_reset_idempotent(s: GameView, t: GameView)
    ensures
        s.reset().reset() == s.reset(),
        s.reset() == t.reset(),
        s.reset().well_formed(),
        s.reset().alive,
        s.reset().score() == 0,
{
    lemma_initial_well_formed();
}

/// A request for a heading changes nothing but the heading, and leads from
/// a well-formed state to a well-formed state.
pub proof fn lemma_turn_keeps_well_formed(s: GameView, heading: Move)
    requires
        s.well_formed(),
    ensures
        s.turned(heading).well_formed(),
        s.turned(heading).body == s.body,
        s.turned(heading).apple == s.apple,
        s.turned(heading).alive == s.alive,
        s.turned(heading).heading == heading || s.turned(heading).heading == s.heading,
{
}

/// A dead snake is frozen: neither a request for a heading nor a tick
/// changes anything.
pub proof fn lemma_dead_is_frozen(s: GameView, heading: Move, fresh: Position)
    requires
        !s.alive,
    ensures
        s.turned(heading) == s,
        s.ticked(fresh) == s,
{
}

/// The snake never turns straight back: a heading that leads away from the
/// second cell still does so after any request and any tick.
pub proof fn lemma_never_reverses(s: GameView, heading: Move, fresh: Position)
    requires
        s.well_formed(),
        s.heads_away(),
    ensures
        s.turned(heading).heads_away(),
        s.ticked(fresh).heads_away(),
{
}

/// A tick that does not eat the apple leaves the snake as long as it was,
/// whether or not the snake survives it.
pub proof fn lemma_plain_move_preserves_length(s: GameView, fresh: Position)
    requires
        s.alive,
        s.next_head() != s.apple,
    ensures
        s.ticked(fresh).body.len() == s.body.len(),
        s.ticked(fresh).apple == s.apple,
{
}

/// A tick that eats the apple makes the snake one cell longer, keeps it
/// alive, and puts the new apple on the cell handed in, off the snake.
pub proof fn lemma_eating_grows(s: GameView, fresh: Position)
    requires
        s.well_formed(),
        s.eats(),
        s.accepts(fresh),
    ensures
        s.ticked(fresh).body.len() == s.body.len() + 1,
        s.ticked(fresh).alive,
        s.ticked(fresh).apple == fresh,
        !s.ticked(fresh).body.contains(s.ticked(fresh).apple),
{
    if covers_board(s.body) {
        lemma_grown_contains(s, fresh);
    }
}

/// A live snake fits the board: it is no longer than the board has cells,
/// and it leaves no cell free exactly when it is that long. Until then the
/// apple lies off the snake.
pub proof fn lemma_snake_fits_board(s: GameView)
    requires
        s.well_formed(),
        s.alive,
    ensures
        s.body.len() <= BOARD_CELLS,
        s.score() <= BOARD_CELLS - INITIAL_LENGTH,
        covers_board(s.body) <==> s.body.len() == BOARD_CELLS,
        s.body.len() < BOARD_CELLS ==> !s.body.contains(s.apple),
{
    lemma_board_capacity(s.body);
}

/// The score is never negative and counts growth: a tick that eats the
/// apple raises it by one, and any other tick leaves it as it was.
pub proof fn lemma_score_counts_growth(s: GameView, fresh: Position)
    requires
        s.well_formed(),
    ensures
        s.score() >= 0,
        s.eats() ==> s.ticked(fresh).score() == s.score() + 1,
        !s.eats() ==> s.ticked(fresh).score() == s.score(),
{
}

/// A cell lies on the snake after the head has moved on if it is the cell
/// ahead or lay on the snake before.
pub proof fn lemma_grown_contains(s: GameView, cell: Position)
    ensures
        s.grown().contains(cell) <==> cell == s.next_head() || s.body.contains(cell),
{
    let grown = s.grown();
    assert(grown[0] == s.next_head());
    if s.body.contains(cell) {
        let i = choose|i: int| 0 <= i < s.body.len() && s.body[i] == cell;
        assert(grown[i + 1] == cell);
    }
    if grown.contains(cell) {
        let i = choose|i: int| 0 <= i < grown.len() && grown[i] == cell;
        if i > 0 {
            assert(s.body[i - 1] == cell);
        }
    }
}

/// A tick leads from a well-formed state to a well-formed state, whenever
/// the cell handed in will do for a new apple or the board has no room for
/// one.
pub proof fn lemma_tick_keeps_well_formed(s: GameView, fresh: Position)
    requires
        s.well_formed(),
        s.accepts(fresh) || covers_board(s.grown()),
    ensures
        s.ticked(fresh).well_formed(),
{
}

} // verus!

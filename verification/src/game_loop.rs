//! The frame loop's decisions: restart, steering, and when a tick is due.

use crate::body::covers_board;
use crate::direction::{Key, Move};
use crate::game::{Game, GameView};
use crate::grid::Position;
use rand::rngs::ThreadRng;
use vstd::prelude::*;

verus! {

/// Number of frames that the snake rests on a cell: every frame that finds
/// the counter at this value is a tick.
pub const FRAMES_PER_TICK: u32 = 10;

/// Which of the game's keys are held down during a frame.
#[derive(Clone, Copy, Debug, PartialEq, Eq, Structural)]
pub struct KeysDown {
    pub w: bool,
    pub s: bool,
    pub a: bool,
    pub d: bool,
    pub space: bool,
}

impl KeysDown {
    /// Whether `key` is held down.
    pub open spec fn holds(self, key: Key) -> bool {
        match key {
            Key::W => self.w,
            Key::S => self.s,
            Key::A => self.a,
            Key::D => self.d,
            Key::Space => self.space,
        }
    }

    /// Whether `key` is held down.
    pub fn is_down(&self, key: Key) -> (down: bool)
        ensures
            down == self.holds(key),
    {
        match key {
            Key::W => self.w,
            Key::S => self.s,
            Key::A => self.a,
            Key::D => self.d,
            Key::Space => self.space,
        }
    }
}

/// The game after one key has been looked at: `heading` is requested if its
/// key is down.
pub open spec fn pressed(game: GameView, keys: KeysDown, heading: Move) -> GameView {
    if keys.holds(heading.binding()) {
        game.turned(heading)
    } else {
        game
    }
}

/// The game after the held keys have been looked at for each of `headings`
/// in turn: every heading whose key is down is requested, so among the
/// requests that the game takes up the last one stands.
pub open spec fn steered(game: GameView, keys: KeysDown, headings: Seq<Move>) -> GameView
    decreases headings.len(),
{
    if headings.len() == 0 {
        game
    } else {
        pressed(steered(game, keys, headings.drop_last()), keys, headings.last())
    }
}

/// What a running loop is, as plain mathematics.
pub struct LoopView {
    /// The game being played.
    pub game: GameView,
    /// Frames counted since the last tick.
    pub frame_count: nat,
}

impl LoopView {
    /// The loop before its first frame.
    pub open spec fn initial() -> LoopView {
        LoopView { game: GameView::initial(), frame_count: 0 }
    }

    /// What holds of every state that a loop can be in: the game is well
    /// formed, the counter is not past the frame of a tick, and it stands
    /// at zero while the snake is dead.
    pub open spec fn well_formed(self) -> bool {
        &&& self.game.well_formed()
        &&& self.frame_count <= FRAMES_PER_TICK
        &&& !self.game.alive ==> self.frame_count == 0
    }

    /// Whether the next frame is a tick.
    pub open spec fn tick_due(self) -> bool {
        self.frame_count >= FRAMES_PER_TICK
    }

    /// The game after the first two steps of a frame: a dead game starts
    /// over if the space bar is down, then the held keys steer the snake.
    pub open spec fn after_input(self, keys: KeysDown) -> GameView {
        let game = if !self.game.alive && keys.space {
            self.game.reset()
        } else {
            self.game
        };
        steered(game, keys, Move::order())
    }

    /// The loop after one frame in which `keys` are held and `fresh` is the
    /// cell found for a new apple, should the frame need one.
    ///
    /// After the input has been dealt with, a tick is made if one is due,
    /// which clears the counter. Then the frame itself is counted, but only
    /// while the snake is alive.
    pub open spec fn frame(self, keys: KeysDown, fresh: Position) -> LoopView {
        let steered = self.after_input(keys);
        let game = if self.tick_due() {
            steered.ticked(fresh)
        } else {
            steered
        };
        let count = if self.tick_due() {
            0
        } else {
            self.frame_count
        };
        LoopView {
            game,
            frame_count: if game.alive {
                count + 1
            } else {
                count
            },
        }
    }
}

/// A game together with the frame counter that paces it.
#[derive(Debug)]
pub struct GameLoop {
    game: Game,
    frame_count: u32,
}

impl View for GameLoop {
    type V = LoopView;

    closed spec fn view(&self) -> LoopView {
        LoopView { game: self.game@, frame_count: self.frame_count as nat }
    }
}

impl GameLoop {
    /// Every loop is in a well-formed state, at all times.
    #[verifier::type_invariant]
    pub open spec fn well_formed(self) -> bool {
        self@.well_formed()
    }

    /// A loop at the start of a new game.
    pub fn new() -> (this: GameLoop)
        ensures
            this@ == LoopView::initial(),
            this@.well_formed(),
    {
        GameLoop { game: Game::init(), frame_count: 0 }
    }

    /// The game being played.
    pub fn game(&self) -> (game: &Game)
        ensures
            game@ == self@.game,
    {
        &self.game
    }

    /// Frames counted since the last tick.
    pub fn frame_count(&self) -> (count: u32)
        ensures
            count == self@.frame_count,
            count <= FRAMES_PER_TICK,
    {
        proof {
            use_type_invariant(self);
        }
        self.frame_count
    }

    /// Plays one frame with the given keys held down.
    pub fn frame(&mut self, keys: &KeysDown, rng: &mut ThreadRng)
        ensures
            final(self)@ == old(self)@.frame(*keys, final(self)@.game.apple),
            final(self)@.well_formed(),
    {
        proof {
            use_type_invariant(&*self);
        }
        // The game is worked on outside the loop's own state and put back
        // at the end.
        let mut game = Game::init();
        std::mem::swap(&mut game, &mut self.game);
        if game.is_dead() && keys.is_down(Key::Space) {
            game.reset();
        }
        let headings = Move::iter();
        let ghost start = game@;
        let mut i: usize = 0;
        while i < headings.len()
            invariant
                i <= headings.len(),
                headings@ == Move::order(),
                game@ == steered(start, *keys, Move::order().take(i as int)),
            decreases headings.len() - i,
        {
            let heading = headings[i];
            assert(Move::order().take(i + 1).drop_last() =~= Move::order().take(i as int));
            if keys.is_down(heading.key()) {
                game.request_direction(heading);
            }
            i += 1;
        }
        proof {
            assert(Move::order().take(i as int) =~= Move::order());
            lemma_steering_turns_only(start, *keys, Move::order());
        }
        let mut count = self.frame_count;
        if count >= FRAMES_PER_TICK {
            game.tick(rng);
            count = 0;
        }
        if !game.is_dead() {
            count += 1;
        }
        proof {
            use_type_invariant(&game);
        }
        *self = GameLoop { game, frame_count: count };
    }
}

/// Steering changes nothing but the heading, and leads from a well-formed
/// game to a well-formed game.
pub proof fn lemma_steering_turns_only(game: GameView, keys: KeysDown, headings: Seq<Move>)
    ensures
        steered(game, keys, headings).body == game.body,
        steered(game, keys, headings).apple == game.apple,
        steered(game, keys, headings).alive == game.alive,
        game.well_formed() ==> steered(game, keys, headings).well_formed(),
        !game.alive ==> steered(game, keys, headings) == game,
    decreases headings.len(),
{
    if headings.len() > 0 {
        lemma_steering_turns_only(game, keys, headings.drop_last());
    }
}

/// Over the four headings, steering looks at the keys for up, down, left
/// and right, in this order.
pub proof fn lemma_steering_order(game: GameView, keys: KeysDown)
    ensures
        steered(game, keys, Move::order()) == pressed(
            pressed(pressed(pressed(game, keys, Move::Up), keys, Move::Down), keys, Move::Left),
            keys,
            Move::Right,
        ),
{
    let all = Move::order();
    assert(all.drop_last() =~= seq![Move::Up, Move::Down, Move::Left]);
    assert(all.drop_last().drop_last() =~= seq![Move::Up, Move::Down]);
    assert(all.drop_last().drop_last().drop_last() =~= seq![Move::Up]);
    assert(all.drop_last().drop_last().drop_last().drop_last() =~= Seq::<Move>::empty());
    reveal_with_fuel(steered, 5);
}

/// A frame leads from a well-formed loop to a well-formed loop, whenever
/// the cell handed in will do for a new apple on a frame that ticks, or the
/// board has no room for one.
pub proof fn lemma_frame_keeps_well_formed(s: LoopView, keys: KeysDown, fresh: Position)
    requires
        s.well_formed(),
        s.tick_due() ==> s.after_input(keys).accepts(fresh) || covers_board(
            s.after_input(keys).grown(),
        ),
    ensures
        s.frame(keys, fresh).well_formed(),
{
    let start = if !s.game.alive && keys.space {
        s.game.reset()
    } else {
        s.game
    };
    lemma_steering_turns_only(start, keys, Move::order());
    if s.tick_due() {
        crate::game::lemma_tick_keeps_well_formed(s.after_input(keys), fresh);
    }
}

/// The counter paces the game: a tick is made on exactly the frames that
/// find the counter full, after which a live snake stands at one; every
/// other frame of a live snake counts up by one, and a dead snake keeps the
/// counter at zero until it is restarted.
pub proof fn lemma_frame_paces_ticks(s: LoopView, keys: KeysDown, fresh: Position)
    requires
        s.well_formed(),
    ensures
        s.tick_due() <==> s.frame_count == FRAMES_PER_TICK,
        s.tick_due() ==> s.frame(keys, fresh).game == s.after_input(keys).ticked(fresh),
        !s.tick_due() ==> s.frame(keys, fresh).game == s.after_input(keys),
        s.tick_due() && s.frame(keys, fresh).game.alive ==> s.frame(keys, fresh).frame_count == 1,
        !s.tick_due() && s.frame(keys, fresh).game.alive ==> s.frame(keys, fresh).frame_count
            == s.frame_count + 1,
        !s.frame(keys, fresh).game.alive ==> s.frame(keys, fresh).frame_count == 0,
        !s.game.alive && !keys.space ==> s.frame(keys, fresh) == s,
{
    let start = if !s.game.alive && keys.space {
        s.game.reset()
    } else {
        s.game
    };
    lemma_steering_turns_only(start, keys, Move::order());
}

} // verus!

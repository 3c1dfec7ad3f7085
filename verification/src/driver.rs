//! The loop around the game, as a state machine: what to do with each
//! frame of input, when to play a tick, and when to stop.

use crate::direction::Direction;
use crate::game::{make_game, Outcome, SnakeGame, State};
use vstd::prelude::*;

verus! {

/// Milliseconds that pass between two ticks of the game.
pub const TICK_MILLIS: u32 = 300;

/// Number of segments that a new game starts with.
pub const INITIAL_SEGMENTS: usize = 2;

/// Which of the four arrow keys are held down.
#[derive(Clone, Copy, Debug, PartialEq, Eq, Structural)]
pub struct Keys {
    pub up: bool,
    pub down: bool,
    pub left: bool,
    pub right: bool,
}

impl Keys {
    /// The one heading that the held keys ask for: the first that is
    /// held of up, down, left and right, and `Straight` if none is.
    pub open spec fn spec_direction(self) -> Direction {
        if self.up {
            Direction::Up
        } else if self.down {
            Direction::Down
        } else if self.left {
            Direction::Left
        } else if self.right {
            Direction::Right
        } else {
            Direction::Straight
        }
    }

    #[verifier::when_used_as_spec(spec_direction)]
    pub fn direction(self) -> (d: Direction)
        ensures
            d == self.spec_direction(),
    {
        if self.up {
            Direction::Up
        } else if self.down {
            Direction::Down
        } else if self.left {
            Direction::Left
        } else if self.right {
            Direction::Right
        } else {
            Direction::Straight
        }
    }
}

/// Whether a tick is due when this long has passed since the last one.
pub open spec fn spec_tick_due(elapsed_millis: u32) -> bool {
    elapsed_millis >= TICK_MILLIS
}

#[verifier::when_used_as_spec(spec_tick_due)]
pub fn tick_due(elapsed_millis: u32) -> (due: bool)
    ensures
        due == spec_tick_due(elapsed_millis),
{
    elapsed_millis >= TICK_MILLIS
}

/// What the front end saw in one turn of its loop.
#[derive(Clone, Copy, Debug, PartialEq, Eq, Structural)]
pub enum Event {
    /// The player closed the window or pressed escape.
    Close,
    /// Nothing of the kind: the time since the timer was last restarted,
    /// and the keys held now.
    Frame { elapsed_millis: u32, keys: Keys },
}

/// What the front end is to do next.
#[derive(Clone, Copy, Debug, PartialEq, Eq, Structural)]
pub enum Action {
    /// Leave without a word.
    Quit,
    /// Tell the player this final score, then leave.
    GameOver { score: usize },
    /// Draw the game and go on, after restarting the timer if a tick
    /// was played.
    Draw { restart_timer: bool },
}

/// Whether the loop is still going.
#[derive(Clone, Copy, Debug, PartialEq, Eq, Structural)]
pub enum Phase {
    Running,
    Terminated,
}

/// A driver as a mathematical value.
pub struct DriverState {
    pub game: State,
    pub score: nat,
    pub phase: Phase,
}

impl DriverState {
    /// What holds of a driver: while it runs, its game is in play and
    /// its score counts the segments that the snake has gained.
    pub open spec fn inv(self) -> bool {
        self.phase == Phase::Running ==> {
            &&& self.game.inv()
            &&& self.score + INITIAL_SEGMENTS == self.game.body.len()
        }
    }

    /// Whether the event makes the driver play a tick.
    pub open spec fn plays(self, event: Event) -> bool {
        &&& self.phase == Phase::Running
        &&& event matches Event::Frame { elapsed_millis, .. }
        &&& tick_due(elapsed_millis)
    }

    /// Whether the driver can take the event: if it makes the driver
    /// play a tick, the game must have room for that tick.
    pub open spec fn ready_for(self, event: Event) -> bool {
        event matches Event::Frame { keys, .. } ==> (self.plays(event) ==> self.game.has_room(
            keys.direction(),
        ))
    }

    /// Whether the event takes the driver from `self` to `next` with
    /// `action` for the front end.
    ///
    /// A driver that has stopped stays as it is and says `Quit`. A
    /// running one stops on `Close`, also with `Quit`. On a frame before
    /// the tick is due it changes nothing and asks for a drawing. On a
    /// frame with the tick due it plays a tick with the heading that the
    /// keys ask for: if that ends the game it stops and hands out the
    /// score, and if not it adds a point for growth, asks for a drawing
    /// and has the timer restarted.
    pub open spec fn advances_to(self, event: Event, next: DriverState, action: Action) -> bool {
        if self.phase == Phase::Terminated {
            next == self && action == Action::Quit
        } else {
            match event {
                Event::Close => {
                    &&& next == DriverState { phase: Phase::Terminated, ..self }
                    &&& action == Action::Quit
                },
                Event::Frame { elapsed_millis, keys } => {
                    if !tick_due(elapsed_millis) {
                        next == self && action == (Action::Draw { restart_timer: false })
                    } else {
                        &&& self.game.steps_to(keys.direction(), next.game)
                        &&& match self.game.outcome(keys.direction()) {
                            Outcome::Grow => {
                                &&& next.score == self.score + 1
                                &&& next.phase == Phase::Running
                                &&& action == (Action::Draw { restart_timer: true })
                            },
                            Outcome::Continue => {
                                &&& next.score == self.score
                                &&& next.phase == Phase::Running
                                &&& action == (Action::Draw { restart_timer: true })
                            },
                            Outcome::Terminate => {
                                &&& next.score == self.score
                                &&& next.phase == Phase::Terminated
                                &&& action == (Action::GameOver { score: self.score as usize })
                            },
                        }
                    }
                },
            }
        }
    }
}

/// The loop around one game: the game, the score and whether it runs.
pub struct Driver {
    game: SnakeGame,
    score: usize,
    phase: Phase,
}

impl View for Driver {
    type V = DriverState;

    closed spec fn view(&self) -> DriverState {
        DriverState { game: self.game@, score: self.score as nat, phase: self.phase }
    }
}

impl Driver {
    /// A running driver with a new game and no points.
    pub fn new() -> (driver: Driver)
        ensures
            driver@.inv(),
            driver@.phase == Phase::Running,
            driver@.score == 0,
            driver@.game.body.len() == INITIAL_SEGMENTS,
    {
        Driver { game: make_game(), score: 0, phase: Phase::Running }
    }

    /// The game, for drawing.
    pub fn game(&self) -> (game: &SnakeGame)
        ensures
            game@ == self@.game,
    {
        &self.game
    }

    /// The points so far.
    pub fn score(&self) -> (score: usize)
        ensures
            score == self@.score,
    {
        self.score
    }

    /// Whether the loop is still going.
    pub fn phase(&self) -> (phase: Phase)
        ensures
            phase == self@.phase,
    {
        self.phase
    }

    /// Whether the driver can take the event.
    pub fn ready_for(&self, event: Event) -> (r: bool)
        requires
            self@.inv(),
        ensures
            r == self@.ready_for(event),
    {
        match event {
            Event::Close => true,
            Event::Frame { elapsed_millis, keys } => {
                self.phase == Phase::Terminated || !tick_due(elapsed_millis) || self.game.room_for(
                    keys.direction(),
                )
            },
        }
    }

    /// Takes one event and says what the front end is to do.
    pub fn advance(&mut self, event: Event) -> (action: Action)
        requires
            old(self)@.inv(),
            old(self)@.ready_for(event),
        ensures
            final(self)@.inv(),
            old(self)@.advances_to(event, final(self)@, action),
    {
        if self.phase == Phase::Terminated {
            return Action::Quit;
        }
        match event {
            Event::Close => {
                self.phase = Phase::Terminated;
                Action::Quit
            },
            Event::Frame { elapsed_millis, keys } => {
                if !tick_due(elapsed_millis) {
                    return Action::Draw { restart_timer: false };
                }
                match self.game.step(keys.direction()) {
                    Outcome::Grow => {
                        proof {
                            self.game.lemma_body_fits();
                        }
                        self.score = self.score + 1;
                        Action::Draw { restart_timer: true }
                    },
                    Outcome::Continue => Action::Draw { restart_timer: true },
                    Outcome::Terminate => {
                        self.phase = Phase::Terminated;
                        Action::GameOver { score: self.score }
                    },
                }
            },
        }
    }
}

/// A driver that has stopped never runs again, whatever it is given.
pub proof fn lemma_terminated_is_absorbing(
    before: DriverState,
    event: Event,
    after: DriverState,
    action: Action,
)
    requires
        before.phase == Phase::Terminated,
        before.advances_to(event, after, action),
    ensures
        after == before,
        after.phase == Phase::Terminated,
        action == Action::Quit,
{
}

/// The score moves with the game: a frame adds a point exactly when it
/// plays a tick that makes the snake grow, and the driver stops exactly
/// on `Close` and on a tick that ends the game.
pub proof fn lemma_score_and_phase(
    before: DriverState,
    event: Event,
    after: DriverState,
    action: Action,
)
    requires
        before.phase == Phase::Running,
        before.advances_to(event, after, action),
    ensures
        after.score == before.score + (if before.plays(event) && before.game.outcome(
            event->keys.direction(),
        ) == Outcome::Grow {
            1nat
        } else {
            0nat
        }),
        after.phase == Phase::Terminated <==> event == Event::Close || (before.plays(event)
            && before.game.outcome(event->keys.direction()) == Outcome::Terminate),
{
}

} // verus!

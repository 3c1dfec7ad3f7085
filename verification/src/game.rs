//! The state of a game and its transition, one tick at a time.

use crate::direction::Direction;
use crate::food::{has_vacancy, is_vacant, lemma_short_snake_leaves_vacancy, put_food, vacant};
use crate::grid::{
    all_in_grid, cell_at, contains_cell, index_of, lemma_cell_index, nth_cell, Cell, GRID_CELLS,
};
use std::collections::VecDeque;
use vstd::prelude::*;

verus! {

/// What one tick did to the game.
#[derive(Clone, Copy, Debug, PartialEq, Eq, Structural)]
pub enum Outcome {
    /// The snake ate the food and is one segment longer.
    Grow,
    /// The snake moved on.
    Continue,
    /// The snake ran into itself or left the board: the game is over.
    Terminate,
}

impl Outcome {
    /// The points a tick is worth: 1 for growth, 0 for a plain move and
    /// -1 for the end of the game.
    pub open spec fn points(self) -> int {
        match self {
            Outcome::Grow => 1,
            Outcome::Continue => 0,
            Outcome::Terminate => -1,
        }
    }

    /// The points of the tick, computed.
    pub fn reward(self) -> (r: i32)
        ensures
            r == self.points(),
    {
        match self {
            Outcome::Grow => 1,
            Outcome::Continue => 0,
            Outcome::Terminate => -1,
        }
    }
}

/// A game as a mathematical value: the head, the body from the segment
/// next to the head down to the tail, the food and the heading.
pub struct State {
    pub head: Cell,
    pub body: Seq<Cell>,
    pub food: Cell,
    pub heading: Direction,
}

impl State {
    /// What holds of a game in play. The body has a segment; the whole
    /// snake lies on the board and the head on none of the segments; the
    /// food lies on a vacant cell; and the snake heads one of the four
    /// ways, away from its first segment, which trails right behind.
    pub open spec fn inv(self) -> bool {
        &&& self.body.len() >= 1
        &&& self.head.in_grid()
        &&& forall|i: int| 0 <= i < self.body.len() ==> (#[trigger] self.body[i]).in_grid()
        &&& !self.body.contains(self.head)
        &&& vacant(self.food, self.head, self.body)
        &&& self.heading != Direction::Straight
        &&& self.head == self.body[0].neighbour(self.heading)
    }

    /// The heading of the next move when `requested` is asked for.
    pub open spec fn next_heading(self, requested: Direction) -> Direction {
        self.heading.turned(requested)
    }

    /// The cell that the head moves to.
    pub open spec fn next_head(self, requested: Direction) -> Cell {
        self.head.neighbour(self.next_heading(requested))
    }

    /// Whether the move takes the head onto the food.
    pub open spec fn eats(self, requested: Direction) -> bool {
        self.next_head(requested) == self.food
    }

    /// The body after the move: the old head in front, and the old tail
    /// gone unless the snake eats.
    pub open spec fn next_body(self, requested: Direction) -> Seq<Cell> {
        if self.eats(requested) {
            seq![self.head] + self.body
        } else {
            seq![self.head] + self.body.drop_last()
        }
    }

    /// Whether the move ends with the head on a segment.
    pub open spec fn hits_itself(self, requested: Direction) -> bool {
        self.next_body(requested).contains(self.next_head(requested))
    }

    /// Whether the move takes the head off the board.
    pub open spec fn hits_wall(self, requested: Direction) -> bool {
        !self.next_head(requested).in_grid()
    }

    /// What the tick reports. Food is looked at first, then the snake's
    /// own body, then the walls.
    pub open spec fn outcome(self, requested: Direction) -> Outcome {
        if self.eats(requested) {
            Outcome::Grow
        } else if self.hits_itself(requested) || self.hits_wall(requested) {
            Outcome::Terminate
        } else {
            Outcome::Continue
        }
    }

    /// Whether new food can be placed if the move eats the food there
    /// is: the snake, one segment longer, must leave a cell vacant. A
    /// snake that is two cells short of the board always does.
    pub open spec fn has_room(self, requested: Direction) -> bool {
        ||| self.body.len() + 2 < GRID_CELLS
        ||| self.eats(requested) ==> has_vacancy(
            self.next_head(requested),
            self.next_body(requested),
        )
    }

    /// Whether a tick that asks for `requested` can be played: the snake
    /// has a body, its head is on the board, and the game has room.
    pub open spec fn can_step(self, requested: Direction) -> bool {
        &&& self.body.len() >= 1
        &&& self.head.in_grid()
        &&& self.has_room(requested)
    }

    /// Whether `next` is what one tick that asks for `requested` makes
    /// of `self`. Everything is determined but the place of new food,
    /// which is some vacant cell.
    pub open spec fn steps_to(self, requested: Direction, next: State) -> bool {
        &&& next.head == self.next_head(requested)
        &&& next.heading == self.next_heading(requested)
        &&& next.body == self.next_body(requested)
        &&& if self.eats(requested) {
            vacant(next.food, next.head, next.body)
        } else {
            next.food == self.food
        }
    }
}

/// A game of snake.
pub struct SnakeGame {
    head: Cell,
    segments: VecDeque<Cell>,
    food: Cell,
    current_direction: Direction,
}

impl View for SnakeGame {
    type V = State;

    closed spec fn view(&self) -> State {
        State {
            head: self.head,
            body: self.segments@,
            food: self.food,
            heading: self.current_direction,
        }
    }
}

/// A new game: the head on (5, 5) heading right, two segments behind it
/// on (4, 5) and (3, 5), and food somewhere vacant.
pub fn make_game() -> (game: SnakeGame)
    ensures
        game@.inv(),
        game@.head == (Cell { x: 5, y: 5 }),
        game@.body == seq![Cell { x: 4, y: 5 }, Cell { x: 3, y: 5 }],
        game@.heading == Direction::Right,
        vacant(game@.food, game@.head, game@.body),
{
    let mut segments: VecDeque<Cell> = VecDeque::new();
    segments.push_back(Cell { x: 4, y: 5 });
    segments.push_back(Cell { x: 3, y: 5 });
    let head = Cell { x: 5, y: 5 };
    proof {
        assert(segments@ == seq![Cell { x: 4, y: 5 }, Cell { x: 3, y: 5 }]);
        lemma_short_snake_leaves_vacancy(head, segments@);
    }
    let food = put_food(&head, &segments);
    SnakeGame { head, segments, food, current_direction: Direction::Right }
}

impl SnakeGame {
    /// A game in the given position, if it is one of a game in play.
    pub fn new(
        head: Cell,
        segments: VecDeque<Cell>,
        food: Cell,
        current_direction: Direction,
    ) -> (game: Option<SnakeGame>)
        ensures
            game.is_some() == (State {
                head,
                body: segments@,
                food,
                heading: current_direction,
            }).inv(),
            game matches Some(g) ==> g@ == (State {
                head,
                body: segments@,
                food,
                heading: current_direction,
            }),
    {
        let game = SnakeGame { head, segments, food, current_direction };
        if game.in_play() {
            Some(game)
        } else {
            None
        }
    }

    /// Whether the game is in play.
    pub fn in_play(&self) -> (r: bool)
        ensures
            r == self@.inv(),
    {
        if self.segments.len() == 0 || !self.head.in_grid() || !all_in_grid(&self.segments) {
            return false;
        }
        if contains_cell(&self.segments, &self.head) || !is_vacant(
            &self.food,
            &self.head,
            &self.segments,
        ) {
            return false;
        }
        self.current_direction != Direction::Straight && self.head == self.segments[0].neighbour(
            self.current_direction,
        )
    }

    /// Whether a tick that asks for `direction` can be played.
    pub fn can_step(&self, direction: Direction) -> (r: bool)
        ensures
            r == self@.can_step(direction),
    {
        self.segments.len() >= 1 && self.head.in_grid() && self.room_for(direction)
    }

    /// Whether the game has room for a tick that asks for `direction`.
    pub fn room_for(&self, direction: Direction) -> (r: bool)
        requires
            self@.head.in_grid(),
        ensures
            r == self@.has_room(direction),
    {
        if self.segments.len() < GRID_CELLS as usize - 2 {
            return true;
        }
        let next = self.head.neighbour(self.current_direction.turned(direction));
        if next != self.food {
            return true;
        }
        let ghost grown = seq![self.head] + self.segments@;
        let mut k: i32 = 0;
        while k < GRID_CELLS
            invariant
                0 <= k <= GRID_CELLS,
                grown == seq![self.head] + self.segments@,
                self@.next_head(direction) == self.food,
                self@.next_body(direction) == grown,
                forall|j: int| 0 <= j < k ==> !vacant(#[trigger] nth_cell(j), self.food, grown),
            decreases GRID_CELLS - k,
        {
            let cell = cell_at(k);
            let taken = cell == self.food || cell == self.head || contains_cell(
                &self.segments,
                &cell,
            );
            proof {
                lemma_in_longer_snake(cell, self.head, self.segments@);
            }
            if !taken {
                assert(vacant(cell, self@.next_head(direction), self@.next_body(direction)));
                return true;
            }
            k += 1;
        }
        proof {
            if has_vacancy(self.food, grown) {
                let free = choose|c: Cell| #[trigger] vacant(c, self.food, grown);
                lemma_cell_index(free);
                assert(!vacant(nth_cell(index_of(free)), self.food, grown));
            }
        }
        false
    }

    /// The cell of the head.
    pub fn head(&self) -> (head: Cell)
        ensures
            head == self@.head,
    {
        self.head
    }

    /// The segments of the body, from the one next to the head to the tail.
    pub fn segments(&self) -> (segments: &VecDeque<Cell>)
        ensures
            segments@ == self@.body,
    {
        &self.segments
    }

    /// The cell of the food.
    pub fn food(&self) -> (food: Cell)
        ensures
            food == self@.food,
    {
        self.food
    }

    /// The heading of the last move.
    pub fn current_direction(&self) -> (heading: Direction)
        ensures
            heading == self@.heading,
    {
        self.current_direction
    }

    /// The body of a game held in memory has a length that fits the
    /// machine's word.
    pub proof fn lemma_body_fits(&self)
        ensures
            self@.body.len() <= usize::MAX,
    {
        assert(self.segments.len() == self.segments@.len());
    }

    /// Plays one tick.
    ///
    /// The snake takes up `direction` unless that is `Straight` or the
    /// reverse of its heading, and moves one cell the way it then heads:
    /// the old head becomes the first segment and the tail is given up.
    /// If the head comes to lie on the food, the tail stays after all,
    /// new food is put on a vacant cell, and the tick reports `Grow`. If
    /// not, and the head lies on a segment or off the board, it reports
    /// `Terminate`; otherwise `Continue`. A game in play is still in
    /// play after a tick that does not end it.
    pub fn step(&mut self, direction: Direction) -> (outcome: Outcome)
        requires
            old(self)@.can_step(direction),
        ensures
            outcome == old(self)@.outcome(direction),
            old(self)@.steps_to(direction, final(self)@),
            old(self)@.inv() && outcome != Outcome::Terminate ==> final(self)@.inv(),
            old(self)@.inv() && outcome != Outcome::Terminate ==> final(self)@.head.in_grid(),
            old(self)@.inv() && outcome != Outcome::Terminate ==> !final(self)@.body.contains(
                final(self)@.head,
            ),
            outcome == Outcome::Grow ==> final(self)@.body.len() == old(self)@.body.len() + 1,
            outcome != Outcome::Grow ==> final(self)@.body.len() == old(self)@.body.len(),
            outcome == Outcome::Grow ==> vacant(
                final(self)@.food,
                final(self)@.head,
                final(self)@.body,
            ),
    {
        let ghost before = self@;
        let old_head = self.head;
        let n = self.segments.len();
        let old_tail = self.segments[n - 1];
        self.segments.pop_back();
        self.current_direction = self.current_direction.turned(direction);
        self.head = old_head.neighbour(self.current_direction);
        self.segments.push_front(old_head);
        assert(self.segments@ == seq![before.head] + before.body.drop_last());
        if self.head == self.food {
            self.segments.push_back(old_tail);
            assert(self.segments@ == seq![before.head] + before.body);
            proof {
                if before.body.len() + 2 < GRID_CELLS {
                    lemma_short_snake_leaves_vacancy(self.head, self.segments@);
                }
            }
            self.food = put_food(&self.head, &self.segments);
            proof {
                if before.inv() {
                    lemma_step_keeps_inv(before, direction, self@);
                }
            }
            return Outcome::Grow;
        }
        if contains_cell(&self.segments, &self.head) {
            return Outcome::Terminate;
        }
        if !self.head.in_grid() {
            return Outcome::Terminate;
        }
        proof {
            if before.inv() {
                lemma_step_keeps_inv(before, direction, self@);
            }
        }
        Outcome::Continue
    }
}

/// A cell is on the snake with its head put in front of the body if it
/// is that head or on the body.
proof fn lemma_in_longer_snake(cell: Cell, head: Cell, body: Seq<Cell>)
    ensures
        (seq![head] + body).contains(cell) <==> cell == head || body.contains(cell),
{
    let longer = seq![head] + body;
    if cell == head {
        assert(longer[0] == cell);
    }
    if body.contains(cell) {
        let i = choose|i: int| 0 <= i < body.len() && body[i] == cell;
        assert(longer[i + 1] == cell);
    }
    if longer.contains(cell) {
        let i = choose|i: int| 0 <= i < longer.len() && longer[i] == cell;
        if i > 0 {
            assert(body[i - 1] == cell);
        }
    }
}

/// A game in play stays in play over every tick that does not end it:
/// the head is then on the board and on none of the segments.
pub proof fn lemma_step_keeps_inv(before: State, requested: Direction, after: State)
    requires
        before.inv(),
        before.steps_to(requested, after),
        before.outcome(requested) != Outcome::Terminate,
    ensures
        after.inv(),
        after.head.in_grid(),
        !after.body.contains(after.head),
{
    let moved = seq![before.head] + before.body.drop_last();
    let grown = seq![before.head] + before.body;
    assert(after.body[0] == before.head);
    if before.eats(requested) {
        assert(after.body == grown);
        assert forall|i: int| 0 <= i < grown.len() implies (#[trigger] grown[i]).in_grid() by {
            if i > 0 {
                assert(grown[i] == before.body[i - 1]);
            }
        }
        if grown.contains(after.head) {
            let i = choose|i: int| 0 <= i < grown.len() && grown[i] == after.head;
            if i > 0 {
                assert(before.body[i - 1] == before.food);
            }
        }
    } else {
        assert(after.body == moved);
        assert forall|i: int| 0 <= i < moved.len() implies (#[trigger] moved[i]).in_grid() by {
            if i > 0 {
                assert(moved[i] == before.body[i - 1]);
            }
        }
        if moved.contains(before.food) {
            let i = choose|i: int| 0 <= i < moved.len() && moved[i] == before.food;
            if i > 0 {
                assert(before.body[i - 1] == before.food);
            }
        }
    }
}

/// However long a game is played, as long as no tick ends it the head
/// stays on the board and off the body: `states` are the positions of a
/// game from a position in play on, each made from the one before by a
/// tick with the request of the same index, none of which reports
/// `Terminate`.
pub proof fn lemma_play_keeps_inv(states: Seq<State>, requests: Seq<Direction>)
    requires
        states.len() == requests.len() + 1,
        states[0].inv(),
        forall|i: int|
            0 <= i < requests.len() ==> (#[trigger] states[i]).steps_to(requests[i], states[i + 1]),
        forall|i: int|
            0 <= i < requests.len() ==> (#[trigger] states[i]).outcome(requests[i])
                != Outcome::Terminate,
    ensures
        forall|i: int| 0 <= i < states.len() ==> (#[trigger] states[i]).inv(),
        forall|i: int| 0 <= i < states.len() ==> (#[trigger] states[i]).head.in_grid(),
        forall|i: int|
            0 <= i < states.len() ==> !(#[trigger] states[i]).body.contains(states[i].head),
    decreases requests.len(),
{
    if requests.len() > 0 {
        let n = requests.len() as int;
        let earlier = states.drop_last();
        let asked = requests.drop_last();
        assert forall|i: int| 0 <= i < asked.len() implies (#[trigger] earlier[i]).steps_to(
            asked[i],
            earlier[i + 1],
        ) by {
            assert(states[i].steps_to(requests[i], states[i + 1]));
        }
        assert forall|i: int| 0 <= i < asked.len() implies (#[trigger] earlier[i]).outcome(asked[i])
            != Outcome::Terminate by {
            assert(states[i].outcome(requests[i]) != Outcome::Terminate);
        }
        lemma_play_keeps_inv(earlier, asked);
        assert(earlier[n - 1].inv());
        assert(states[n - 1].steps_to(requests[n - 1], states[n]));
        lemma_step_keeps_inv(states[n - 1], requests[n - 1], states[n]);
        assert forall|i: int| 0 <= i < states.len() implies (#[trigger] states[i]).inv() by {
            if i < n {
                assert(earlier[i].inv());
            }
        }
    }
}

/// A tick lengthens the body by one segment if it reports `Grow` and
/// leaves its length alone if it does not.
pub proof fn lemma_growth(before: State, requested: Direction, after: State)
    requires
        before.body.len() >= 1,
        before.steps_to(requested, after),
    ensures
        before.outcome(requested) == Outcome::Grow ==> after.body.len() == before.body.len() + 1,
        before.outcome(requested) != Outcome::Grow ==> after.body.len() == before.body.len(),
{
}

/// Asking a snake to turn back does what asking nothing does: the head
/// moves on along the current heading, and body, heading and outcome are
/// the same either way.
pub proof fn lemma_reversal_guard(state: State)
    ensures
        state.next_head(state.heading.opposite()) == state.next_head(Direction::Straight),
        state.next_head(Direction::Straight) == state.head.neighbour(state.heading),
        state.next_heading(state.heading.opposite()) == state.heading,
        state.next_heading(Direction::Straight) == state.heading,
        state.next_body(state.heading.opposite()) == state.next_body(Direction::Straight),
        state.outcome(state.heading.opposite()) == state.outcome(Direction::Straight),
{
}

/// A snake in play that does not turn moves its head as far beyond
/// itself as its first segment lies behind: by the difference of the
/// two cells.
pub proof fn lemma_straight_extends_the_snake(state: State, requested: Direction)
    requires
        state.inv(),
        !state.heading.accepts(requested),
    ensures
        state.next_head(requested).x == state.head.x + (state.head.x - state.body[0].x),
        state.next_head(requested).y == state.head.y + (state.head.y - state.body[0].y),
{
}

} // verus!

//! The logo's vertical position: it moves one row a frame between two rows
//! and rests at each before it turns back.

use vstd::prelude::*;

verus! {

/// The highest offset: the logo stands at the top row.
pub const TOP: i32 = 0;

/// The lowest offset.
pub const BOTTOM: i32 = -70;

/// How long the logo rests at a bound, in milliseconds.
pub const PAUSE_MS: u32 = 5000;

/// Which way the offset is moving.
#[derive(Clone, Copy, Debug, PartialEq, Eq, Structural)]
pub enum Direction {
    /// Towards [`BOTTOM`]: the offset goes down by one a frame.
    Descending,
    /// Towards [`TOP`]: the offset goes up by one a frame.
    Ascending,
}

impl Direction {
    /// The other direction.
    pub open spec fn flipped(self) -> Direction {
        match self {
            Direction::Descending => Direction::Ascending,
            Direction::Ascending => Direction::Descending,
        }
    }

    /// The bound that lies ahead.
    pub open spec fn bound(self) -> int {
        match self {
            Direction::Descending => BOTTOM as int,
            Direction::Ascending => TOP as int,
        }
    }

    /// What one move adds to the offset.
    pub open spec fn delta(self) -> int {
        match self {
            Direction::Descending => -1,
            Direction::Ascending => 1,
        }
    }
}

/// The position of the logo as a mathematical value.
pub struct Position {
    pub offset: int,
    pub direction: Direction,
}

impl Position {
    /// The offset lies between the two bounds.
    pub open spec fn in_bounds(self) -> bool {
        BOTTOM <= self.offset <= TOP
    }

    /// The offset has reached the bound it was moving towards.
    pub open spec fn at_turn(self) -> bool {
        self.offset == self.direction.bound()
    }

    /// The position one frame later: turned round on the spot at a turn,
    /// moved by one row otherwise.
    pub open spec fn next(self) -> Position {
        if self.at_turn() {
            Position { offset: self.offset, direction: self.direction.flipped() }
        } else {
            Position { offset: self.offset + self.direction.delta(), direction: self.direction }
        }
    }

    /// The position `n` frames later.
    pub open spec fn after(self, n: nat) -> Position
        decreases n,
    {
        if n == 0 {
            self
        } else {
            self.after((n - 1) as nat).next()
        }
    }
}

/// What a frame did to the position.
#[derive(Clone, Copy, Debug, PartialEq, Eq, Structural)]
pub enum Step {
    /// The offset moved by one row.
    Moved,
    /// The offset stood at a bound: the frame is to be held for `pause_ms`
    /// milliseconds, and the direction has turned.
    Turned { pause_ms: u32 },
}

/// The state of the bouncing logo.
pub struct Bounce {
    offset: i32,
    direction: Direction,
}

impl View for Bounce {
    type V = Position;

    closed spec fn view(&self) -> Position {
        Position { offset: self.offset as int, direction: self.direction }
    }
}

impl Bounce {
    #[verifier::type_invariant]
    spec fn within_bounds(self) -> bool {
        BOTTOM <= self.offset <= TOP
    }

    /// The logo at the top, about to descend.
    pub fn new() -> (r: Self)
        ensures
            r@ == (Position { offset: TOP as int, direction: Direction::Descending }),
    {
        Bounce { offset: TOP, direction: Direction::Descending }
    }

    /// The logo at `offset` moving in `direction`; `None` where `offset`
    /// lies outside the two bounds.
    pub fn at(offset: i32, direction: Direction) -> (r: Option<Self>)
        ensures
            r is Some <==> BOTTOM <= offset <= TOP,
            r matches Some(b) ==> b@ == (Position { offset: offset as int, direction }),
    {
        if BOTTOM <= offset && offset <= TOP {
            Some(Bounce { offset, direction })
        } else {
            None
        }
    }

    /// The row offset at which the logo is drawn.
    pub fn offset(&self) -> (r: i32)
        ensures
            r == self@.offset,
            BOTTOM <= r <= TOP,
    {
        proof {
            use_type_invariant(self);
        }
        self.offset
    }

    /// The direction of travel.
    pub fn direction(&self) -> (r: Direction)
        ensures
            r == self@.direction,
    {
        self.direction
    }

    /// Whether the logo has reached the bound it was moving towards.
    pub fn at_turn(&self) -> (r: bool)
        ensures
            r == self@.at_turn(),
    {
        match self.direction {
            Direction::Descending => self.offset == BOTTOM,
            Direction::Ascending => self.offset == TOP,
        }
    }

    /// Advances by one frame. At a turn the offset stays, the direction
    /// flips and the frame is to be held; otherwise the offset moves one row
    /// in the direction of travel.
    pub fn step(&mut self) -> (r: Step)
        ensures
            final(self)@ == old(self)@.next(),
            final(self)@.in_bounds(),
            r == if old(self)@.at_turn() {
                (Step::Turned { pause_ms: PAUSE_MS })
            } else {
                Step::Moved
            },
    {
        proof {
            use_type_invariant(&*self);
        }
        match self.direction {
            Direction::Descending => {
                if self.offset == BOTTOM {
                    self.direction = Direction::Ascending;
                    Step::Turned { pause_ms: PAUSE_MS }
                } else {
                    self.offset = self.offset - 1;
                    Step::Moved
                }
            },
            Direction::Ascending => {
                if self.offset == TOP {
                    self.direction = Direction::Descending;
                    Step::Turned { pause_ms: PAUSE_MS }
                } else {
                    self.offset = self.offset + 1;
                    Step::Moved
                }
            },
        }
    }
}

/// The offset never leaves the two bounds, however many frames pass.
pub proof fn lemma_stays_in_bounds(p: Position, n: nat)
    requires
        p.in_bounds(),
    ensures
        p.after(n).in_bounds(),
    decreases n,
{
    if n > 0 {
        lemma_stays_in_bounds(p, (n - 1) as nat);
    }
}

/// The direction flips in a frame exactly when the offset stands at the
/// bound ahead; the offset then stays where it is, on that bound. In every
/// other frame the direction stays and the offset moves by one row.
pub proof fn lemma_turns_exactly_at_bound(p: Position)
    requires
        p.in_bounds(),
    ensures
        p.next().direction != p.direction <==> p.at_turn(),
        p.at_turn() ==> p.next().offset == p.offset && (p.offset == TOP || p.offset == BOTTOM),
        !p.at_turn() ==> p.next().offset == p.offset + p.direction.delta(),
{
}

/// One arrival at a bound flips the direction once: the frame after a turn
/// moves, and the next turn comes only at the other bound.
pub proof fn lemma_one_turn_per_hit(p: Position)
    requires
        p.in_bounds(),
        p.at_turn(),
    ensures
        !p.next().at_turn(),
        p.next().next().direction == p.next().direction,
        p.next().next().offset == p.offset - p.direction.delta(),
{
}

/// Between two turns the offset moves one row a frame: `k` frames on, with
/// the bound ahead at least `k` rows away, the offset has moved `k` rows and
/// the direction is the same.
pub proof fn lemma_run_to_bound(p: Position, k: nat)
    requires
        p.in_bounds(),
        k <= (p.direction.bound() - p.offset) * p.direction.delta(),
    ensures
        p.after(k) == (Position {
            offset: p.offset + k * p.direction.delta(),
            direction: p.direction,
        }),
    decreases k,
{
    if k > 0 {
        lemma_run_to_bound(p, (k - 1) as nat);
    }
}

} // verus!

//! Table seats and teams.
//!
//! Four players sit clockwise at the table; `PlayerPos` names the seat.
//! Seats `P0` and `P2` form one team, `P1` and `P3` the other.

use vstd::prelude::*;

verus! {

/// One of the four seats at the table, in clockwise order.
#[derive(Clone, Copy, Debug, PartialEq, Eq, Structural, Hash)]
pub enum PlayerPos {
    P0,
    P1,
    P2,
    P3,
}

/// One of the two partnerships: `T0` is the team of seats 0 and 2,
/// `T1` the team of seats 1 and 3.
#[derive(Clone, Copy, Debug, PartialEq, Eq, Structural, Hash)]
pub enum Team {
    T0,
    T1,
}

impl Team {
    /// Index of the team in a two-entry score table.
    pub open spec fn idx(self) -> int {
        match self {
            Team::T0 => 0,
            Team::T1 => 1,
        }
    }

    /// Executable index of the team in a two-entry score table.
    pub fn index(self) -> (n: usize)
        ensures
            n == self.idx(),
    {
        match self {
            Team::T0 => 0,
            Team::T1 => 1,
        }
    }

    /// The opposing team.
    pub fn other(self) -> (t: Team)
        ensures
            t.idx() == 1 - self.idx(),
    {
        match self {
            Team::T0 => Team::T1,
            Team::T1 => Team::T0,
        }
    }
}

impl PlayerPos {
    /// Index of the seat, going clockwise from 0 to 3.
    pub open spec fn idx(self) -> int {
        match self {
            PlayerPos::P0 => 0,
            PlayerPos::P1 => 1,
            PlayerPos::P2 => 2,
            PlayerPos::P3 => 3,
        }
    }

    /// The seat with index `n % 4`.
    pub open spec fn from_idx(n: int) -> PlayerPos {
        if n % 4 == 0 {
            PlayerPos::P0
        } else if n % 4 == 1 {
            PlayerPos::P1
        } else if n % 4 == 2 {
            PlayerPos::P2
        } else {
            PlayerPos::P3
        }
    }

    /// The team a seat belongs to: even seats against odd seats.
    pub open spec fn team_spec(self) -> Team {
        if self.idx() % 2 == 0 {
            Team::T0
        } else {
            Team::T1
        }
    }

    /// Every seat is the one rebuilt from its own index.
    pub proof fn lemma_from_idx_roundtrip(self)
        ensures
            PlayerPos::from_idx(self.idx()) == self,
    {
    }

    /// Executable seat index.
    pub fn index(self) -> (n: usize)
        ensures
            n == self.idx(),
    {
        match self {
            PlayerPos::P0 => 0,
            PlayerPos::P1 => 1,
            PlayerPos::P2 => 2,
            PlayerPos::P3 => 3,
        }
    }

    /// The seat with index `n % 4`.
    pub fn from_n(n: usize) -> (p: PlayerPos)
        ensures
            p == PlayerPos::from_idx(n as int),
    {
        if n % 4 == 0 {
            PlayerPos::P0
        } else if n % 4 == 1 {
            PlayerPos::P1
        } else if n % 4 == 2 {
            PlayerPos::P2
        } else {
            PlayerPos::P3
        }
    }

    /// The next seat, clockwise.
    pub fn next(self) -> (p: PlayerPos)
        ensures
            p == PlayerPos::from_idx(self.idx() + 1),
            p.idx() == (self.idx() + 1) % 4,
    {
        match self {
            PlayerPos::P0 => PlayerPos::P1,
            PlayerPos::P1 => PlayerPos::P2,
            PlayerPos::P2 => PlayerPos::P3,
            PlayerPos::P3 => PlayerPos::P0,
        }
    }

    /// The seat `n` places further, clockwise.
    pub fn next_n(self, n: usize) -> (p: PlayerPos)
        ensures
            p == PlayerPos::from_idx(self.idx() + n),
    {
        let r: usize = n % 4;
        proof {
            assert((self.idx() + n) % 4 == (self.idx() + (n % 4) as int) % 4) by {
                vstd::arithmetic::div_mod::lemma_add_mod_noop(
                    self.idx(),
                    n as int,
                    4,
                );
                vstd::arithmetic::div_mod::lemma_mod_twice(n as int, 4);
                vstd::arithmetic::div_mod::lemma_add_mod_noop(
                    self.idx(),
                    (n % 4) as int,
                    4,
                );
            };
        }
        PlayerPos::from_n(self.index() + r)
    }

    /// The previous seat, counter-clockwise.
    pub fn prev(self) -> (p: PlayerPos)
        ensures
            p == PlayerPos::from_idx(self.idx() + 3),
            self == PlayerPos::from_idx(p.idx() + 1),
    {
        match self {
            PlayerPos::P0 => PlayerPos::P3,
            PlayerPos::P1 => PlayerPos::P0,
            PlayerPos::P2 => PlayerPos::P1,
            PlayerPos::P3 => PlayerPos::P2,
        }
    }

    /// The team this seat plays for.
    pub fn team(self) -> (t: Team)
        ensures
            t == self.team_spec(),
    {
        match self {
            PlayerPos::P0 => Team::T0,
            PlayerPos::P1 => Team::T1,
            PlayerPos::P2 => Team::T0,
            PlayerPos::P3 => Team::T1,
        }
    }

    /// Whether the two seats are in the same team.
    pub fn is_partner(self, other: PlayerPos) -> (b: bool)
        ensures
            b == (self.team_spec() == other.team_spec()),
    {
        self.team() == other.team()
    }

    /// How many steps clockwise lead from this seat to `other`, counting
    /// this seat and not counting `other`; between 1 and 4.
    pub fn distance_until(self, other: PlayerPos) -> (d: usize)
        ensures
            d == (3 + other.idx() - self.idx()) % 4 + 1,
            1 <= d <= 4,
            other == PlayerPos::from_idx(self.idx() + d) || (other == self && d == 4),
    {
        let d: usize = (3 + other.index() - self.index()) % 4 + 1;
        proof {
            assert(other.idx() == (self.idx() + d) % 4 || (other == self && d == 4));
            PlayerPos::lemma_from_idx_roundtrip(other);
            assert(PlayerPos::from_idx(self.idx() + d) == PlayerPos::from_idx(
                (self.idx() + d) % 4,
            )) by {
                vstd::arithmetic::div_mod::lemma_mod_twice(self.idx() + d, 4);
            };
        }
        d
    }

    /// The seats walked through by `n` clockwise steps starting here.
    pub fn until_n(self, n: usize) -> (it: PlayerIterator)
        ensures
            it.current == self,
            it.remaining == n,
    {
        PlayerIterator { current: self, remaining: n }
    }

    /// The seats from this one (included) to `other` (excluded), clockwise;
    /// when `other` is this seat, all four seats, starting here.
    pub fn until(self, other: PlayerPos) -> (it: PlayerIterator)
        ensures
            it.current == self,
            it.remaining == (3 + other.idx() - self.idx()) % 4 + 1,
            1 <= it.remaining <= 4,
    {
        let d = self.distance_until(other);
        self.until_n(d)
    }
}

/// Walks clockwise over a bounded run of seats.
pub struct PlayerIterator {
    /// The seat the next step yields.
    pub current: PlayerPos,
    /// How many seats are still to be yielded.
    pub remaining: usize,
}

impl PlayerIterator {
    /// Yields the current seat and advances, or reports exhaustion.
    pub fn next(&mut self) -> (r: Option<PlayerPos>)
        ensures
            old(self).remaining == 0 ==> r is None && *final(self) == *old(self),
            old(self).remaining > 0 ==> {
                &&& r == Some(old(self).current)
                &&& final(self).current == PlayerPos::from_idx(old(self).current.idx() + 1)
                &&& final(self).remaining == old(self).remaining - 1
            },
    {
        if self.remaining == 0 {
            return None;
        }
        let r = self.current;
        self.current = self.current.next();
        self.remaining = self.remaining - 1;
        Some(r)
    }
}

} // verus!

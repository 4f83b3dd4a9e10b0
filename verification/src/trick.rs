//! One trick: four card slots, a leader, and the running winner.

use vstd::prelude::*;
use crate::cards::{Card, Suit};
use crate::points;
use crate::pos::PlayerPos;

verus! {

/// One round of four cards.  `cards[s]` is the card seat `s` put down, if
/// any; `first` led the trick; `winner` is the seat holding the strongest
/// card so far, and is authoritative once all four slots are filled.
#[derive(Clone, Copy, Debug)]
pub struct Trick {
    /// The card each seat has put down, by seat index.
    pub cards: [Option<Card>; 4],
    /// The seat that led the trick.
    pub first: PlayerPos,
    /// The seat currently winning the trick.
    pub winner: PlayerPos,
}

/// The slot of seat `p` in trick `t`.
pub open spec fn slot(t: Trick, p: PlayerPos) -> Option<Card> {
    t.cards[p.idx()]
}

/// Whether all four slots of `t` are filled.
pub open spec fn trick_complete(t: Trick) -> bool {
    forall|p: PlayerPos| (#[trigger] slot(t, p)) is Some
}

/// The point value of one slot under the given trump.
pub open spec fn slot_points(c: Option<Card>, trump: Suit) -> int {
    match c {
        Some(c) => points::score_spec(c, trump),
        None => 0,
    }
}

/// The point value of the cards in `t` under the given trump.
pub open spec fn trick_points(t: Trick, trump: Suit) -> int {
    slot_points(t.cards[0], trump) + slot_points(t.cards[1], trump) + slot_points(
        t.cards[2],
        trump,
    ) + slot_points(t.cards[3], trump)
}

/// A fresh, empty trick led (and so far won) by `first`.
pub fn empty_trick(first: PlayerPos) -> (t: Trick)
    ensures
        forall|p: PlayerPos| slot(t, p) is None,
        t.first == first,
        t.winner == first,
        trick_points(t, Suit::Club) == 0,
        forall|trump: Suit| #[trigger] trick_points(t, trump) == 0,
{
    let t = Trick { cards: [None, None, None, None], first, winner: first };
    proof {
        assert forall|p: PlayerPos| slot(t, p) is None by {
            assert(t.cards@ =~= seq![Option::<Card>::None; 4]);
            assert(0 <= p.idx() < 4);
        }
    }
    t
}

impl Trick {
    /// Sum of the point values of the cards in the trick.
    #[verifier::rlimit(50)]
    pub fn score(&self, trump: Suit) -> (s: i32)
        ensures
            s == trick_points(*self, trump),
            0 <= s <= 80,
    {
        let mut s: i32 = 0;
        let c0 = self.cards[0];
        let c1 = self.cards[1];
        let c2 = self.cards[2];
        let c3 = self.cards[3];
        if let Some(c) = c0 {
            s = s + points::score(c, trump);
        }
        if let Some(c) = c1 {
            s = s + points::score(c, trump);
        }
        if let Some(c) = c2 {
            s = s + points::score(c, trump);
        }
        if let Some(c) = c3 {
            s = s + points::score(c, trump);
        }
        s
    }
}

/// Whether a newly played card takes the trick from the card now winning
/// it: it must follow the winning card's suit and be stronger, or cut with
/// a trump the winning card lacks.
pub open spec fn wins_over(new: Card, cur: Card, trump: Suit) -> bool {
    if new.suit == cur.suit {
        points::strength_spec(new, trump) > points::strength_spec(cur, trump)
    } else {
        new.suit == trump
    }
}

/// Executable form of `wins_over`.
pub fn card_wins_over(new: Card, cur: Card, trump: Suit) -> (b: bool)
    ensures
        b == wins_over(new, cur, trump),
{
    if new.suit == cur.suit {
        points::strength(new, trump) > points::strength(cur, trump)
    } else {
        new.suit == trump
    }
}

} // verus!

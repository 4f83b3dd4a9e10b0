//! Point values and strengths of cards.
//!
//! Trump cards score and rank differently from plain cards: the trump jack
//! and nine carry large bonuses, and the trump order is J, 9, A, 10, K, Q,
//! 8, 7 from strongest down, against A, 10, K, Q, J, 9, 8, 7 elsewhere.

use vstd::prelude::*;
use crate::cards::{Card, Hand, Rank, Suit};

verus! {

/// Point value of a rank in the trump suit.
pub open spec fn trump_score_spec(r: Rank) -> int {
    match r {
        Rank::R7 => 0,
        Rank::R8 => 0,
        Rank::R9 => 14,
        Rank::Rj => 20,
        Rank::Rq => 3,
        Rank::Rk => 4,
        Rank::Rx => 10,
        Rank::Ra => 11,
    }
}

/// Point value of a rank outside the trump suit.
pub open spec fn plain_score_spec(r: Rank) -> int {
    match r {
        Rank::R7 => 0,
        Rank::R8 => 0,
        Rank::R9 => 0,
        Rank::Rj => 2,
        Rank::Rq => 3,
        Rank::Rk => 4,
        Rank::Rx => 10,
        Rank::Ra => 11,
    }
}

/// Point value of a card under the given trump suit.
pub open spec fn score_spec(c: Card, trump: Suit) -> int {
    if c.suit == trump {
        trump_score_spec(c.rank)
    } else {
        plain_score_spec(c.rank)
    }
}

/// Strength of a rank within the trump suit; higher beats lower.
pub open spec fn trump_strength_spec(r: Rank) -> int {
    match r {
        Rank::R7 => 0,
        Rank::R8 => 1,
        Rank::Rq => 2,
        Rank::Rk => 3,
        Rank::Rx => 4,
        Rank::Ra => 5,
        Rank::R9 => 6,
        Rank::Rj => 7,
    }
}

/// Strength of a rank within a plain suit; higher beats lower.
pub open spec fn plain_strength_spec(r: Rank) -> int {
    match r {
        Rank::R7 => 0,
        Rank::R8 => 1,
        Rank::R9 => 2,
        Rank::Rj => 3,
        Rank::Rq => 4,
        Rank::Rk => 5,
        Rank::Rx => 6,
        Rank::Ra => 7,
    }
}

/// Strength of a card within its own suit under the given trump.
pub open spec fn strength_spec(c: Card, trump: Suit) -> int {
    if c.suit == trump {
        trump_strength_spec(c.rank)
    } else {
        plain_strength_spec(c.rank)
    }
}

/// Executable point value of a card under the given trump suit.
pub fn score(c: Card, trump: Suit) -> (s: i32)
    ensures
        s == score_spec(c, trump),
        0 <= s <= 20,
{
    if c.suit == trump {
        match c.rank {
            Rank::R7 => 0,
            Rank::R8 => 0,
            Rank::R9 => 14,
            Rank::Rj => 20,
            Rank::Rq => 3,
            Rank::Rk => 4,
            Rank::Rx => 10,
            Rank::Ra => 11,
        }
    } else {
        match c.rank {
            Rank::R7 => 0,
            Rank::R8 => 0,
            Rank::R9 => 0,
            Rank::Rj => 2,
            Rank::Rq => 3,
            Rank::Rk => 4,
            Rank::Rx => 10,
            Rank::Ra => 11,
        }
    }
}

/// Executable strength of a rank within the trump suit.
pub fn trump_strength(r: Rank) -> (s: i32)
    ensures
        s == trump_strength_spec(r),
        0 <= s <= 7,
{
    match r {
        Rank::R7 => 0,
        Rank::R8 => 1,
        Rank::Rq => 2,
        Rank::Rk => 3,
        Rank::Rx => 4,
        Rank::Ra => 5,
        Rank::R9 => 6,
        Rank::Rj => 7,
    }
}

/// The set of all 32 cards.
pub open spec fn all_cards() -> Set<Card> {
    Set::new(|c: Card| true)
}

/// Point value of the cards of `s` whose id lies below `n`.
#[verifier::opaque]
pub open spec fn pts_upto(s: Set<Card>, trump: Suit, n: int) -> int
    decreases n,
{
    if n <= 0 {
        0
    } else {
        pts_upto(s, trump, n - 1) + if s.contains(crate::cards::card_of(n - 1)) {
            score_spec(crate::cards::card_of(n - 1), trump)
        } else {
            0
        }
    }
}

/// Point value of a whole hand under the given trump.
pub open spec fn hand_pts(h: Hand, trump: Suit) -> int {
    pts_upto(h@, trump, 32)
}

/// A partial point sum lies between 0 and 20 per card counted.
pub proof fn lemma_pts_bounds(s: Set<Card>, trump: Suit, n: int)
    requires
        0 <= n,
    ensures
        0 <= pts_upto(s, trump, n) <= 20 * n,
    decreases n,
{
    reveal_with_fuel(pts_upto, 2);
    if n > 0 {
        lemma_pts_bounds(s, trump, n - 1);
    }
}

proof fn lemma_pts_none_upto(s: Set<Card>, trump: Suit, n: int)
    requires
        forall|c: Card| !s.contains(c),
    ensures
        pts_upto(s, trump, n) == 0,
    decreases n,
{
    reveal_with_fuel(pts_upto, 2);
    if n > 0 {
        lemma_pts_none_upto(s, trump, n - 1);
    }
}

/// A hand counted empty is worth no points.
pub proof fn lemma_empty_hand_pts(h: Hand, trump: Suit)
    requires
        h.size_spec() == 0,
    ensures
        hand_pts(h, trump) == 0,
{
    crate::cards::lemma_size_zero_empty(h);
    lemma_pts_none_upto(h@, trump, 32);
}

proof fn lemma_pts_remove_upto(s: Set<Card>, c: Card, trump: Suit, n: int)
    requires
        s.contains(c),
        0 <= n <= 32,
    ensures
        pts_upto(s.remove(c), trump, n) == pts_upto(s, trump, n) - if c.id_spec() < n {
            score_spec(c, trump)
        } else {
            0
        },
    decreases n,
{
    reveal_with_fuel(pts_upto, 2);
    if n > 0 {
        lemma_pts_remove_upto(s, c, trump, n - 1);
        let d = crate::cards::card_of(n - 1);
        crate::cards::lemma_card_of_inv(n - 1);
        Card::lemma_id_injective(d, c);
    }
}

/// Taking a card out of a hand takes exactly its points out of the
/// hand's point value.
pub proof fn lemma_hand_pts_remove(s: Set<Card>, c: Card, trump: Suit)
    requires
        s.contains(c),
    ensures
        pts_upto(s.remove(c), trump, 32) == pts_upto(s, trump, 32) - score_spec(c, trump),
{
    crate::cards::lemma_card_id_bound(c);
    lemma_pts_remove_upto(s, c, trump, 32);
}

proof fn lemma_partition_upto(hands: [Hand; 4], trump: Suit, n: int)
    requires
        crate::deal::hands_partition(hands),
        0 <= n <= 32,
    ensures
        pts_upto(hands[0]@, trump, n) + pts_upto(hands[1]@, trump, n) + pts_upto(
            hands[2]@,
            trump,
            n,
        ) + pts_upto(hands[3]@, trump, n) == pts_upto(all_cards(), trump, n),
    decreases n,
{
    reveal_with_fuel(pts_upto, 2);
    if n > 0 {
        lemma_partition_upto(hands, trump, n - 1);
        let c = crate::cards::card_of(n - 1);
        assert(all_cards().contains(c));
        assert(crate::deal::in_some_hand(hands, c));
        let i = choose|i: int| 0 <= i < 4 && #[trigger] hands[i]@.contains(c);
        assert forall|j: int| 0 <= j < 4 && j != i implies !(#[trigger] hands[j]@.contains(
            c,
        )) by {
            assert(!(hands[i]@.contains(c) && hands[j]@.contains(c)));
        }
    }
}

/// The whole deck is worth 152 points, whatever the trump suit.
pub proof fn lemma_full_points(trump: Suit)
    ensures
        pts_upto(all_cards(), trump, 32) == 152,
{
    reveal_with_fuel(pts_upto, 33);
    match trump {
        Suit::Club => {
            assert(pts_upto(all_cards(), Suit::Club, 32) == 152);
        },
        Suit::Diamond => {
            assert(pts_upto(all_cards(), Suit::Diamond, 32) == 152);
        },
        Suit::Heart => {
            assert(pts_upto(all_cards(), Suit::Heart, 32) == 152);
        },
        Suit::Spade => {
            assert(pts_upto(all_cards(), Suit::Spade, 32) == 152);
        },
    }
}

/// The four hands of a deal together hold the deck's 152 points.
pub proof fn lemma_partition_points(hands: [Hand; 4], trump: Suit)
    requires
        crate::deal::hands_partition(hands),
    ensures
        hand_pts(hands[0], trump) + hand_pts(hands[1], trump) + hand_pts(hands[2], trump)
            + hand_pts(hands[3], trump) == 152,
{
    lemma_partition_upto(hands, trump, 32);
    lemma_full_points(trump);
}

/// Executable strength of a card within its own suit under the given trump.
pub fn strength(c: Card, trump: Suit) -> (s: i32)
    ensures
        s == strength_spec(c, trump),
        0 <= s <= 7,
{
    if c.suit == trump {
        trump_strength(c.rank)
    } else {
        match c.rank {
            Rank::R7 => 0,
            Rank::R8 => 1,
            Rank::R9 => 2,
            Rank::Rj => 3,
            Rank::Rq => 4,
            Rank::Rk => 5,
            Rank::Rx => 6,
            Rank::Ra => 7,
        }
    }
}

} // verus!

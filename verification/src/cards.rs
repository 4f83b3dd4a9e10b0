//! Cards, and hands as compact card sets.
//!
//! The deck holds 32 cards: the ranks 7, 8, 9, 10, J, Q, K and A in each of
//! the four suits.  A card is identified by `suit index * 8 + rank index`,
//! a number below 32, and a hand is the set of cards whose bits are set in
//! one 32-bit word.

use vstd::prelude::*;

verus! {

/// One of the four suits.
#[derive(Clone, Copy, Debug, PartialEq, Eq, Structural, Hash)]
pub enum Suit {
    Club,
    Diamond,
    Heart,
    Spade,
}

impl Suit {
    /// Index of the suit in the card encoding.
    pub open spec fn idx(self) -> int {
        match self {
            Suit::Club => 0,
            Suit::Diamond => 1,
            Suit::Heart => 2,
            Suit::Spade => 3,
        }
    }

    /// Executable suit index.
    pub fn index(self) -> (n: u32)
        ensures
            n == self.idx(),
    {
        match self {
            Suit::Club => 0,
            Suit::Diamond => 1,
            Suit::Heart => 2,
            Suit::Spade => 3,
        }
    }

    /// The suit with index `n`; other values give clubs.
    pub fn from_n(n: u32) -> (s: Suit)
        ensures
            n <= 3 ==> s.idx() == n,
    {
        if n == 1 {
            Suit::Diamond
        } else if n == 2 {
            Suit::Heart
        } else if n == 3 {
            Suit::Spade
        } else {
            Suit::Club
        }
    }
}

/// One of the eight ranks, from 7 up to ace; `Rx` is the 10.
#[derive(Clone, Copy, Debug, PartialEq, Eq, Structural, Hash)]
pub enum Rank {
    R7,
    R8,
    R9,
    Rj,
    Rq,
    Rk,
    Rx,
    Ra,
}

impl Rank {
    /// Index of the rank in the card encoding.
    pub open spec fn idx(self) -> int {
        match self {
            Rank::R7 => 0,
            Rank::R8 => 1,
            Rank::R9 => 2,
            Rank::Rj => 3,
            Rank::Rq => 4,
            Rank::Rk => 5,
            Rank::Rx => 6,
            Rank::Ra => 7,
        }
    }

    /// Executable rank index.
    pub fn index(self) -> (n: u32)
        ensures
            n == self.idx(),
    {
        match self {
            Rank::R7 => 0,
            Rank::R8 => 1,
            Rank::R9 => 2,
            Rank::Rj => 3,
            Rank::Rq => 4,
            Rank::Rk => 5,
            Rank::Rx => 6,
            Rank::Ra => 7,
        }
    }
}

/// The rank with index `n % 8`.
pub fn get_rank(n: u32) -> (r: Rank)
    ensures
        r.idx() == n % 8,
{
    let m = n % 8;
    if m == 0 {
        Rank::R7
    } else if m == 1 {
        Rank::R8
    } else if m == 2 {
        Rank::R9
    } else if m == 3 {
        Rank::Rj
    } else if m == 4 {
        Rank::Rq
    } else if m == 5 {
        Rank::Rk
    } else if m == 6 {
        Rank::Rx
    } else {
        Rank::Ra
    }
}

/// One of the 32 cards.
#[derive(Clone, Copy, Debug, PartialEq, Eq, Structural, Hash)]
pub struct Card {
    /// The card's suit.
    pub suit: Suit,
    /// The card's rank.
    pub rank: Rank,
}

/// The card of the given suit and rank.
pub fn make_card(suit: Suit, rank: Rank) -> (c: Card)
    ensures
        c == (Card { suit, rank }),
{
    Card { suit, rank }
}

impl Card {
    /// The card's position in the 32-card encoding: `suit * 8 + rank`.
    pub open spec fn id_spec(self) -> int {
        self.suit.idx() * 8 + self.rank.idx()
    }

    /// Executable card id, below 32.
    pub fn id(self) -> (n: u32)
        ensures
            n == self.id_spec(),
            n < 32,
    {
        self.suit.index() * 8 + self.rank.index()
    }

    /// The card with id `n % 32`.
    pub fn from_id(n: u32) -> (c: Card)
        ensures
            c.id_spec() == n % 32,
    {
        let m = n % 32;
        let c = Card { suit: Suit::from_n(m / 8), rank: get_rank(m % 8) };
        proof {
            assert(m / 8 <= 3 && c.suit.idx() == m / 8 && c.rank.idx() == m % 8);
            assert((m / 8) * 8 + m % 8 == m) by (nonlinear_arith);
        }
        c
    }

    /// Distinct cards have distinct ids.
    pub proof fn lemma_id_injective(a: Card, b: Card)
        ensures
            (a.id_spec() == b.id_spec()) <==> (a == b),
    {
    }
}

/// Every card id is below 32.
pub proof fn lemma_card_id_bound(c: Card)
    ensures
        0 <= c.id_spec() < 32,
{
}

/// Whether bit `i` of `w` is set.
pub open spec fn nth_bit(w: u32, i: u32) -> bool {
    (w >> i) & 1 == 1
}

/// A set of cards, stored as one bit per card id.
#[derive(Clone, Copy, Debug, PartialEq, Eq, Structural, Hash)]
pub struct Hand(u32);

impl View for Hand {
    type V = Set<Card>;

    closed spec fn view(&self) -> Set<Card> {
        Set::new(|c: Card| nth_bit(self.0, c.id_spec() as u32))
    }
}

/// The empty hand.
pub fn new_hand() -> (h: Hand)
    ensures
        h@ == Set::<Card>::empty(),
        h.size_spec() == 0,
{
    proof {
        lemma_count_zero_word(32);
    }
    let h = Hand(0);
    proof {
        assert forall|c: Card| !h@.contains(c) by {
            let i = c.id_spec() as u32;
            assert(!nth_bit(0u32, i)) by (bit_vector);
        }
        assert(h@ =~= Set::<Card>::empty());
    }
    h
}

impl Hand {
    /// Puts `card` into the hand.
    pub fn add(&mut self, card: Card)
        ensures
            final(self)@ == old(self)@.insert(card),
            !old(self)@.contains(card) ==> final(self).size_spec() == old(self).size_spec()
                + 1,
            old(self)@.contains(card) ==> *final(self) == *old(self),
    {
        let ghost h0 = self.0;
        let i = card.id();
        self.0 = self.0 | (1u32 << i);
        proof {
            assert forall|c: Card| self@.contains(c) == old(self)@.insert(card).contains(c) by {
                let j = c.id_spec() as u32;
                assert(j < 32 && i < 32);
                assert(nth_bit(h0 | (1u32 << i), j) == (nth_bit(h0, j) || i == j))
                    by (bit_vector)
                    requires
                        i < 32,
                        j < 32,
                ;
                Card::lemma_id_injective(c, card);
            }
            assert(self@ =~= old(self)@.insert(card));
            if nth_bit(h0, i) {
                assert(h0 | (1u32 << i) == h0) by (bit_vector)
                    requires
                        i < 32,
                        (h0 >> i) & 1 == 1,
                ;
            } else {
                lemma_count_or_bit(h0, i, 32);
            }
        }
    }

    /// Takes `card` out of the hand.
    pub fn remove(&mut self, card: Card)
        ensures
            final(self)@ == old(self)@.remove(card),
            old(self)@.contains(card) ==> final(self).size_spec() == old(self).size_spec()
                - 1,
            !old(self)@.contains(card) ==> *final(self) == *old(self),
    {
        let ghost h0 = self.0;
        let i = card.id();
        self.0 = self.0 & !(1u32 << i);
        proof {
            assert forall|c: Card| self@.contains(c) == old(self)@.remove(card).contains(c) by {
                let j = c.id_spec() as u32;
                assert(nth_bit(h0 & !(1u32 << i), j) == (nth_bit(h0, j) && i != j))
                    by (bit_vector)
                    requires
                        i < 32,
                        j < 32,
                ;
                Card::lemma_id_injective(c, card);
            }
            assert(self@ =~= old(self)@.remove(card));
            if nth_bit(h0, i) {
                lemma_count_and_not_bit(h0, i, 32);
            } else {
                assert(h0 & !(1u32 << i) == h0) by (bit_vector)
                    requires
                        i < 32,
                        (h0 >> i) & 1 != 1,
                ;
            }
        }
    }

    /// Whether the hand holds `card`.
    pub fn has(&self, card: Card) -> (b: bool)
        ensures
            b == self@.contains(card),
    {
        let i = card.id();
        ((self.0 >> i) & 1) == 1
    }

    /// Whether the hand holds any card of `suit`.
    pub fn has_any(&self, suit: Suit) -> (b: bool)
        ensures
            b == exists|c: Card| self@.contains(c) && c.suit == suit,
    {
        let mut r: u32 = 0;
        let mut found = false;
        while r < 8
            invariant
                r <= 8,
                found == exists|c: Card|
                    self@.contains(c) && c.suit == suit && c.rank.idx() < r,
            decreases 8 - r,
        {
            let card = make_card(suit, get_rank(r));
            if self.has(card) {
                found = true;
                proof {
                    assert(self@.contains(card) && card.suit == suit && card.rank.idx() < r
                        + 1);
                }
            }
            proof {
                if !found {
                    assert forall|c: Card|
                        !(self@.contains(c) && c.suit == suit && c.rank.idx() < r + 1) by {
                        if c.suit == suit && c.rank.idx() == r {
                            assert(c == card);
                        }
                    }
                }
            }
            r = r + 1;
        }
        proof {
            if !found {
                assert forall|c: Card| !(self@.contains(c) && c.suit == suit) by {
                    assert(c.rank.idx() < 8);
                }
            }
        }
        found
    }

    /// How many cards the hand holds.
    pub fn size(&self) -> (n: u32)
        ensures
            n == self.size_spec(),
            n <= 32,
    {
        let mut n: u32 = 0;
        let mut i: u32 = 0;
        while i < 32
            invariant
                i <= 32,
                n == count_upto(self.0, i as int),
                n <= i,
            decreases 32 - i,
        {
            proof {
                lemma_count_upto_bounds(self.0, i as int);
            }
            if ((self.0 >> i) & 1) == 1 {
                n = n + 1;
            }
            i = i + 1;
        }
        n
    }

    /// The hand's cards, in id order.
    pub fn list(&self) -> (v: Vec<Card>)
        ensures
            forall|k: int|
                0 <= k < v@.len() ==> self@.contains(#[trigger] v@[k]),
            forall|c: Card| self@.contains(c) ==> v@.contains(c),
            forall|k1: int, k2: int|
                0 <= k1 < k2 < v@.len() ==> v@[k1].id_spec() < v@[k2].id_spec(),
    {
        let mut v: Vec<Card> = Vec::new();
        let mut i: u32 = 0;
        while i < 32
            invariant
                i <= 32,
                forall|k: int|
                    0 <= k < v@.len() ==> self@.contains(#[trigger] v@[k]),
                forall|c: Card|
                    self@.contains(c) && c.id_spec() < i ==> v@.contains(c),
                forall|k: int|
                    0 <= k < v@.len() ==> (#[trigger] v@[k]).id_spec() < i,
                forall|k1: int, k2: int|
                    0 <= k1 < k2 < v@.len() ==> v@[k1].id_spec() < v@[k2].id_spec(),
            decreases 32 - i,
        {
            let c = Card::from_id(i);
            proof {
                assert(c.id_spec() == i);
            }
            let ghost v0 = v@;
            if self.has(c) {
                v.push(c);
            }
            proof {
                assert forall|c2: Card| self@.contains(c2) && c2.id_spec() < i + 1
                    implies v@.contains(c2) by {
                    if c2.id_spec() == i {
                        Card::lemma_id_injective(c2, c);
                        assert(v@[v@.len() - 1] == c2);
                    } else {
                        assert(v0.contains(c2));
                        let k = choose|k: int| 0 <= k < v0.len() && v0[k] == c2;
                        assert(v@[k] == c2);
                    }
                }
            }
            i = i + 1;
        }
        v
    }

    /// The number of set bits, as a spec value.
    pub closed spec fn size_spec(self) -> int {
        count_upto(self.0, 32)
    }

}

/// The suit with index `i`, clubs for values out of range.
pub open spec fn suit_from(i: int) -> Suit {
    if i == 1 {
        Suit::Diamond
    } else if i == 2 {
        Suit::Heart
    } else if i == 3 {
        Suit::Spade
    } else {
        Suit::Club
    }
}

/// The rank with index `i`, seven for values out of range.
pub open spec fn rank_from(i: int) -> Rank {
    if i == 1 {
        Rank::R8
    } else if i == 2 {
        Rank::R9
    } else if i == 3 {
        Rank::Rj
    } else if i == 4 {
        Rank::Rq
    } else if i == 5 {
        Rank::Rk
    } else if i == 6 {
        Rank::Rx
    } else if i == 7 {
        Rank::Ra
    } else {
        Rank::R7
    }
}

/// The card with id `i`, for ids 0 to 31.
pub open spec fn card_of(i: int) -> Card {
    Card { suit: suit_from(i / 8), rank: rank_from(i % 8) }
}

/// Rebuilding a card from its own id gives the card back.
pub proof fn lemma_card_of_id(c: Card)
    ensures
        card_of(c.id_spec()) == c,
{
    let s = c.suit.idx();
    let r = c.rank.idx();
    vstd::arithmetic::div_mod::lemma_div_multiples_vanish_fancy(s, r, 8);
    vstd::arithmetic::div_mod::lemma_mod_multiples_vanish(s, r, 8);
    assert((s * 8 + r) / 8 == s && (s * 8 + r) % 8 == r);
}

/// The id of the card with id `i` is `i` again, for ids 0 to 31.
pub proof fn lemma_card_of_inv(i: int)
    requires
        0 <= i < 32,
    ensures
        card_of(i).id_spec() == i,
{
    assert(0 <= i / 8 < 4 && 0 <= i % 8 < 8 && (i / 8) * 8 + i % 8 == i) by (nonlinear_arith)
        requires
            0 <= i < 32,
    ;
}

/// How many of the bits below `n` are set in `w`.
pub open spec fn count_upto(w: u32, n: int) -> int
    decreases n,
{
    if n <= 0 {
        0
    } else {
        count_upto(w, n - 1) + if nth_bit(w, (n - 1) as u32) {
            1int
        } else {
            0int
        }
    }
}

/// The count of set bits below `n` lies between 0 and `n`.
pub proof fn lemma_count_upto_bounds(w: u32, n: int)
    requires
        0 <= n,
    ensures
        0 <= count_upto(w, n) <= n,
    decreases n,
{
    if n > 0 {
        lemma_count_upto_bounds(w, n - 1);
    }
}

/// A hand counted empty holds no card.
pub proof fn lemma_size_zero_empty(h: Hand)
    requires
        h.size_spec() == 0,
    ensures
        forall|c: Card| !h@.contains(c),
{
    assert forall|c: Card| !h@.contains(c) by {
        if h@.contains(c) {
            let i = c.id_spec() as u32;
            lemma_set_bit_counts(h.0, i, 32);
        }
    }
}

/// A set bit below `n` makes the count positive.
proof fn lemma_set_bit_counts(w: u32, i: u32, n: int)
    requires
        nth_bit(w, i),
        i < n,
    ensures
        count_upto(w, n) >= 1,
    decreases n,
{
    lemma_count_upto_bounds(w, n - 1);
    if i < n - 1 {
        lemma_set_bit_counts(w, i, n - 1);
    }
}

/// The all-zero word has no set bits below any `n`.
proof fn lemma_count_zero_word(n: int)
    ensures
        count_upto(0u32, n) == 0,
    decreases n,
{
    if n > 0 {
        lemma_count_zero_word(n - 1);
        let j = (n - 1) as u32;
        assert(!nth_bit(0u32, j)) by (bit_vector);
    }
}

/// Setting a clear bit raises the count by one where the bit is in range.
proof fn lemma_count_or_bit(w: u32, i: u32, n: int)
    requires
        i < 32,
        !nth_bit(w, i),
        n <= 32,
    ensures
        count_upto(w | (1u32 << i), n) == count_upto(w, n) + if i < n {
            1int
        } else {
            0int
        },
    decreases n,
{
    if n > 0 {
        lemma_count_or_bit(w, i, n - 1);
        let j = (n - 1) as u32;
        assert(nth_bit(w | (1u32 << i), j) == (nth_bit(w, j) || i == j)) by (bit_vector)
            requires
                i < 32,
                j < 32,
        ;
    }
}

/// Clearing a set bit lowers the count by one where the bit is in range.
proof fn lemma_count_and_not_bit(w: u32, i: u32, n: int)
    requires
        i < 32,
        nth_bit(w, i),
        n <= 32,
    ensures
        count_upto(w & !(1u32 << i), n) == count_upto(w, n) - if i < n {
            1int
        } else {
            0int
        },
    decreases n,
{
    if n > 0 {
        lemma_count_and_not_bit(w, i, n - 1);
        let j = (n - 1) as u32;
        assert(nth_bit(w & !(1u32 << i), j) == (nth_bit(w, j) && i != j)) by (bit_vector)
            requires
                i < 32,
                j < 32,
        ;
    }
}

} // verus!

//! Random dealing of the 32-card deck into four hands of eight.

use vstd::prelude::*;
use crate::cards::{Card, Hand, new_hand};

verus! {

/// Relies on rand::random_range: a value drawn uniformly from `0..n` by the
/// thread-local generator; it panics only on an empty range, which the
/// precondition rules out.
#[verifier::external_body]
fn random_below(n: usize) -> (r: usize)
    requires
        0 < n,
    ensures
        r < n,
{
    rand::random_range(0..n)
}

/// Whether distinct positions of `deck` hold distinct cards.
pub open spec fn deck_injective(deck: Seq<Card>) -> bool {
    forall|k1: int, k2: int|
        0 <= k1 < k2 < deck.len() ==> deck[k1] != deck[k2]
}

/// Whether `deck` holds `c` at some position.
pub open spec fn deck_has(deck: Seq<Card>, c: Card) -> bool {
    exists|k: int| 0 <= k < deck.len() && #[trigger] deck[k] == c
}

/// Whether every card appears somewhere in `deck`.
pub open spec fn deck_covers(deck: Seq<Card>) -> bool {
    forall|c: Card| #[trigger] deck_has(deck, c)
}

/// Builds the 32-card deck in id order.
fn full_deck() -> (deck: Vec<Card>)
    ensures
        deck@.len() == 32,
        deck_injective(deck@),
        deck_covers(deck@),
{
    let mut deck: Vec<Card> = Vec::new();
    let mut i: u32 = 0;
    while i < 32
        invariant
            i <= 32,
            deck@.len() == i,
            forall|k: int| 0 <= k < i ==> (#[trigger] deck@[k]).id_spec() == k,
        decreases 32 - i,
    {
        let c = Card::from_id(i);
        deck.push(c);
        i = i + 1;
    }
    proof {
        assert forall|k1: int, k2: int| 0 <= k1 < k2 < deck@.len() implies deck@[k1]
            != deck@[k2] by {
            assert(deck@[k1].id_spec() == k1 && deck@[k2].id_spec() == k2);
        }
        assert forall|c: Card| #[trigger] deck_has(deck@, c) by {
            crate::cards::lemma_card_id_bound(c);
            let k = c.id_spec();
            Card::lemma_id_injective(deck@[k], c);
            assert(0 <= k < deck@.len() && deck@[k] == c);
        }
    }
    deck
}

/// Whether some hand of the four holds `c`.
pub open spec fn in_some_hand(hands: [Hand; 4], c: Card) -> bool {
    exists|i: int| 0 <= i < 4 && #[trigger] hands[i]@.contains(c)
}

/// Whether four hands are a deal: eight cards each, no card in two hands,
/// every card in some hand.
pub open spec fn hands_partition(hands: [Hand; 4]) -> bool {
    &&& forall|i: int, j: int, c: Card|
        0 <= i < 4 && 0 <= j < 4 && i != j ==> !(#[trigger] hands[i]@.contains(c)
            && #[trigger] hands[j]@.contains(c))
    &&& forall|c: Card| #[trigger] in_some_hand(hands, c)
    &&& forall|i: int| 0 <= i < 4 ==> (#[trigger] hands[i]).size_spec() == 8
}

/// Deals the full deck at random into four pairwise disjoint hands of
/// eight cards each, which together cover all 32 cards.
pub fn deal_hands() -> (hands: [Hand; 4])
    ensures
        hands_partition(hands),
{
    let mut deck = full_deck();

    // Fisher-Yates shuffle; each swap keeps the deck a permutation.
    let mut k: usize = 31;
    while k > 0
        invariant
            k < 32,
            deck@.len() == 32,
            deck_injective(deck@),
            deck_covers(deck@),
        decreases k,
    {
        let j = random_below(k + 1);
        let ghost d0 = deck@;
        let cj = deck[j];
        let ck = deck[k];
        deck[j] = ck;
        deck[k] = cj;
        proof {
            assert(deck@ =~= d0.update(j as int, d0[k as int]).update(k as int, d0[j as int]));
            assert forall|c: Card| #[trigger] deck_has(deck@, c) by {
                assert(deck_has(d0, c));
                let m0 = choose|m0: int| 0 <= m0 < d0.len() && #[trigger] d0[m0] == c;
                let m = if m0 == j { k as int } else if m0 == k { j as int } else { m0 };
                assert(0 <= m < deck@.len() && deck@[m] == c);
            }
        }
        k = k - 1;
    }

    let empty = new_hand();
    let mut hands: [Hand; 4] = [empty, empty, empty, empty];

    let mut i: usize = 0;
    while i < 4
        invariant
            i <= 4,
            deck@.len() == 32,
            deck_injective(deck@),
            deck_covers(deck@),
            forall|p: int, c: Card|
                0 <= p < i ==> (#[trigger] hands[p]@.contains(c) <==> exists|m: int|
                    8 * p <= m < 8 * (p + 1) && deck@[m] == c),
            forall|p: int| i <= p < 4 ==> #[trigger] hands[p]@ == Set::<Card>::empty(),
            forall|p: int| 0 <= p < i ==> (#[trigger] hands[p]).size_spec() == 8,
        decreases 4 - i,
    {
        let mut h = new_hand();
        let mut m: usize = 0;
        while m < 8
            invariant
                m <= 8,
                i < 4,
                deck@.len() == 32,
                deck_injective(deck@),
                h.size_spec() == m,
                forall|c: Card|
                    #[trigger] h@.contains(c) <==> exists|q: int|
                        8 * i <= q < 8 * i + m && deck@[q] == c,
            decreases 8 - m,
        {
            let c = deck[8 * i + m];
            proof {
                if h@.contains(c) {
                    let q = choose|q: int| 8 * i <= q < 8 * i + m && deck@[q] == c;
                    assert(deck@[q] == deck@[8 * i + m]);
                    assert(false);
                }
            }
            h.add(c);
            proof {
                assert forall|c2: Card| #[trigger] h@.contains(c2) implies exists|q: int|
                    8 * i <= q < 8 * i + m + 1 && deck@[q] == c2 by {
                    if c2 == c {
                        assert(deck@[8 * i + m] == c2);
                    }
                }
            }
            m = m + 1;
        }
        hands[i] = h;
        i = i + 1;
    }

    proof {
        assert forall|i: int, j: int, c: Card|
            0 <= i < 4 && 0 <= j < 4 && i != j implies !(#[trigger] hands[i]@.contains(c)
            && #[trigger] hands[j]@.contains(c)) by {
            if hands[i]@.contains(c) && hands[j]@.contains(c) {
                let mi = choose|m: int| 8 * i <= m < 8 * (i + 1) && deck@[m] == c;
                let mj = choose|m: int| 8 * j <= m < 8 * (j + 1) && deck@[m] == c;
                assert(deck@[mi] == deck@[mj] && mi != mj);
            }
        }
        assert forall|c: Card| #[trigger] in_some_hand(hands, c) by {
            assert(deck_has(deck@, c));
            let m = choose|m: int| 0 <= m < deck@.len() && #[trigger] deck@[m] == c;
            let i = m / 8;
            assert(8 * i <= m < 8 * (i + 1) && 0 <= i < 4) by (nonlinear_arith)
                requires
                    0 <= m < 32,
                    i == m / 8,
            ;
            assert(hands[i]@.contains(c));
        }
    }

    hands
}

} // verus!

//! Canonical wire text for cards, suits and targets.
//!
//! The transport writes a card as its rank then its suit letter ("8C",
//! "10H"), a suit as one of "C", "D", "H", "S", and a target as its
//! number or "Capot".  Parsing accepts exactly these forms, so all
//! values round-trip.

use vstd::prelude::*;
use vstd::string::StringExecFns;
use crate::bid::Target;
use crate::cards::{Card, Rank, Suit};

verus! {

/// The one-letter text of a suit.
pub open spec fn suit_text_spec(s: Suit) -> Seq<char> {
    match s {
        Suit::Club => seq!['C'],
        Suit::Diamond => seq!['D'],
        Suit::Heart => seq!['H'],
        Suit::Spade => seq!['S'],
    }
}

/// The text of a rank: its number, or the court letter.
pub open spec fn rank_text_spec(r: Rank) -> Seq<char> {
    match r {
        Rank::R7 => seq!['7'],
        Rank::R8 => seq!['8'],
        Rank::R9 => seq!['9'],
        Rank::Rj => seq!['J'],
        Rank::Rq => seq!['Q'],
        Rank::Rk => seq!['K'],
        Rank::Rx => seq!['1', '0'],
        Rank::Ra => seq!['A'],
    }
}

/// The text of a card: rank then suit letter.
pub open spec fn card_text_spec(c: Card) -> Seq<char> {
    rank_text_spec(c.rank) + suit_text_spec(c.suit)
}

/// The text of a target: its number, or "Capot".
pub open spec fn target_text_spec(t: Target) -> Seq<char> {
    match t {
        Target::Contract80 => seq!['8', '0'],
        Target::Contract90 => seq!['9', '0'],
        Target::Contract100 => seq!['1', '0', '0'],
        Target::Contract110 => seq!['1', '1', '0'],
        Target::Contract120 => seq!['1', '2', '0'],
        Target::Contract130 => seq!['1', '3', '0'],
        Target::Contract140 => seq!['1', '4', '0'],
        Target::Contract150 => seq!['1', '5', '0'],
        Target::Contract160 => seq!['1', '6', '0'],
        Target::ContractCapot => seq!['C', 'a', 'p', 'o', 't'],
    }
}

/// The suit's one-letter text.
pub fn suit_to_str(s: Suit) -> (r: &'static str)
    ensures
        r@ == suit_text_spec(s),
{
    proof {
        reveal_strlit("C");
        reveal_strlit("D");
        reveal_strlit("H");
        reveal_strlit("S");
    }
    match s {
        Suit::Club => "C",
        Suit::Diamond => "D",
        Suit::Heart => "H",
        Suit::Spade => "S",
    }
}

/// The rank's text.
pub fn rank_to_str(r: Rank) -> (t: &'static str)
    ensures
        t@ == rank_text_spec(r),
{
    proof {
        reveal_strlit("7");
        reveal_strlit("8");
        reveal_strlit("9");
        reveal_strlit("J");
        reveal_strlit("Q");
        reveal_strlit("K");
        reveal_strlit("10");
        reveal_strlit("A");
    }
    match r {
        Rank::R7 => "7",
        Rank::R8 => "8",
        Rank::R9 => "9",
        Rank::Rj => "J",
        Rank::Rq => "Q",
        Rank::Rk => "K",
        Rank::Rx => "10",
        Rank::Ra => "A",
    }
}

/// The card's text: rank then suit letter.
pub fn card_to_text(c: Card) -> (t: String)
    ensures
        t@ == card_text_spec(c),
{
    let mut t = String::from_str(rank_to_str(c.rank));
    t.append(suit_to_str(c.suit));
    t
}

/// The target's text.
pub fn target_to_str(t: Target) -> (r: &'static str)
    ensures
        r@ == target_text_spec(t),
{
    proof {
        reveal_strlit("80");
        reveal_strlit("90");
        reveal_strlit("100");
        reveal_strlit("110");
        reveal_strlit("120");
        reveal_strlit("130");
        reveal_strlit("140");
        reveal_strlit("150");
        reveal_strlit("160");
        reveal_strlit("Capot");
    }
    match t {
        Target::Contract80 => "80",
        Target::Contract90 => "90",
        Target::Contract100 => "100",
        Target::Contract110 => "110",
        Target::Contract120 => "120",
        Target::Contract130 => "130",
        Target::Contract140 => "140",
        Target::Contract150 => "150",
        Target::Contract160 => "160",
        Target::ContractCapot => "Capot",
    }
}

/// Distinct cards have distinct texts.
pub proof fn lemma_card_text_injective(a: Card, b: Card)
    ensures
        (card_text_spec(a) == card_text_spec(b)) <==> (a == b),
{
    if card_text_spec(a) == card_text_spec(b) && a != b {
        assert(card_text_spec(a)[card_text_spec(a).len() - 1] == card_text_spec(b)[
            card_text_spec(b).len() - 1]);
        assert(card_text_spec(a)[0] == card_text_spec(b)[0]);
    }
}

/// Reads a card back from its canonical text; any other text is
/// refused.
pub fn card_parse(s: &str) -> (r: Option<Card>)
    ensures
        r matches Some(c) ==> s@ == card_text_spec(c),
        r is None ==> forall|c: Card| s@ != card_text_spec(c),
{
    let owned = s.to_owned();
    let mut i: u32 = 0;
    while i < 32
        invariant
            i <= 32,
            owned@ == s@,
            forall|c: Card|
                c.id_spec() < i ==> s@ != #[trigger] card_text_spec(c),
        decreases 32 - i,
    {
        let c = Card::from_id(i);
        let t = card_to_text(c);
        if t == owned {
            return Some(c);
        }
        proof {
            assert forall|c2: Card| c2.id_spec() < i + 1 implies s@ != #[trigger] card_text_spec(
                c2,
            ) by {
                if c2.id_spec() == i {
                    Card::lemma_id_injective(c2, c);
                }
            }
        }
        i = i + 1;
    }
    proof {
        assert forall|c: Card| s@ != #[trigger] card_text_spec(c) by {
            crate::cards::lemma_card_id_bound(c);
        }
    }
    None
}

/// Reads a target back from its canonical text; any other text is
/// refused.
pub fn target_parse(s: &str) -> (r: Option<Target>)
    ensures
        r matches Some(t) ==> s@ == target_text_spec(t),
        r is None ==> forall|t: Target| s@ != target_text_spec(t),
{
    let targets: [Target; 10] = [
        Target::Contract80,
        Target::Contract90,
        Target::Contract100,
        Target::Contract110,
        Target::Contract120,
        Target::Contract130,
        Target::Contract140,
        Target::Contract150,
        Target::Contract160,
        Target::ContractCapot,
    ];
    let owned = s.to_owned();
    let mut i: usize = 0;
    while i < 10
        invariant
            i <= 10,
            owned@ == s@,
            targets@ =~= seq![
                Target::Contract80,
                Target::Contract90,
                Target::Contract100,
                Target::Contract110,
                Target::Contract120,
                Target::Contract130,
                Target::Contract140,
                Target::Contract150,
                Target::Contract160,
                Target::ContractCapot,
            ],
            forall|k: int| 0 <= k < i ==> s@ != target_text_spec(#[trigger] targets@[k]),
        decreases 10 - i,
    {
        let t = targets[i];
        let text = String::from_str(target_to_str(t));
        if text == owned {
            return Some(t);
        }
        i = i + 1;
    }
    proof {
        assert forall|t: Target| s@ != target_text_spec(t) by {
            if t == Target::Contract80 {
                assert(targets@[0] == t);
            } else if t == Target::Contract90 {
                assert(targets@[1] == t);
            } else if t == Target::Contract100 {
                assert(targets@[2] == t);
            } else if t == Target::Contract110 {
                assert(targets@[3] == t);
            } else if t == Target::Contract120 {
                assert(targets@[4] == t);
            } else if t == Target::Contract130 {
                assert(targets@[5] == t);
            } else if t == Target::Contract140 {
                assert(targets@[6] == t);
            } else if t == Target::Contract150 {
                assert(targets@[7] == t);
            } else if t == Target::Contract160 {
                assert(targets@[8] == t);
            } else {
                assert(targets@[9] == t);
            }
        }
    }
    None
}

/// Reads a suit back from its one-letter text; any other text is
/// refused.
pub fn suit_parse(s: &str) -> (r: Option<Suit>)
    ensures
        r matches Some(x) ==> s@ == suit_text_spec(x),
        r is None ==> forall|x: Suit| s@ != suit_text_spec(x),
{
    let owned = s.to_owned();
    if String::from_str(suit_to_str(Suit::Club)) == owned {
        return Some(Suit::Club);
    }
    if String::from_str(suit_to_str(Suit::Diamond)) == owned {
        return Some(Suit::Diamond);
    }
    if String::from_str(suit_to_str(Suit::Heart)) == owned {
        return Some(Suit::Heart);
    }
    if String::from_str(suit_to_str(Suit::Spade)) == owned {
        return Some(Suit::Spade);
    }
    proof {
        assert forall|x: Suit| s@ != suit_text_spec(x) by {
            match x {
                Suit::Club => {},
                Suit::Diamond => {},
                Suit::Heart => {},
                Suit::Spade => {},
            }
        }
    }
    None
}

} // verus!

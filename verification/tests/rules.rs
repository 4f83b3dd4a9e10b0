//! Tests of the rules library: seats, hands, the auction and card play.

use coinched::bid::{new_auction, AuctionState, BidError, Contract, Target};
use coinched::cards::{get_rank, make_card, new_hand, Card, Rank, Suit};
use coinched::deal::deal_hands;
use coinched::game::{has_higher, new_game, GameResult, PlayError, TrickResult};
use coinched::points;
use coinched::pos::PlayerPos;

#[test]
fn test_pos() {
    let mut count = [0usize; 4];
    for i in 0..4usize {
        let mut it = PlayerPos::from_n(i).until(PlayerPos::from_n(0));
        while let Some(pos) = it.next() {
            count[pos.index()] += 1;
        }
        let mut it = PlayerPos::from_n(0).until(PlayerPos::from_n(i));
        while let Some(pos) = it.next() {
            count[pos.index()] += 1;
        }
    }

    for c in count.iter() {
        assert!(*c == 5);
    }

    for i in 0..4usize {
        assert!(PlayerPos::from_n(i).next() == PlayerPos::from_n((i + 1) % 4));
        assert!(PlayerPos::from_n(i) == PlayerPos::from_n((i + 1) % 4).prev());
        assert!(PlayerPos::from_n(i).next().prev() == PlayerPos::from_n(i));
    }
}

#[test]
fn test_auction() {
    let mut auction = new_auction(PlayerPos::P0);

    assert!(matches!(auction.state(), AuctionState::Bidding));

    // First three people pass.
    assert_eq!(auction.pass(PlayerPos::P0), Ok(AuctionState::Bidding));
    assert_eq!(auction.pass(PlayerPos::P1), Ok(AuctionState::Bidding));
    assert_eq!(auction.pass(PlayerPos::P2), Ok(AuctionState::Bidding));

    // Someone bids.
    assert_eq!(
        auction.bid(PlayerPos::P3, Suit::Heart, Target::Contract80),
        Ok(AuctionState::Bidding)
    );
    // A bid at the same level is no raise.
    assert_eq!(
        auction
            .bid(PlayerPos::P0, Suit::Club, Target::Contract80)
            .ok(),
        None
    );
    // Out of turn.
    assert_eq!(
        auction
            .bid(PlayerPos::P1, Suit::Club, Target::Contract100)
            .ok(),
        None
    );
    assert_eq!(auction.pass(PlayerPos::P0), Ok(AuctionState::Bidding));
    // Partner surbids.
    assert_eq!(
        auction.bid(PlayerPos::P1, Suit::Heart, Target::Contract100),
        Ok(AuctionState::Bidding)
    );
    assert_eq!(auction.pass(PlayerPos::P2), Ok(AuctionState::Bidding));
    assert_eq!(auction.pass(PlayerPos::P3), Ok(AuctionState::Bidding));
    assert_eq!(auction.pass(PlayerPos::P0), Ok(AuctionState::Over));

    assert!(matches!(auction.state(), AuctionState::Over));

    match auction.complete() {
        Err(_) => assert!(false),
        _ => {}
    }
}

fn hand_of(cards: &[(Suit, Rank)]) -> coinched::cards::Hand {
    let mut h = new_hand();
    for (s, r) in cards.iter() {
        h.add(make_card(*s, *r));
    }
    h
}

#[test]
fn test_play_card() {
    let hands = [
        hand_of(&[
            (Suit::Heart, Rank::R8),
            (Suit::Heart, Rank::Rx),
            (Suit::Heart, Rank::Ra),
            (Suit::Heart, Rank::R9),
            (Suit::Club, Rank::R7),
            (Suit::Club, Rank::R8),
            (Suit::Club, Rank::R9),
            (Suit::Club, Rank::Rj),
        ]),
        hand_of(&[
            (Suit::Club, Rank::Rq),
            (Suit::Club, Rank::Rk),
            (Suit::Club, Rank::Rx),
            (Suit::Club, Rank::Ra),
            (Suit::Spade, Rank::R7),
            (Suit::Spade, Rank::R8),
            (Suit::Spade, Rank::R9),
            (Suit::Spade, Rank::Rj),
        ]),
        hand_of(&[
            (Suit::Diamond, Rank::R7),
            (Suit::Diamond, Rank::R8),
            (Suit::Diamond, Rank::R9),
            (Suit::Diamond, Rank::Rj),
            (Suit::Spade, Rank::Rq),
            (Suit::Spade, Rank::Rk),
            (Suit::Heart, Rank::Rq),
            (Suit::Heart, Rank::Rk),
        ]),
        hand_of(&[
            (Suit::Diamond, Rank::Rq),
            (Suit::Diamond, Rank::Rk),
            (Suit::Diamond, Rank::Rx),
            (Suit::Diamond, Rank::Ra),
            (Suit::Spade, Rank::Rx),
            (Suit::Spade, Rank::Ra),
            (Suit::Heart, Rank::R7),
            (Suit::Heart, Rank::Rj),
        ]),
    ];

    let contract = Contract {
        trump: Suit::Heart,
        author: PlayerPos::P0,
        target: Target::Contract80,
        coinche_level: 0,
    };

    let mut game = new_game(PlayerPos::P0, hands, contract);

    // Wrong turn.
    assert_eq!(
        game.play_card(PlayerPos::P1, make_card(Suit::Club, Rank::Rx))
            .err(),
        Some(PlayError::TurnError)
    );
    assert!(matches!(
        game.play_card(PlayerPos::P0, make_card(Suit::Club, Rank::R7)),
        Ok(TrickResult::Nothing)
    ));
    // Card missing.
    assert_eq!(
        game.play_card(PlayerPos::P1, make_card(Suit::Heart, Rank::R7))
            .err(),
        Some(PlayError::CardMissing)
    );
    // Wrong color.
    assert_eq!(
        game.play_card(PlayerPos::P1, make_card(Suit::Spade, Rank::R7))
            .err(),
        Some(PlayError::IncorrectSuit)
    );
    assert!(matches!(
        game.play_card(PlayerPos::P1, make_card(Suit::Club, Rank::Rq)),
        Ok(TrickResult::Nothing)
    ));
    // Invalid piss.
    assert_eq!(
        game.play_card(PlayerPos::P2, make_card(Suit::Diamond, Rank::R7))
            .err(),
        Some(PlayError::InvalidPiss)
    );
    assert!(matches!(
        game.play_card(PlayerPos::P2, make_card(Suit::Heart, Rank::Rq)),
        Ok(TrickResult::Nothing)
    ));
    // Under-trump.
    assert_eq!(
        game.play_card(PlayerPos::P3, make_card(Suit::Heart, Rank::R7))
            .err(),
        Some(PlayError::NonRaisedTrump)
    );
    assert!(matches!(
        game.play_card(PlayerPos::P3, make_card(Suit::Heart, Rank::Rj)),
        Ok(TrickResult::TrickOver(PlayerPos::P3, GameResult::Nothing))
    ));
}

#[test]
fn test_has_higher_1() {
    // Simple case: X is always higher than Q.
    let mut hand = new_hand();

    hand.add(make_card(Suit::Heart, Rank::R8));
    hand.add(make_card(Suit::Spade, Rank::Rx));
    assert!(has_higher(
        hand,
        Suit::Spade,
        points::trump_strength(Rank::Rq)
    ));
}

#[test]
fn test_has_higher_2() {
    // Test that we don't mix colors.
    let mut hand = new_hand();

    hand.add(make_card(Suit::Heart, Rank::R8));
    hand.add(make_card(Suit::Spade, Rank::Rx));
    assert!(!has_higher(
        hand,
        Suit::Heart,
        points::trump_strength(Rank::Rq)
    ));
}

#[test]
fn test_has_higher_3() {
    // In the trump order, X is lower than 9.
    let mut hand = new_hand();

    hand.add(make_card(Suit::Heart, Rank::Rj));
    hand.add(make_card(Suit::Spade, Rank::Rx));
    assert!(!has_higher(
        hand,
        Suit::Spade,
        points::trump_strength(Rank::R9)
    ));
}

#[test]
fn test_has_higher_4() {
    // In the trump order, J is higher than A.
    let mut hand = new_hand();

    hand.add(make_card(Suit::Heart, Rank::R8));
    hand.add(make_card(Suit::Spade, Rank::Rj));
    assert!(has_higher(
        hand,
        Suit::Spade,
        points::trump_strength(Rank::Ra)
    ));
}

#[test]
fn test_has_higher_5() {
    // Test when we have no trump at all.
    let mut hand = new_hand();

    hand.add(make_card(Suit::Heart, Rank::Rj));
    hand.add(make_card(Suit::Diamond, Rank::Rj));
    hand.add(make_card(Suit::Spade, Rank::Rj));
    assert!(!has_higher(
        hand,
        Suit::Club,
        points::trump_strength(Rank::R7)
    ));
}

#[test]
fn deal_partitions_deck() {
    let hands = deal_hands();
    for i in 0..4usize {
        assert_eq!(hands[i].size(), 8);
    }
    for sn in 0..4u32 {
        for rn in 0..8u32 {
            let c = make_card(Suit::from_n(sn), get_rank(rn));
            let mut holders = 0;
            for i in 0..4usize {
                if hands[i].has(c) {
                    holders += 1;
                }
            }
            assert_eq!(holders, 1);
        }
    }
}

#[test]
fn hand_operations() {
    let mut h = new_hand();
    let c = make_card(Suit::Diamond, Rank::Ra);
    assert!(!h.has(c));
    h.add(c);
    assert!(h.has(c));
    assert!(h.has_any(Suit::Diamond));
    assert!(!h.has_any(Suit::Club));
    assert_eq!(h.size(), 1);
    let listed = h.list();
    assert_eq!(listed.len(), 1);
    assert!(listed[0] == c);
    h.remove(c);
    assert!(!h.has(c));
    assert_eq!(h.size(), 0);
}

#[test]
fn card_ids_roundtrip() {
    for n in 0..32u32 {
        let c = Card::from_id(n);
        assert_eq!(c.id(), n);
    }
}

#[test]
fn target_scores() {
    assert_eq!(Target::Contract80.score(), 80);
    assert_eq!(Target::Contract90.score(), 90);
    assert_eq!(Target::Contract100.score(), 100);
    assert_eq!(Target::Contract110.score(), 110);
    assert_eq!(Target::Contract120.score(), 120);
    assert_eq!(Target::Contract130.score(), 130);
    assert_eq!(Target::Contract140.score(), 140);
    assert_eq!(Target::Contract150.score(), 150);
    assert_eq!(Target::Contract160.score(), 160);
    assert_eq!(Target::ContractCapot.score(), 250);
    assert!(Target::Contract80.victory(80, false));
    assert!(!Target::Contract80.victory(79, false));
    assert!(Target::ContractCapot.victory(0, true));
    assert!(!Target::ContractCapot.victory(162, false));
}

#[test]
fn card_point_values() {
    assert_eq!(points::score(make_card(Suit::Heart, Rank::Rj), Suit::Heart), 20);
    assert_eq!(points::score(make_card(Suit::Heart, Rank::R9), Suit::Heart), 14);
    assert_eq!(points::score(make_card(Suit::Heart, Rank::Ra), Suit::Heart), 11);
    assert_eq!(points::score(make_card(Suit::Heart, Rank::Rx), Suit::Heart), 10);
    assert_eq!(points::score(make_card(Suit::Club, Rank::Rj), Suit::Heart), 2);
    assert_eq!(points::score(make_card(Suit::Club, Rank::Ra), Suit::Heart), 11);
    assert_eq!(points::score(make_card(Suit::Club, Rank::R9), Suit::Heart), 0);
}

#[test]
fn auction_error_taxonomy() {
    let mut a = new_auction(PlayerPos::P0);
    // No contract yet.
    assert_eq!(a.coinche(PlayerPos::P1).err(), Some(BidError::NoContractToCoinche));
    // Out of turn.
    assert_eq!(
        a.bid(PlayerPos::P2, Suit::Club, Target::Contract80).err(),
        Some(BidError::TurnError)
    );
    // Completing a running auction.
    assert!(matches!(a.complete().err(), Some(BidError::AuctionRunning)));
    assert_eq!(
        a.bid(PlayerPos::P0, Suit::Spade, Target::Contract100),
        Ok(AuctionState::Bidding)
    );
    // The author's own team cannot coinche.
    assert_eq!(a.coinche(PlayerPos::P2).err(), Some(BidError::TurnError));
    assert_eq!(a.coinche(PlayerPos::P1), Ok(AuctionState::Bidding));
    // An opponent of the author cannot redouble.
    assert_eq!(a.coinche(PlayerPos::P3).err(), Some(BidError::TurnError));
    // A coinched contract cannot be outbid.
    assert_eq!(
        a.bid(PlayerPos::P1, Suit::Club, Target::Contract120).err(),
        Some(BidError::NonRaisedTarget)
    );
    assert_eq!(a.coinche(PlayerPos::P0), Ok(AuctionState::Over));
    // Redoubled already, and the auction is closed.
    assert_eq!(a.coinche(PlayerPos::P1).err(), Some(BidError::AuctionClosed));
    assert_eq!(a.pass(PlayerPos::P1).err(), Some(BidError::AuctionClosed));
    let c = a.current_contract().unwrap();
    assert_eq!(c.coinche_level, 2);
    assert_eq!(c.author, PlayerPos::P0);
}

#[test]
fn capot_bid_closes_auction() {
    let mut a = new_auction(PlayerPos::P2);
    assert_eq!(
        a.bid(PlayerPos::P2, Suit::Diamond, Target::ContractCapot),
        Ok(AuctionState::Over)
    );
    assert!(matches!(a.complete(), Ok(_)));
}

#[test]
fn wire_text_roundtrip() {
    for n in 0..32u32 {
        let c = Card::from_id(n);
        let text = coinched::text::card_to_text(c);
        assert_eq!(coinched::text::card_parse(&text), Some(c));
    }
    assert_eq!(
        coinched::text::card_to_text(make_card(Suit::Club, Rank::R8)),
        "8C"
    );
    assert_eq!(
        coinched::text::card_to_text(make_card(Suit::Heart, Rank::Rx)),
        "10H"
    );
    assert_eq!(coinched::text::card_parse("8C"), Some(make_card(Suit::Club, Rank::R8)));
    assert_eq!(coinched::text::card_parse("XC"), None);
    assert_eq!(coinched::text::card_parse(""), None);

    let targets = [
        Target::Contract80,
        Target::Contract90,
        Target::Contract100,
        Target::Contract110,
        Target::Contract120,
        Target::Contract130,
        Target::Contract140,
        Target::Contract150,
        Target::Contract160,
        Target::ContractCapot,
    ];
    for t in targets.iter() {
        let text = coinched::text::target_to_str(*t);
        assert_eq!(coinched::text::target_parse(text), Some(*t));
    }
    assert_eq!(coinched::text::target_to_str(Target::Contract80), "80");
    assert_eq!(coinched::text::target_to_str(Target::ContractCapot), "Capot");
    assert_eq!(coinched::text::target_parse("85"), None);

    for sn in 0..4u32 {
        let s = Suit::from_n(sn);
        assert_eq!(coinched::text::suit_parse(coinched::text::suit_to_str(s)), Some(s));
    }
    assert_eq!(coinched::text::suit_to_str(Suit::Heart), "H");
    assert_eq!(coinched::text::suit_parse("Z"), None);
}

//! End-to-end scenarios over tables and the manager.

use coinched::bid::{Contract, Target};
use coinched::cards::{make_card, new_hand, Hand, Rank, Suit};
use coinched::event::{EventType, PlayerEvent};
use coinched::game::{new_game, GameResult, PlayError, TrickResult};
use coinched::manager::{GameManager, JoinResult, WaitResult};
use coinched::party::{ManagerError, Party, WaitResult as PartyWait};
use coinched::party::{Action, Order};
use coinched::pos::{PlayerPos, Team};

fn hand_of(cards: &[(Suit, Rank)]) -> Hand {
    let mut h = new_hand();
    for (s, r) in cards.iter() {
        h.add(make_card(*s, *r));
    }
    h
}

fn seats() -> [PlayerPos; 4] {
    [PlayerPos::P0, PlayerPos::P1, PlayerPos::P2, PlayerPos::P3]
}

/// Four players join; everyone passes; the deal is cancelled and redealt
/// with the dealer rotated to the next seat.
#[test]
fn four_pass_cancel() {
    let mut m = GameManager::new();
    let mut ids = [0u32; 4];
    for k in 0..3 {
        match m.join(0) {
            JoinResult::Waiting(_) => {}
            JoinResult::Ready(_) => panic!("table formed too early at joiner {}", k),
        }
    }
    match m.join(0) {
        JoinResult::Ready(info) => {
            assert_eq!(info.player_pos, PlayerPos::P3);
            ids[3] = info.player_id;
        }
        JoinResult::Waiting(_) => panic!("fourth joiner should be seated"),
    }
    let seated = m.take_join_outbox();
    assert_eq!(seated.len(), 3);
    for (k, (_token, info)) in seated.iter().enumerate() {
        assert_eq!(info.player_pos, PlayerPos::from_n(k));
        ids[k] = info.player_id;
    }

    // Event 0 is the deal, seen relativized.
    match m.wait(ids[0], 0, 0) {
        Ok(WaitResult::Ready(ev)) => {
            assert_eq!(ev.id, 0);
            assert!(matches!(
                ev.event,
                EventType::NewGameRelative { first: PlayerPos::P0, .. }
            ));
        }
        _ => panic!("event 0 should be ready"),
    }

    // P0..P3 pass in order; the pass events get ids 1..4.
    for k in 0..4 {
        match m.pass(ids[k], 0) {
            Ok(ev) => {
                assert_eq!(ev.id, k + 1);
                assert!(matches!(
                    ev.event,
                    EventType::FromPlayer { event: PlayerEvent::Passed, .. }
                ));
            }
            Err(_) => panic!("pass {} refused", k),
        }
    }

    // The cancellation and the next deal follow.
    match m.wait(ids[1], 5, 0) {
        Ok(WaitResult::Ready(ev)) => {
            assert!(matches!(ev.event, EventType::BidCancelled));
        }
        _ => panic!("event 5 should be the cancellation"),
    }
    match m.wait(ids[1], 6, 0) {
        Ok(WaitResult::Ready(ev)) => {
            assert!(matches!(
                ev.event,
                EventType::NewGameRelative { first: PlayerPos::P1, .. }
            ));
        }
        _ => panic!("event 6 should be the next deal"),
    }
    assert_eq!(m.see_scores(ids[2], 0).unwrap(), [0, 0]);
}

/// The auction of a simple contract: P0 bids 80 hearts, the rest pass,
/// and the contract is published.
#[test]
fn simple_contract_auction() {
    let mut p = Party::new(PlayerPos::P0);
    assert!(p.bid(PlayerPos::P0, Suit::Heart, Target::Contract80).is_ok());
    assert!(p.pass(PlayerPos::P1).is_ok());
    assert!(p.pass(PlayerPos::P2).is_ok());
    let last = p.pass(PlayerPos::P3).unwrap();
    assert_eq!(last.id, 4);
    // The auction closed: event 5 is the contract.
    match p.wait(PlayerPos::P0, 5, 1).unwrap() {
        PartyWait::Ready(ev) => match ev.event {
            EventType::BidOver { contract } => {
                assert_eq!(
                    contract,
                    Contract {
                        trump: Suit::Heart,
                        author: PlayerPos::P0,
                        target: Target::Contract80,
                        coinche_level: 0,
                    }
                );
            }
            _ => panic!("event 5 should be the contract"),
        },
        PartyWait::Waiting => panic!("event 5 should be ready"),
    }
    // Bids are refused during card play.
    assert_eq!(
        p.bid(PlayerPos::P0, Suit::Heart, Target::Contract90).err(),
        Some(ManagerError::BidInGame)
    );
}

/// A prepared deal for a made 80-heart contract: the bidding team takes
/// 100 trick points against 62.
fn made_contract_hands() -> [Hand; 4] {
    [
        hand_of(&[
            (Suit::Club, Rank::Ra),
            (Suit::Club, Rank::R7),
            (Suit::Heart, Rank::Rj),
            (Suit::Heart, Rank::Rk),
            (Suit::Diamond, Rank::Rx),
            (Suit::Diamond, Rank::R9),
            (Suit::Spade, Rank::Rq),
            (Suit::Spade, Rank::R7),
        ]),
        hand_of(&[
            (Suit::Club, Rank::Rx),
            (Suit::Club, Rank::R8),
            (Suit::Heart, Rank::R9),
            (Suit::Heart, Rank::R7),
            (Suit::Diamond, Rank::Ra),
            (Suit::Diamond, Rank::R8),
            (Suit::Spade, Rank::Rx),
            (Suit::Spade, Rank::Rj),
        ]),
        hand_of(&[
            (Suit::Club, Rank::Rk),
            (Suit::Club, Rank::R9),
            (Suit::Heart, Rank::Ra),
            (Suit::Heart, Rank::R8),
            (Suit::Diamond, Rank::Rk),
            (Suit::Diamond, Rank::R7),
            (Suit::Spade, Rank::Rk),
            (Suit::Spade, Rank::R8),
        ]),
        hand_of(&[
            (Suit::Club, Rank::Rq),
            (Suit::Club, Rank::Rj),
            (Suit::Heart, Rank::Rx),
            (Suit::Heart, Rank::Rq),
            (Suit::Diamond, Rank::Rq),
            (Suit::Diamond, Rank::Rj),
            (Suit::Spade, Rank::Ra),
            (Suit::Spade, Rank::R9),
        ]),
    ]
}

fn play(game: &mut coinched::game::GameState, pos: PlayerPos, s: Suit, r: Rank) -> TrickResult {
    match game.play_card(pos, make_card(s, r)) {
        Ok(tr) => tr,
        Err(e) => panic!("play {:?} {:?}{:?} refused: {:?}", pos, s, r, e),
    }
}

/// A made contract: the bidding team takes 100 points and scores its 80.
#[test]
fn contract_made() {
    let contract = Contract {
        trump: Suit::Heart,
        author: PlayerPos::P0,
        target: Target::Contract80,
        coinche_level: 0,
    };
    let mut g = new_game(PlayerPos::P0, made_contract_hands(), contract);
    let [p0, p1, p2, p3] = seats();

    // Trick 1: high clubs to P0.
    play(&mut g, p0, Suit::Club, Rank::Ra);
    play(&mut g, p1, Suit::Club, Rank::Rx);
    play(&mut g, p2, Suit::Club, Rank::Rk);
    assert!(matches!(
        play(&mut g, p3, Suit::Club, Rank::Rq),
        TrickResult::TrickOver(PlayerPos::P0, GameResult::Nothing)
    ));
    // Trick 2: the big trumps to P0.
    play(&mut g, p0, Suit::Heart, Rank::Rj);
    play(&mut g, p1, Suit::Heart, Rank::R9);
    play(&mut g, p2, Suit::Heart, Rank::Ra);
    play(&mut g, p3, Suit::Heart, Rank::Rx);
    // Trick 3: high diamonds to P1.
    play(&mut g, p0, Suit::Diamond, Rank::Rx);
    play(&mut g, p1, Suit::Diamond, Rank::Ra);
    play(&mut g, p2, Suit::Diamond, Rank::Rk);
    assert!(matches!(
        play(&mut g, p3, Suit::Diamond, Rank::Rq),
        TrickResult::TrickOver(PlayerPos::P1, GameResult::Nothing)
    ));
    // Trick 4: high spades to P3.
    play(&mut g, p1, Suit::Spade, Rank::Rx);
    play(&mut g, p2, Suit::Spade, Rank::Rk);
    play(&mut g, p3, Suit::Spade, Rank::Ra);
    play(&mut g, p0, Suit::Spade, Rank::Rq);
    // Trick 5: low diamonds to P3.
    play(&mut g, p3, Suit::Diamond, Rank::Rj);
    play(&mut g, p0, Suit::Diamond, Rank::R9);
    play(&mut g, p1, Suit::Diamond, Rank::R8);
    play(&mut g, p2, Suit::Diamond, Rank::R7);
    // Trick 6: low clubs to P3.
    play(&mut g, p3, Suit::Club, Rank::Rj);
    play(&mut g, p0, Suit::Club, Rank::R7);
    play(&mut g, p1, Suit::Club, Rank::R8);
    play(&mut g, p2, Suit::Club, Rank::R9);
    // Trick 7: low spades to P1.
    play(&mut g, p3, Suit::Spade, Rank::R9);
    play(&mut g, p0, Suit::Spade, Rank::R7);
    play(&mut g, p1, Suit::Spade, Rank::Rj);
    play(&mut g, p2, Suit::Spade, Rank::R8);
    // Trick 8: the last trumps to P0, with the last-trick bonus.
    play(&mut g, p1, Suit::Heart, Rank::R7);
    play(&mut g, p2, Suit::Heart, Rank::R8);
    play(&mut g, p3, Suit::Heart, Rank::Rq);
    match play(&mut g, p0, Suit::Heart, Rank::Rk) {
        TrickResult::TrickOver(w, GameResult::GameOver { points, winners, scores }) => {
            assert_eq!(w, PlayerPos::P0);
            assert_eq!(points, [100, 62]);
            assert_eq!(winners, Team::T0);
            assert_eq!(scores, [80, 0]);
        }
        other => panic!("expected the deal to end, got {:?}", other),
    }
}

/// A prepared deal for a failed 80-heart contract: the bidding team only
/// takes 70 trick points.
fn failed_contract_hands() -> [Hand; 4] {
    [
        hand_of(&[
            (Suit::Club, Rank::Ra),
            (Suit::Club, Rank::R9),
            (Suit::Heart, Rank::Rj),
            (Suit::Heart, Rank::R7),
            (Suit::Diamond, Rank::Rx),
            (Suit::Diamond, Rank::R9),
            (Suit::Spade, Rank::Rq),
            (Suit::Spade, Rank::R7),
        ]),
        hand_of(&[
            (Suit::Club, Rank::R8),
            (Suit::Club, Rank::Rx),
            (Suit::Heart, Rank::R9),
            (Suit::Heart, Rank::Rk),
            (Suit::Diamond, Rank::Ra),
            (Suit::Diamond, Rank::R8),
            (Suit::Spade, Rank::Rx),
            (Suit::Spade, Rank::Rj),
        ]),
        hand_of(&[
            (Suit::Club, Rank::R7),
            (Suit::Club, Rank::Rq),
            (Suit::Heart, Rank::Ra),
            (Suit::Heart, Rank::R8),
            (Suit::Diamond, Rank::Rk),
            (Suit::Diamond, Rank::R7),
            (Suit::Spade, Rank::Rk),
            (Suit::Spade, Rank::R8),
        ]),
        hand_of(&[
            (Suit::Club, Rank::Rk),
            (Suit::Club, Rank::Rj),
            (Suit::Heart, Rank::Rx),
            (Suit::Heart, Rank::Rq),
            (Suit::Diamond, Rank::Rq),
            (Suit::Diamond, Rank::Rj),
            (Suit::Spade, Rank::Ra),
            (Suit::Spade, Rank::R9),
        ]),
    ]
}

/// A failed contract: the bidding team only takes 70 points, and the
/// defenders score twice the target.
#[test]
fn contract_failed() {
    let contract = Contract {
        trump: Suit::Heart,
        author: PlayerPos::P0,
        target: Target::Contract80,
        coinche_level: 0,
    };
    let mut g = new_game(PlayerPos::P0, failed_contract_hands(), contract);
    let [p0, p1, p2, p3] = seats();

    // Trick 1: ace of clubs to P0 over small ones.
    play(&mut g, p0, Suit::Club, Rank::Ra);
    play(&mut g, p1, Suit::Club, Rank::R8);
    play(&mut g, p2, Suit::Club, Rank::R7);
    play(&mut g, p3, Suit::Club, Rank::Rk);
    // Trick 2: the big trumps to P0.
    play(&mut g, p0, Suit::Heart, Rank::Rj);
    play(&mut g, p1, Suit::Heart, Rank::R9);
    play(&mut g, p2, Suit::Heart, Rank::Ra);
    play(&mut g, p3, Suit::Heart, Rank::Rx);
    // Trick 3: high diamonds to P1.
    play(&mut g, p0, Suit::Diamond, Rank::Rx);
    play(&mut g, p1, Suit::Diamond, Rank::Ra);
    play(&mut g, p2, Suit::Diamond, Rank::Rk);
    play(&mut g, p3, Suit::Diamond, Rank::Rq);
    // Trick 4: high spades to P3.
    play(&mut g, p1, Suit::Spade, Rank::Rx);
    play(&mut g, p2, Suit::Spade, Rank::Rk);
    play(&mut g, p3, Suit::Spade, Rank::Ra);
    play(&mut g, p0, Suit::Spade, Rank::Rq);
    // Trick 5: low diamonds to P3.
    play(&mut g, p3, Suit::Diamond, Rank::Rj);
    play(&mut g, p0, Suit::Diamond, Rank::R9);
    play(&mut g, p1, Suit::Diamond, Rank::R8);
    play(&mut g, p2, Suit::Diamond, Rank::R7);
    // Trick 6: ten of clubs to P1.
    play(&mut g, p3, Suit::Club, Rank::Rj);
    play(&mut g, p0, Suit::Club, Rank::R9);
    play(&mut g, p1, Suit::Club, Rank::Rx);
    play(&mut g, p2, Suit::Club, Rank::Rq);
    // Trick 7: low spades to P1.
    play(&mut g, p1, Suit::Spade, Rank::Rj);
    play(&mut g, p2, Suit::Spade, Rank::R8);
    play(&mut g, p3, Suit::Spade, Rank::R9);
    play(&mut g, p0, Suit::Spade, Rank::R7);
    // Trick 8: king of trumps to P1, with the last-trick bonus.
    play(&mut g, p1, Suit::Heart, Rank::Rk);
    play(&mut g, p2, Suit::Heart, Rank::R8);
    play(&mut g, p3, Suit::Heart, Rank::Rq);
    match play(&mut g, p0, Suit::Heart, Rank::R7) {
        TrickResult::TrickOver(w, GameResult::GameOver { points, winners, scores }) => {
            assert_eq!(w, PlayerPos::P1);
            assert_eq!(points, [70, 92]);
            assert_eq!(winners, Team::T1);
            assert_eq!(scores, [0, 160]);
        }
        other => panic!("expected the deal to end, got {:?}", other),
    }
}

/// Coinche and redouble: the redouble closes the auction at once, the
/// published contract carries level 2, and scoring multiplies by four.
#[test]
fn coinche_and_redouble() {
    let mut p = Party::new(PlayerPos::P0);
    assert!(p.bid(PlayerPos::P0, Suit::Spade, Target::Contract100).is_ok());
    assert!(p.coinche(PlayerPos::P1).is_ok());
    assert!(p.coinche(PlayerPos::P2).is_ok());
    // Events: deal 0, bid 1, coinche 2, coinche 3, contract 4.
    match p.wait(PlayerPos::P3, 4, 1).unwrap() {
        PartyWait::Ready(ev) => match ev.event {
            EventType::BidOver { contract } => {
                assert_eq!(contract.coinche_level, 2);
                assert_eq!(contract.author, PlayerPos::P0);
                assert_eq!(contract.target, Target::Contract100);
            }
            _ => panic!("event 4 should be the contract"),
        },
        PartyWait::Waiting => panic!("event 4 should be ready"),
    }

    // The redoubled level multiplies the pay-out by four.
    let contract = Contract {
        trump: Suit::Heart,
        author: PlayerPos::P0,
        target: Target::Contract100,
        coinche_level: 2,
    };
    let mut g = new_game(PlayerPos::P0, made_contract_hands(), contract);
    let [p0, p1, p2, p3] = seats();
    play(&mut g, p0, Suit::Club, Rank::Ra);
    play(&mut g, p1, Suit::Club, Rank::Rx);
    play(&mut g, p2, Suit::Club, Rank::Rk);
    play(&mut g, p3, Suit::Club, Rank::Rq);
    play(&mut g, p0, Suit::Heart, Rank::Rj);
    play(&mut g, p1, Suit::Heart, Rank::R9);
    play(&mut g, p2, Suit::Heart, Rank::Ra);
    play(&mut g, p3, Suit::Heart, Rank::Rx);
    play(&mut g, p0, Suit::Diamond, Rank::Rx);
    play(&mut g, p1, Suit::Diamond, Rank::Ra);
    play(&mut g, p2, Suit::Diamond, Rank::Rk);
    play(&mut g, p3, Suit::Diamond, Rank::Rq);
    play(&mut g, p1, Suit::Spade, Rank::Rx);
    play(&mut g, p2, Suit::Spade, Rank::Rk);
    play(&mut g, p3, Suit::Spade, Rank::Ra);
    play(&mut g, p0, Suit::Spade, Rank::Rq);
    play(&mut g, p3, Suit::Diamond, Rank::Rj);
    play(&mut g, p0, Suit::Diamond, Rank::R9);
    play(&mut g, p1, Suit::Diamond, Rank::R8);
    play(&mut g, p2, Suit::Diamond, Rank::R7);
    play(&mut g, p3, Suit::Club, Rank::Rj);
    play(&mut g, p0, Suit::Club, Rank::R7);
    play(&mut g, p1, Suit::Club, Rank::R8);
    play(&mut g, p2, Suit::Club, Rank::R9);
    play(&mut g, p3, Suit::Spade, Rank::R9);
    play(&mut g, p0, Suit::Spade, Rank::R7);
    play(&mut g, p1, Suit::Spade, Rank::Rj);
    play(&mut g, p2, Suit::Spade, Rank::R8);
    play(&mut g, p1, Suit::Heart, Rank::R7);
    play(&mut g, p2, Suit::Heart, Rank::R8);
    play(&mut g, p3, Suit::Heart, Rank::Rq);
    match play(&mut g, p0, Suit::Heart, Rank::Rk) {
        TrickResult::TrickOver(_, GameResult::GameOver { points, winners, scores }) => {
            assert_eq!(points, [100, 62]);
            assert_eq!(winners, Team::T0);
            assert_eq!(scores, [400, 0]);
        }
        other => panic!("expected the deal to end, got {:?}", other),
    }
}

/// An illegal discard: out of the led suit and holding trump, a player
/// must cut unless its partner is winning.
#[test]
fn illegal_card() {
    let hands = [
        hand_of(&[
            (Suit::Club, Rank::R7),
            (Suit::Club, Rank::R8),
            (Suit::Club, Rank::R9),
            (Suit::Club, Rank::Rx),
            (Suit::Club, Rank::Rj),
            (Suit::Club, Rank::Rq),
            (Suit::Club, Rank::Rk),
            (Suit::Club, Rank::Ra),
        ]),
        hand_of(&[
            (Suit::Heart, Rank::R8),
            (Suit::Spade, Rank::Rk),
            (Suit::Diamond, Rank::R7),
            (Suit::Diamond, Rank::R8),
            (Suit::Diamond, Rank::R9),
            (Suit::Diamond, Rank::Rx),
            (Suit::Diamond, Rank::Rj),
            (Suit::Diamond, Rank::Rq),
        ]),
        hand_of(&[
            (Suit::Heart, Rank::R7),
            (Suit::Heart, Rank::R9),
            (Suit::Heart, Rank::Rx),
            (Suit::Heart, Rank::Rj),
            (Suit::Heart, Rank::Rq),
            (Suit::Heart, Rank::Rk),
            (Suit::Heart, Rank::Ra),
            (Suit::Diamond, Rank::Rk),
        ]),
        hand_of(&[
            (Suit::Spade, Rank::R7),
            (Suit::Spade, Rank::R8),
            (Suit::Spade, Rank::R9),
            (Suit::Spade, Rank::Rx),
            (Suit::Spade, Rank::Rj),
            (Suit::Spade, Rank::Rq),
            (Suit::Spade, Rank::Ra),
            (Suit::Diamond, Rank::Ra),
        ]),
    ];
    let contract = Contract {
        trump: Suit::Heart,
        author: PlayerPos::P0,
        target: Target::Contract80,
        coinche_level: 0,
    };
    let mut g = new_game(PlayerPos::P0, hands, contract);
    play(&mut g, PlayerPos::P0, Suit::Club, Rank::R7);
    // P1 holds no club but a trump: discarding the spade king is refused.
    assert_eq!(
        g.play_card(PlayerPos::P1, make_card(Suit::Spade, Rank::Rk)).err(),
        Some(PlayError::InvalidPiss)
    );
    // Cutting with the trump eight is accepted.
    assert!(g.play_card(PlayerPos::P1, make_card(Suit::Heart, Rank::R8)).is_ok());
}

/// Long-poll ordering: a waiter registered at the tip receives exactly
/// the next event, and later events are read without blocking.
#[test]
fn long_poll_ordering() {
    let mut p = Party::new(PlayerPos::P0);
    assert!(p.bid(PlayerPos::P0, Suit::Heart, Target::Contract80).is_ok());
    assert!(p.pass(PlayerPos::P1).is_ok());
    assert_eq!(p.event_count(), 3);

    // P3 asks for event 3 before it exists and is registered.
    assert!(matches!(
        p.wait(PlayerPos::P3, 3, 42).unwrap(),
        PartyWait::Waiting
    ));
    // Asking beyond the tip is refused.
    assert_eq!(
        p.wait(PlayerPos::P3, 5, 43).err(),
        Some(ManagerError::BadEventId)
    );

    // Two more events are appended.
    assert!(p.pass(PlayerPos::P2).is_ok());
    assert!(p.pass(PlayerPos::P3).is_ok());

    // The waiter was woken by event 3, not event 4.
    let out = p.take_outbox();
    assert_eq!(out.len(), 1);
    assert_eq!(out[0].0, 42);
    assert_eq!(out[0].1.id, 3);
    assert!(matches!(
        out[0].1.event,
        EventType::FromPlayer { pos: PlayerPos::P2, event: PlayerEvent::Passed }
    ));

    // Event 4 is then read without blocking.
    match p.wait(PlayerPos::P3, 4, 44).unwrap() {
        PartyWait::Ready(ev) => {
            assert_eq!(ev.id, 4);
            assert!(matches!(
                ev.event,
                EventType::FromPlayer { pos: PlayerPos::P3, event: PlayerEvent::Passed }
            ));
        }
        PartyWait::Waiting => panic!("event 4 should be ready"),
    }
}

/// Wake-all: every waiter registered before an append receives that
/// event, and the observer list is drained.
#[test]
fn wake_all_waiters() {
    let mut p = Party::new(PlayerPos::P0);
    assert!(matches!(p.wait(PlayerPos::P1, 1, 7).unwrap(), PartyWait::Waiting));
    assert!(matches!(p.wait(PlayerPos::P2, 1, 8).unwrap(), PartyWait::Waiting));
    assert!(p.bid(PlayerPos::P0, Suit::Club, Target::Contract80).is_ok());
    let out = p.take_outbox();
    assert_eq!(out.len(), 2);
    assert_eq!((out[0].0, out[0].1.id), (7, 1));
    assert_eq!((out[1].0, out[1].1.id), (8, 1));
    // The list was drained: the next append wakes nobody.
    assert!(p.pass(PlayerPos::P1).is_ok());
    assert_eq!(p.take_outbox().len(), 0);
}

/// Relativization: every seat sees its own hand in the deal event, and
/// other events are identical across seats.
#[test]
fn relativized_views() {
    let mut p = Party::new(PlayerPos::P0);
    for pos in seats() {
        match p.wait(pos, 0, 1).unwrap() {
            PartyWait::Ready(ev) => match ev.event {
                EventType::NewGameRelative { first, hand } => {
                    assert_eq!(first, PlayerPos::P0);
                    assert_eq!(hand, p.hand(pos));
                    assert_eq!(hand.size(), 8);
                }
                _ => panic!("the deal must arrive relativized"),
            },
            PartyWait::Waiting => panic!("event 0 should be ready"),
        }
    }
    assert!(p.bid(PlayerPos::P0, Suit::Club, Target::Contract80).is_ok());
    // A bid event reads the same from every seat.
    for pos in seats() {
        match p.wait(pos, 1, 1).unwrap() {
            PartyWait::Ready(ev) => {
                assert!(matches!(
                    ev.event,
                    EventType::FromPlayer {
                        pos: PlayerPos::P0,
                        event: PlayerEvent::Bidded(Suit::Club, Target::Contract80)
                    }
                ));
            }
            PartyWait::Waiting => panic!("event 1 should be ready"),
        }
    }
}

/// Leaving cancels the whole table and de-registers all four seats.
#[test]
fn leave_cancels_table() {
    let mut m = GameManager::new();
    let mut ids = [0u32; 4];
    for _ in 0..3 {
        assert!(matches!(m.join(0), JoinResult::Waiting(_)));
    }
    match m.join(0) {
        JoinResult::Ready(info) => ids[3] = info.player_id,
        _ => panic!("fourth joiner should be seated"),
    }
    for (k, (_t, info)) in m.take_join_outbox().iter().enumerate() {
        ids[k] = info.player_id;
    }
    // A waiter blocks, then the table collapses.
    assert!(matches!(m.wait(ids[2], 1, 0), Ok(WaitResult::Waiting(_))));
    let deliveries = m.leave(ids[0], 0).unwrap();
    assert_eq!(deliveries.len(), 1);
    assert!(matches!(
        deliveries[0].1.event,
        EventType::PartyCancelled { .. }
    ));
    // All four players are gone.
    for k in 0..4 {
        assert_eq!(m.pass(ids[k], 0).err(), Some(ManagerError::BadPlayerId));
    }
}

/// Idle players are evicted together with their table.
#[test]
fn idle_eviction() {
    let mut m = GameManager::new();
    for _ in 0..3 {
        assert!(matches!(m.join(100), JoinResult::Waiting(_)));
    }
    let id3 = match m.join(100) {
        JoinResult::Ready(info) => info.player_id,
        _ => panic!("fourth joiner should be seated"),
    };
    // Nothing is idle within the threshold.
    m.evict_idle(150, 100);
    assert!(m.see_pos(id3, 150).is_ok());
    // Far later, the whole table is evicted.
    m.evict_idle(1000, 100);
    assert_eq!(m.see_pos(id3, 1000).err(), Some(ManagerError::BadPlayerId));
}

/// Unknown ids are refused outright.
#[test]
fn bad_player_id() {
    let mut m = GameManager::new();
    assert_eq!(m.pass(17, 0).err(), Some(ManagerError::BadPlayerId));
    assert_eq!(m.see_hand(17, 0).err(), Some(ManagerError::BadPlayerId));
    assert_eq!(m.leave(17, 0).err(), Some(ManagerError::BadPlayerId));
}

/// Snapshots respect the phase: no trick can be seen while bidding, and
/// no completed trick exists right after the deal.
#[test]
fn snapshot_phase_errors() {
    let mut p = Party::new(PlayerPos::P0);
    assert_eq!(p.trick().err(), Some(ManagerError::PlayInAuction));
    assert_eq!(p.last_trick().err(), Some(ManagerError::PlayInAuction));
    assert!(p.bid(PlayerPos::P0, Suit::Heart, Target::Contract80).is_ok());
    assert!(p.pass(PlayerPos::P1).is_ok());
    assert!(p.pass(PlayerPos::P2).is_ok());
    assert!(p.pass(PlayerPos::P3).is_ok());
    // Play has begun: the open trick is visible, no trick is complete.
    assert!(p.trick().is_ok());
    assert_eq!(
        p.last_trick().err(),
        Some(ManagerError::Play(PlayError::NoLastTrick))
    );
    assert_eq!(p.scores(), [0, 0]);
    // The log holds the deal, four auction actions and the contract;
    // a waiter at its tip is told it is its own turn.
    assert_eq!(p.event_count(), 6);
    match p.wait(PlayerPos::P0, 6, 9).unwrap() {
        PartyWait::Ready(ev) => {
            assert!(matches!(ev.event, EventType::YourTurn));
            assert_eq!(ev.id, 5);
        }
        PartyWait::Waiting => panic!("the acting seat should not block"),
    }
}

/// Orders bundle any action; applying them drives the same table ops.
#[test]
fn orders_drive_the_table() {
    let mut p = Party::new(PlayerPos::P0);
    let ev = p
        .apply(Order {
            author: PlayerPos::P0,
            action: Action::Bid(Contract {
                trump: Suit::Heart,
                author: PlayerPos::P0,
                target: Target::Contract80,
                coinche_level: 0,
            }),
        })
        .unwrap();
    assert_eq!(ev.id, 1);
    assert!(matches!(
        ev.event,
        EventType::FromPlayer {
            pos: PlayerPos::P0,
            event: PlayerEvent::Bidded(Suit::Heart, Target::Contract80)
        }
    ));
    assert!(p
        .apply(Order { author: PlayerPos::P1, action: Action::Pass })
        .is_ok());
    // Out of turn through an order as well.
    assert_eq!(
        p.apply(Order { author: PlayerPos::P1, action: Action::Pass })
            .err(),
        Some(ManagerError::Bid(coinched::bid::BidError::TurnError))
    );
    assert_eq!(ManagerError::BadPlayerId.message(), "player not found");
    assert_eq!(ManagerError::BadEventId.message(), "event not found");
}

/// The legality check alone, without playing.
#[test]
fn can_play_checks_rules() {
    let contract = Contract {
        trump: Suit::Heart,
        author: PlayerPos::P0,
        target: Target::Contract80,
        coinche_level: 0,
    };
    let mut g = new_game(PlayerPos::P0, made_contract_hands(), contract);
    // The leader may play anything it holds.
    assert!(g.can_play(PlayerPos::P0, make_card(Suit::Club, Rank::Ra)).is_ok());
    assert_eq!(
        g.can_play(PlayerPos::P0, make_card(Suit::Club, Rank::Rx)).err(),
        Some(PlayError::CardMissing)
    );
    play(&mut g, PlayerPos::P0, Suit::Club, Rank::Ra);
    // P1 holds clubs, so it must follow.
    assert_eq!(
        g.can_play(PlayerPos::P1, make_card(Suit::Diamond, Rank::Ra)).err(),
        Some(PlayError::IncorrectSuit)
    );
    assert!(g.can_play(PlayerPos::P1, make_card(Suit::Club, Rank::R8)).is_ok());
}

/// The manager's snapshots reflect the table through its phases.
#[test]
fn manager_snapshots() {
    let mut m = GameManager::new();
    let mut ids = [0u32; 4];
    for _ in 0..3 {
        assert!(matches!(m.join(0), JoinResult::Waiting(_)));
    }
    match m.join(0) {
        JoinResult::Ready(info) => ids[3] = info.player_id,
        _ => panic!("fourth joiner should be seated"),
    }
    for (k, (_t, info)) in m.take_join_outbox().iter().enumerate() {
        ids[k] = info.player_id;
    }
    for k in 0..4 {
        assert_eq!(
            m.see_pos(ids[k], 0).unwrap(),
            PlayerPos::from_n(k)
        );
        assert_eq!(m.see_hand(ids[k], 0).unwrap().size(), 8);
        assert_eq!(
            m.see_trick(ids[k], 0).err(),
            Some(ManagerError::PlayInAuction)
        );
    }
    // Through the auction into play.
    assert!(m
        .bid(
            ids[0],
            coinched::manager::ContractBody { target: Target::Contract80, suit: Suit::Club },
            0
        )
        .is_ok());
    assert!(m.pass(ids[1], 0).is_ok());
    assert!(m.pass(ids[2], 0).is_ok());
    assert!(m.pass(ids[3], 0).is_ok());
    let t = m.see_trick(ids[0], 0).unwrap();
    assert_eq!(t.first, PlayerPos::P0);
    assert!(t.cards.iter().all(|c| c.is_none()));
    assert_eq!(
        m.see_last_trick(ids[0], 0).err(),
        Some(ManagerError::Play(PlayError::NoLastTrick))
    );
    assert_eq!(m.see_scores(ids[0], 0).unwrap(), [0, 0]);
}

/// A joiner that withdraws no longer counts towards a table and is
/// never seated.
#[test]
fn cancelled_joiner_is_skipped() {
    let mut m = GameManager::new();
    let t1 = match m.join(0) {
        JoinResult::Waiting(t) => t,
        _ => panic!("first joiner should queue"),
    };
    assert!(matches!(m.join(0), JoinResult::Waiting(_)));
    m.cancel_join(t1);
    // Only one queued joiner remains, so three more are needed before a
    // fourth caller completes a table.
    assert!(matches!(m.join(0), JoinResult::Waiting(_)));
    assert!(matches!(m.join(0), JoinResult::Waiting(_)));
    match m.join(0) {
        JoinResult::Ready(info) => {
            assert_eq!(info.player_pos, PlayerPos::P3);
        }
        JoinResult::Waiting(_) => panic!("fourth live joiner should be seated"),
    }
    // The withdrawn token was not seated.
    for (token, _info) in m.take_join_outbox() {
        assert_ne!(token, t1);
    }
}

//! The client driver's decisions.
//!
//! A client loops on events from the server and drives a frontend.  The
//! decision of what to do with each event is pure and verified here; the
//! loop itself, the transport and the frontend live outside the library.

use vstd::prelude::*;
use crate::bid::{Contract, Target};
use crate::cards::{Card, Suit};
use crate::event::{CancelMsg, EventType, PlayerEvent};
use crate::pos::{PlayerPos, Team};

verus! {

/// What a frontend answers when asked to act during the auction.
#[derive(Clone, Copy, Debug, PartialEq, Eq, Structural)]
pub enum AuctionAction {
    /// Leave the table.
    Leave,
    /// Pass.
    Pass,
    /// Coinche the standing contract.
    Coinche,
    /// Offer a contract.
    Bid {
        /// The offered trump suit.
        trump: Suit,
        /// The offered target.
        target: Target,
    },
}

/// What a frontend answers when asked to act during card play.
#[derive(Clone, Copy, Debug, PartialEq, Eq, Structural)]
pub enum GameAction {
    /// Leave the table.
    Leave,
    /// Put down a card.
    PlayCard {
        /// The card to play.
        card: Card,
    },
}

/// What the driver must do with an event that arrives while the auction
/// runs.
#[derive(Clone, Copy, Debug)]
pub enum AuctionStep {
    /// Ask the frontend for the player's own action.
    AskAction,
    /// Show another seat's bid.
    ShowBid(PlayerPos, Suit, Target),
    /// Show another seat's pass.
    ShowPass(PlayerPos),
    /// Show another seat's coinche.
    ShowCoinche(PlayerPos),
    /// The deal was cancelled; a fresh deal follows.
    AuctionCancelled,
    /// The auction closed on this contract; card play begins.
    AuctionOver(Contract),
    /// The table is gone; stop.
    PartyEnded(CancelMsg),
    /// An event that has no place in this phase; ignore it.
    Unexpected,
}

/// What the driver must do with an event that arrives during card play.
#[derive(Clone, Copy, Debug)]
pub enum GameStep {
    /// Ask the frontend for the player's own card.
    AskCard,
    /// Show another seat's card.
    ShowCard(PlayerPos, Card),
    /// Show the closed trick's winner.
    ShowTrickOver(PlayerPos),
    /// The deal ended with these points, winners and scores.
    Finished([i32; 2], Team, [i32; 2]),
    /// The table is gone; stop.
    PartyEnded(CancelMsg),
    /// An event that has no place in this phase; ignore it.
    Unexpected,
}

/// The auction-phase decision, as a spec value.
pub open spec fn auction_step_spec(e: EventType) -> AuctionStep {
    match e {
        EventType::YourTurn => AuctionStep::AskAction,
        EventType::FromPlayer { pos, event } => match event {
            PlayerEvent::Bidded(suit, target) => AuctionStep::ShowBid(pos, suit, target),
            PlayerEvent::Passed => AuctionStep::ShowPass(pos),
            PlayerEvent::Coinched => AuctionStep::ShowCoinche(pos),
            PlayerEvent::CardPlayed(_) => AuctionStep::Unexpected,
        },
        EventType::BidCancelled => AuctionStep::AuctionCancelled,
        EventType::BidOver { contract } => AuctionStep::AuctionOver(contract),
        EventType::PartyCancelled { msg } => AuctionStep::PartyEnded(msg),
        _ => AuctionStep::Unexpected,
    }
}

/// Decides what to do with an event while the auction runs.
pub fn auction_step(e: &EventType) -> (r: AuctionStep)
    ensures
        r == auction_step_spec(*e),
{
    match *e {
        EventType::YourTurn => AuctionStep::AskAction,
        EventType::FromPlayer { pos, event } => match event {
            PlayerEvent::Bidded(suit, target) => AuctionStep::ShowBid(pos, suit, target),
            PlayerEvent::Passed => AuctionStep::ShowPass(pos),
            PlayerEvent::Coinched => AuctionStep::ShowCoinche(pos),
            PlayerEvent::CardPlayed(_) => AuctionStep::Unexpected,
        },
        EventType::BidCancelled => AuctionStep::AuctionCancelled,
        EventType::BidOver { contract } => AuctionStep::AuctionOver(contract),
        EventType::PartyCancelled { msg } => AuctionStep::PartyEnded(msg),
        _ => AuctionStep::Unexpected,
    }
}

/// The card-play decision, as a spec value.
pub open spec fn game_step_spec(e: EventType) -> GameStep {
    match e {
        EventType::YourTurn => GameStep::AskCard,
        EventType::FromPlayer { pos, event } => match event {
            PlayerEvent::CardPlayed(card) => GameStep::ShowCard(pos, card),
            _ => GameStep::Unexpected,
        },
        EventType::TrickOver { winner } => GameStep::ShowTrickOver(winner),
        EventType::GameOver { points, winner, scores } => GameStep::Finished(
            points,
            winner,
            scores,
        ),
        EventType::PartyCancelled { msg } => GameStep::PartyEnded(msg),
        _ => GameStep::Unexpected,
    }
}

/// Decides what to do with an event during card play.
pub fn game_step(e: &EventType) -> (r: GameStep)
    ensures
        r == game_step_spec(*e),
{
    match *e {
        EventType::YourTurn => GameStep::AskCard,
        EventType::FromPlayer { pos, event } => match event {
            PlayerEvent::CardPlayed(card) => GameStep::ShowCard(pos, card),
            _ => GameStep::Unexpected,
        },
        EventType::TrickOver { winner } => GameStep::ShowTrickOver(winner),
        EventType::GameOver { points, winner, scores } => GameStep::Finished(
            points,
            winner,
            scores,
        ),
        EventType::PartyCancelled { msg } => GameStep::PartyEnded(msg),
        _ => GameStep::Unexpected,
    }
}

} // verus!

//! Events of a table's append-only log, and their per-seat projection.

use vstd::prelude::*;
use crate::bid::{Contract, Target};
use crate::cards::{Card, Hand, Suit};
use crate::pos::{PlayerPos, Team};

verus! {

/// An action a seat took, as reported in the log.
#[derive(Clone, Copy, Debug, PartialEq, Eq, Structural)]
pub enum PlayerEvent {
    /// The seat offered a contract.
    Bidded(Suit, Target),
    /// The seat coinched the standing contract.
    Coinched,
    /// The seat passed.
    Passed,
    /// The seat put down a card.
    CardPlayed(Card),
}

/// Why a table was cancelled; the transport renders it as a message.
#[derive(Clone, Copy, Debug, PartialEq, Eq, Structural)]
pub enum CancelMsg {
    /// The seat left the table.
    PlayerLeft(PlayerPos),
    /// The seat sat idle past the inactivity threshold.
    PlayerIdle(PlayerPos),
    /// The server is closing the table.
    Shutdown,
}

/// Something that happened at a table.
#[derive(Clone, Copy, Debug)]
#[allow(inconsistent_fields)]
pub enum EventType {
    /// The server expects the receiving seat to act; synthesized by the
    /// wait path, never stored in the log.
    YourTurn,
    /// The table is closed for good.
    PartyCancelled {
        /// Why it closed.
        msg: CancelMsg,
    },
    /// A seat acted.
    FromPlayer {
        /// The acting seat.
        pos: PlayerPos,
        /// What it did.
        event: PlayerEvent,
    },
    /// The auction ended on this contract.
    BidOver {
        /// The contract to be played.
        contract: Contract,
    },
    /// The auction ended with four opening passes; a new deal follows.
    BidCancelled,
    /// A trick closed.
    TrickOver {
        /// The seat that took the trick.
        winner: PlayerPos,
    },
    /// A fresh deal, with every hand; internal only, always relativized
    /// before it is handed out.
    NewGame {
        /// The seat leading the first trick.
        first: PlayerPos,
        /// All four dealt hands, by seat.
        hands: [Hand; 4],
    },
    /// A fresh deal as one seat sees it.
    NewGameRelative {
        /// The seat leading the first trick.
        first: PlayerPos,
        /// The receiving seat's own hand.
        hand: Hand,
    },
    /// The deal ended and was scored.
    GameOver {
        /// Trick points taken by each team, last-trick bonus included.
        points: [i32; 2],
        /// The team that won the deal.
        winner: Team,
        /// Game score awarded to each team under the contract.
        scores: [i32; 2],
    },
}

impl EventType {
    /// The event as seen from one seat: a fresh deal shows only that
    /// seat's hand; everything else passes through unchanged.
    pub open spec fn relativize_spec(self, from: PlayerPos) -> EventType {
        match self {
            EventType::NewGame { first, hands } => EventType::NewGameRelative {
                first,
                hand: hands[from.idx()],
            },
            _ => self,
        }
    }

    /// Projects the event for the given seat.
    pub fn relativize(&self, from: PlayerPos) -> (r: EventType)
        ensures
            r == self.relativize_spec(from),
    {
        match *self {
            EventType::NewGame { first, hands } => EventType::NewGameRelative {
                first,
                hand: hands[from.index()],
            },
            _ => *self,
        }
    }
}

/// Seats see the same log: relativization only rewrites a fresh deal,
/// where each seat receives exactly its own hand; every other event is
/// identical for all viewers.
pub proof fn lemma_relativize_uniform(e: EventType, a: PlayerPos, b: PlayerPos)
    ensures
        !(e is NewGame) ==> e.relativize_spec(a) == e && e.relativize_spec(a)
            == e.relativize_spec(b),
        e is NewGame ==> e.relativize_spec(a) == (EventType::NewGameRelative {
            first: e->NewGame_first,
            hand: e->NewGame_hands[a.idx()],
        }),
{
}

/// A log entry: the event and its position in the log.
#[derive(Clone, Copy, Debug)]
pub struct Event {
    /// What happened.
    pub event: EventType,
    /// Its position in the table's log.
    pub id: usize,
}

} // verus!

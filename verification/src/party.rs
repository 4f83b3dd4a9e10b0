//! One table: the running game, the append-only event log, and the
//! waiters to wake when an event is appended.
//!
//! A `Party` is pure state; whoever owns it (behind a lock) calls the
//! operations here, sends out the `(waiter, event)` pairs left in the
//! outbox, and blocks callers that the wait operation registered.

use vstd::prelude::*;
use crate::bid::{Auction, AuctionState, BidError, Contract, Target};
use crate::cards::{Card, Hand, Suit};
use crate::event::{CancelMsg, Event, EventType, PlayerEvent};
use crate::game::{GameResult, GameState, PlayError, TrickResult};
use crate::pos::PlayerPos;
use crate::trick::Trick;

verus! {

/// Why a table operation was rejected.
#[derive(Clone, Copy, Debug, PartialEq, Eq, Structural)]
pub enum ManagerError {
    /// No live player has that id.
    BadPlayerId,
    /// The requested event id is past the tip of the log.
    BadEventId,
    /// Cards cannot be played during the auction.
    PlayInAuction,
    /// Bids cannot be made during card play.
    BidInGame,
    /// The auction refused the action.
    Bid(BidError),
    /// The card-play rules refused the action.
    Play(PlayError),
}

impl ManagerError {
    /// A short description of the error.
    pub fn message(&self) -> (m: &'static str) {
        match *self {
            ManagerError::BadPlayerId => "player not found",
            ManagerError::BadEventId => "event not found",
            ManagerError::PlayInAuction => "cannot play during auction",
            ManagerError::BidInGame => "cannot bid during card play",
            ManagerError::Bid(_) => "invalid bid",
            ManagerError::Play(_) => "invalid card play",
        }
    }
}

impl core::convert::From<BidError> for ManagerError {
    fn from(e: BidError) -> (r: ManagerError) {
        ManagerError::Bid(e)
    }
}

impl vstd::std_specs::convert::FromSpecImpl<BidError> for ManagerError {
    open spec fn obeys_from_spec() -> bool {
        true
    }

    open spec fn from_spec(e: BidError) -> ManagerError {
        ManagerError::Bid(e)
    }
}

impl core::convert::From<PlayError> for ManagerError {
    fn from(e: PlayError) -> (r: ManagerError) {
        ManagerError::Play(e)
    }
}

impl vstd::std_specs::convert::FromSpecImpl<PlayError> for ManagerError {
    open spec fn obeys_from_spec() -> bool {
        true
    }

    open spec fn from_spec(e: PlayError) -> ManagerError {
        ManagerError::Play(e)
    }
}

/// An action a seat can offer to its table.
#[derive(Clone, Copy, Debug, PartialEq, Eq, Structural)]
pub enum Action {
    /// Offer this contract.
    Bid(Contract),
    /// Coinche the standing contract.
    Coinche,
    /// Pass.
    Pass,
    /// Put down this card.
    Play(Card),
}

/// A seat's action, ready to apply to its table.
#[derive(Clone, Copy, Debug, PartialEq, Eq, Structural)]
pub struct Order {
    /// The acting seat.
    pub author: PlayerPos,
    /// What it wants to do.
    pub action: Action,
}

/// The log entry an action produces when it succeeds.
pub open spec fn action_event_spec(a: Action) -> PlayerEvent {
    match a {
        Action::Bid(c) => PlayerEvent::Bidded(c.trump, c.target),
        Action::Coinche => PlayerEvent::Coinched,
        Action::Pass => PlayerEvent::Passed,
        Action::Play(card) => PlayerEvent::CardPlayed(card),
    }
}

/// The phase a table is in: bidding for a contract, or playing it out.
pub enum Game {
    /// The auction runs.
    Bidding(Auction),
    /// The contract is being played.
    Playing(GameState),
}

impl Game {
    /// The seat expected to act next.
    pub open spec fn next_player_spec(&self) -> PlayerPos {
        match self {
            Game::Bidding(a) => a.next_player_spec(),
            Game::Playing(g) => g.next_player_spec(),
        }
    }

    /// The seat expected to act next.
    pub fn next_player(&self) -> (p: PlayerPos)
        ensures
            p == self.next_player_spec(),
    {
        match self {
            Game::Bidding(a) => a.next_player(),
            Game::Playing(g) => g.next_player(),
        }
    }
}

/// What a wait decided: an event to hand back now, or that the waiter
/// was registered and must block until an append wakes it.
#[derive(Clone, Copy, Debug)]
pub enum WaitResult {
    /// The event to return to the caller at once.
    Ready(Event),
    /// The caller blocks; its token is on the observer list.
    Waiting,
}

/// One table.
pub struct Party {
    game: Game,
    first: PlayerPos,
    scores: [i32; 2],
    events: Vec<EventType>,
    observers: Vec<(u64, PlayerPos)>,
    outbox: Vec<(u64, Event)>,
}

/// Saturating sum, capped at the largest i32.
pub open spec fn sat_add_i32(a: int, b: int) -> int {
    if a + b > i32::MAX {
        i32::MAX as int
    } else {
        a + b
    }
}

fn sat_add(a: i32, b: i32) -> (r: i32)
    requires
        0 <= a,
        0 <= b,
    ensures
        r == sat_add_i32(a as int, b as int),
{
    if a > i32::MAX - b {
        i32::MAX
    } else {
        a + b
    }
}

/// Every observer registered before the append receives exactly the
/// appended event, projected for its own seat: the pairs land in the
/// outbox in registration order, and the observer list is empty
/// afterwards.
pub open spec fn wakes_all_with(p0: Party, p1: Party, ev: Event) -> bool {
    &&& p1.outbox_spec() == p0.outbox_spec() + p0.observers_spec().map_values(
        |o: (u64, PlayerPos)| (o.0, Event { event: ev.event.relativize_spec(o.1), id: ev.id }),
    )
    &&& p1.observers_spec() == Seq::<(u64, PlayerPos)>::empty()
}

/// Append-only, in general: every mutating table operation ensures the
/// old log is a prefix of the new one, so nothing already appended ever
/// moves, and each id keeps naming the same event forever.
pub proof fn lemma_append_only(p0: Party, p1: Party, k: int)
    requires
        p0.events_spec().is_prefix_of(p1.events_spec()),
        0 <= k < p0.events_spec().len(),
    ensures
        p1.events_spec()[k] == p0.events_spec()[k],
{
    assert(p0.events_spec() =~= p1.events_spec().subrange(0, p0.events_spec().len() as int));
}

/// Wake-all, in general: whenever an append wakes the observers — every
/// mutating table operation ensures `wakes_all_with` on success — each
/// of the waiters registered beforehand is owed exactly the appended
/// event, projected for its own seat, in registration order, and the
/// observer list is left empty.
pub proof fn lemma_wake_all(p0: Party, p1: Party, ev: Event, k: int)
    requires
        wakes_all_with(p0, p1, ev),
        0 <= k < p0.observers_spec().len(),
    ensures
        p1.observers_spec().len() == 0,
        p1.outbox_spec().len() == p0.outbox_spec().len() + p0.observers_spec().len(),
        p1.outbox_spec()[p0.outbox_spec().len() + k].0 == p0.observers_spec()[k].0,
        p1.outbox_spec()[p0.outbox_spec().len() + k].1 == (Event {
            event: ev.event.relativize_spec(p0.observers_spec()[k].1),
            id: ev.id,
        }),
{
}

/// Long-poll ordering, in general: a waiter registered at the tip of
/// the log — as the wait operation ensures — is woken by the next
/// append with exactly the event at the id it asked for, never a later
/// one.
pub proof fn lemma_long_poll_ordering(
    p0: Party,
    p1: Party,
    p2: Party,
    pos: PlayerPos,
    token: u64,
    ev: Event,
)
    requires
        p1.observers_spec() == p0.observers_spec().push((token, pos)),
        p1.events_spec() == p0.events_spec(),
        wakes_all_with(p1, p2, ev),
        ev.id == p1.events_spec().len(),
    ensures
        p2.outbox_spec().len() > 0,
        p2.outbox_spec().last().0 == token,
        p2.outbox_spec().last().1.id == p0.events_spec().len(),
        p2.outbox_spec().last().1.event == ev.event.relativize_spec(pos),
{
    let obs = p1.observers_spec();
    assert(p2.outbox_spec()[p1.outbox_spec().len() + obs.len() - 1].0 == token);
}

/// A card game freshly opened from an auction: the frozen hands, the
/// agreed contract, an empty first trick, and the opening seat to act.
pub open spec fn game_opened(g: GameState, first: PlayerPos, contract: Contract, hands: [Hand; 4]) -> bool {
    &&& g.contract_spec() == contract
    &&& g.hands_spec() == hands
    &&& g.next_player_spec() == first
    &&& g.tricks_spec().len() == 1
    &&& g.tricks_spec()[0].first == first
    &&& forall|s: PlayerPos| crate::trick::slot(#[trigger] g.tricks_spec()[0], s) is None
    &&& g.scores_spec()[0] == 0 && g.scores_spec()[1] == 0
}

/// What a bid does to a table: the exact error taxonomy, and on success
/// the appended events and the game afterwards.
pub open spec fn bid_outcome(
    p0: Party,
    p1: Party,
    pos: PlayerPos,
    trump: Suit,
    target: Target,
    r: Result<Event, ManagerError>,
) -> bool {
    &&& (p0.game_spec() matches Game::Playing(_) ==> r == Err::<Event, ManagerError>(
        ManagerError::BidInGame,
    ))
    &&& (p0.game_spec() matches Game::Bidding(a) ==> {
        &&& (!(a.state_spec() is Bidding) ==> r == Err::<Event, ManagerError>(
            ManagerError::Bid(BidError::AuctionClosed),
        ))
        &&& (a.state_spec() is Bidding && pos != a.next_player_spec() ==> r == Err::<
            Event,
            ManagerError,
        >(ManagerError::Bid(BidError::TurnError)))
        &&& (a.state_spec() is Bidding && pos == a.next_player_spec()
            && (a.current_contract_spec() matches Some(c) && (target.score_spec()
            <= c.target.score_spec() || c.coinche_level != 0)) ==> r == Err::<
            Event,
            ManagerError,
        >(ManagerError::Bid(BidError::NonRaisedTarget)))
        &&& (a.state_spec() is Bidding && pos == a.next_player_spec()
            && (a.current_contract_spec() matches Some(c) ==> (target.score_spec()
            > c.target.score_spec() && c.coinche_level == 0)) ==> {
            let primary = EventType::FromPlayer {
                pos,
                event: PlayerEvent::Bidded(trump, target),
            };
            let ev = Event { event: primary, id: p0.events_spec().len() as usize };
            let offered = Contract { trump, author: pos, target, coinche_level: 0 };
            &&& r == Ok::<Event, ManagerError>(ev)
            &&& pos == p0.next_player_spec()
            &&& wakes_all_with(p0, p1, ev)
            &&& (if target is ContractCapot {
                &&& p1.events_spec() == p0.events_spec().push(primary).push(
                    EventType::BidOver { contract: offered },
                )
                &&& p1.game_spec() matches Game::Playing(g1) && game_opened(
                    g1,
                    a.first_spec(),
                    offered,
                    a.hands_spec(),
                )
            } else {
                &&& p1.events_spec() == p0.events_spec().push(primary)
                &&& p1.game_spec() matches Game::Bidding(a1) && {
                    &&& a1.state_spec() is Bidding
                    &&& a1.first_spec() == a.first_spec()
                    &&& a1.hands_spec() == a.hands_spec()
                    &&& a1.history_spec() == a.history_spec().push(offered)
                    &&& a1.pass_count_spec() == 0
                    &&& a1.next_player_spec() == PlayerPos::from_idx(pos.idx() + 1)
                }
            })
            &&& p1.first_spec() == p0.first_spec()
            &&& p1.scores_spec() == p0.scores_spec()
        })
    })
}

/// What a pass does to a table: the exact error taxonomy, and on
/// success the appended events and the game afterwards.
pub open spec fn pass_outcome(
    p0: Party,
    p1: Party,
    pos: PlayerPos,
    r: Result<Event, ManagerError>,
) -> bool {
    &&& (p0.game_spec() matches Game::Playing(_) ==> r == Err::<Event, ManagerError>(
        ManagerError::BidInGame,
    ))
    &&& (p0.game_spec() matches Game::Bidding(a) ==> {
        &&& (!(a.state_spec() is Bidding) ==> r == Err::<Event, ManagerError>(
            ManagerError::Bid(BidError::AuctionClosed),
        ))
        &&& (a.state_spec() is Bidding && pos != a.next_player_spec() ==> r == Err::<
            Event,
            ManagerError,
        >(ManagerError::Bid(BidError::TurnError)))
        &&& (a.state_spec() is Bidding && pos == a.next_player_spec() ==> {
            let primary = EventType::FromPlayer { pos, event: PlayerEvent::Passed };
            let ev = Event { event: primary, id: p0.events_spec().len() as usize };
            &&& r == Ok::<Event, ManagerError>(ev)
            &&& pos == p0.next_player_spec()
            &&& wakes_all_with(p0, p1, ev)
            &&& (if a.history_spec().len() == 0 && a.pass_count_spec() + 1 == 4 {
                // four opening passes: the deal is cancelled and redealt
                &&& p1.events_spec().len() == p0.events_spec().len() + 3
                &&& p1.events_spec()[ev.id as int] == primary
                &&& p1.events_spec()[ev.id + 1] is BidCancelled
                &&& p1.first_spec() == PlayerPos::from_idx(p0.first_spec().idx() + 1)
                &&& p1.game_spec() matches Game::Bidding(a2) && {
                    &&& a2.state_spec() is Bidding
                    &&& a2.first_spec() == p1.first_spec()
                    &&& a2.history_spec().len() == 0
                    &&& a2.pass_count_spec() == 0
                    &&& p1.events_spec().last() == (EventType::NewGame {
                        first: p1.first_spec(),
                        hands: a2.hands_spec(),
                    })
                }
            } else if a.history_spec().len() > 0 && a.pass_count_spec() + 1 == 3 {
                // the standing contract is settled; play begins
                &&& p1.events_spec() == p0.events_spec().push(primary).push(
                    EventType::BidOver { contract: a.current_contract_spec()->Some_0 },
                )
                &&& p1.game_spec() matches Game::Playing(g1) && game_opened(
                    g1,
                    a.first_spec(),
                    a.current_contract_spec()->Some_0,
                    a.hands_spec(),
                )
                &&& p1.first_spec() == p0.first_spec()
            } else {
                &&& p1.events_spec() == p0.events_spec().push(primary)
                &&& p1.game_spec() matches Game::Bidding(a1) && {
                    &&& a1.state_spec() is Bidding
                    &&& a1.first_spec() == a.first_spec()
                    &&& a1.hands_spec() == a.hands_spec()
                    &&& a1.history_spec() == a.history_spec()
                    &&& a1.pass_count_spec() == a.pass_count_spec() + 1
                    &&& a1.next_player_spec() == PlayerPos::from_idx(pos.idx() + 1)
                }
                &&& p1.first_spec() == p0.first_spec()
            })
            &&& p1.scores_spec() == p0.scores_spec()
        })
    })
}

/// What a coinche does to a table: the exact error taxonomy, and on
/// success the appended events and the game afterwards.
pub open spec fn coinche_outcome(
    p0: Party,
    p1: Party,
    pos: PlayerPos,
    r: Result<Event, ManagerError>,
) -> bool {
    &&& (p0.game_spec() matches Game::Playing(_) ==> r == Err::<Event, ManagerError>(
        ManagerError::BidInGame,
    ))
    &&& (p0.game_spec() matches Game::Bidding(a) ==> {
        &&& (!(a.state_spec() is Bidding) ==> r == Err::<Event, ManagerError>(
            ManagerError::Bid(BidError::AuctionClosed),
        ))
        &&& (a.state_spec() is Bidding && a.history_spec().len() == 0 ==> r == Err::<
            Event,
            ManagerError,
        >(ManagerError::Bid(BidError::NoContractToCoinche)))
        &&& (a.state_spec() is Bidding && (a.current_contract_spec() matches Some(c)
            && c.coinche_level >= 2) ==> r == Err::<Event, ManagerError>(
            ManagerError::Bid(BidError::AlreadyCoinched),
        ))
        &&& (a.state_spec() is Bidding && (a.current_contract_spec() matches Some(c)
            && (c.coinche_level == 0 && pos.team_spec() == c.author.team_spec()
            || c.coinche_level == 1 && pos.team_spec() != c.author.team_spec())) ==> r
            == Err::<Event, ManagerError>(ManagerError::Bid(BidError::TurnError)))
        &&& (a.state_spec() is Bidding && (a.current_contract_spec() matches Some(c)
            && (c.coinche_level == 0 && pos.team_spec() != c.author.team_spec()
            || c.coinche_level == 1 && pos.team_spec() == c.author.team_spec())) ==> {
            let primary = EventType::FromPlayer { pos, event: PlayerEvent::Coinched };
            let ev = Event { event: primary, id: p0.events_spec().len() as usize };
            let c = a.current_contract_spec()->Some_0;
            &&& r == Ok::<Event, ManagerError>(ev)
            &&& wakes_all_with(p0, p1, ev)
            &&& (if c.coinche_level == 1 {
                &&& p1.events_spec() == p0.events_spec().push(primary).push(
                    EventType::BidOver { contract: (Contract { coinche_level: 2, ..c }) },
                )
                &&& p1.game_spec() matches Game::Playing(g1) && game_opened(
                    g1,
                    a.first_spec(),
                    (Contract { coinche_level: 2, ..c }),
                    a.hands_spec(),
                )
            } else {
                &&& p1.events_spec() == p0.events_spec().push(primary)
                &&& p1.game_spec() matches Game::Bidding(a1) && {
                    &&& a1.state_spec() is Bidding
                    &&& a1.first_spec() == a.first_spec()
                    &&& a1.hands_spec() == a.hands_spec()
                    &&& a1.history_spec() == a.history_spec().update(
                        a.history_spec().len() - 1,
                        (Contract { coinche_level: 1, ..c }),
                    )
                    &&& a1.pass_count_spec() == 0
                    &&& a1.next_player_spec() == a.next_player_spec()
                }
            })
            &&& p1.first_spec() == p0.first_spec()
            &&& p1.scores_spec() == p0.scores_spec()
        })
    })
}

/// What a card play does to a table: the exact error taxonomy; on
/// success the logged events, tied case by case to the game's own play
/// relation, and when the deal ends, the settled pay-out, the
/// accumulation into the table's totals, and the rotated next deal.
pub open spec fn play_outcome(
    p0: Party,
    p1: Party,
    pos: PlayerPos,
    card: Card,
    r: Result<Event, ManagerError>,
) -> bool {
    &&& (p0.game_spec() matches Game::Bidding(_) ==> r == Err::<Event, ManagerError>(
        ManagerError::PlayInAuction,
    ))
    &&& (p0.game_spec() matches Game::Playing(g0) ==> {
        &&& (pos != g0.next_player_spec() ==> r == Err::<Event, ManagerError>(
            ManagerError::Play(PlayError::TurnError),
        ))
        &&& (pos == g0.next_player_spec() ==> (crate::game::play_check(
            g0.hands_spec()[pos.idx()],
            g0.tricks_spec().last(),
            g0.contract_spec(),
            pos,
            card,
        ) matches Some(e) ==> r == Err::<Event, ManagerError>(ManagerError::Play(e))))
        &&& (pos == g0.next_player_spec() && crate::game::play_check(
            g0.hands_spec()[pos.idx()],
            g0.tricks_spec().last(),
            g0.contract_spec(),
            pos,
            card,
        ) is None ==> {
            let primary = EventType::FromPlayer { pos, event: PlayerEvent::CardPlayed(card) };
            let ev = Event { event: primary, id: p0.events_spec().len() as usize };
            let n0 = p0.events_spec().len();
            let n1 = p1.events_spec().len();
            &&& r == Ok::<Event, ManagerError>(ev)
            &&& pos == p0.next_player_spec()
            &&& wakes_all_with(p0, p1, ev)
            &&& p1.events_spec()[ev.id as int] == primary
            // one event for a plain play, one more when the trick
            // closes, and three more when the deal ends and the next
            // one is dealt
            &&& (n1 == n0 + 1 || n1 == n0 + 2 || n1 == n0 + 4)
            // the logged tail mirrors the game's own play relation, so
            // the trick closes exactly when this play fills its fourth
            // slot, the deal settles exactly when the eighth trick
            // closes, and the logged winners and payload are the played
            // ones
            &&& (n1 == n0 + 1 ==> (p1.game_spec() matches Game::Playing(g1)
                && crate::game::play_success(
                g0,
                g1,
                pos,
                card,
                Ok::<TrickResult, PlayError>(TrickResult::Nothing),
            )))
            &&& (n1 == n0 + 2 ==> (p1.events_spec()[ev.id + 1] matches EventType::TrickOver {
                winner: w,
            } && (p1.game_spec() matches Game::Playing(g1) && crate::game::play_success(
                g0,
                g1,
                pos,
                card,
                Ok::<TrickResult, PlayError>(TrickResult::TrickOver(w, GameResult::Nothing)),
            ))))
            &&& (n1 == n0 + 4 ==> (p1.events_spec()[ev.id + 1] matches EventType::TrickOver {
                winner: w,
            } && (p1.events_spec()[ev.id + 2] matches EventType::GameOver {
                points,
                winner,
                scores,
            } && exists|g1: GameState|
                #[trigger] crate::game::play_success(
                    g0,
                    g1,
                    pos,
                    card,
                    Ok::<TrickResult, PlayError>(
                        TrickResult::TrickOver(
                            w,
                            (GameResult::GameOver { points, winners: winner, scores }),
                        ),
                    ),
                ))))
            &&& (n1 < n0 + 4 ==> p1.scores_spec() == p0.scores_spec() && p1.first_spec()
                == p0.first_spec())
            &&& (n1 == n0 + 4 ==> {
                let contract = g0.contract_spec();
                let mult = crate::game::multiplier(contract.coinche_level as int);
                // the deal is settled: trick points add up to 162,
                // exactly one team is paid, and the pay-out follows the
                // contract and its coinche factor
                &&& (p1.events_spec()[ev.id + 2] matches EventType::GameOver {
                    points,
                    winner,
                    scores,
                } && {
                    &&& points[0] + points[1] == 162
                    &&& scores[1 - winner.idx()] == 0
                    &&& scores[winner.idx()] == (if winner == contract.author.team_spec() {
                        contract.target.score_spec() * mult
                    } else {
                        2 * contract.target.score_spec() * mult
                    })
                    &&& p1.scores_spec()[0] == sat_add_i32(
                        p0.scores_spec()[0] as int,
                        scores[0] as int,
                    )
                    &&& p1.scores_spec()[1] == sat_add_i32(
                        p0.scores_spec()[1] as int,
                        scores[1] as int,
                    )
                })
                // the dealer rotates and the next deal is logged
                &&& p1.first_spec() == PlayerPos::from_idx(p0.first_spec().idx() + 1)
                &&& p1.game_spec() matches Game::Bidding(a2) && {
                    &&& a2.state_spec() is Bidding
                    &&& a2.first_spec() == p1.first_spec()
                    &&& a2.history_spec().len() == 0
                    &&& a2.pass_count_spec() == 0
                    &&& p1.events_spec().last() == (EventType::NewGame {
                        first: p1.first_spec(),
                        hands: a2.hands_spec(),
                    })
                }
            })
        })
    })
}

impl Party {
    /// Internal consistency of a table: a log opened by a deal, and a
    /// well-formed game.
    pub closed spec fn wf(self) -> bool {
        &&& self.events@.len() >= 1
        &&& self.events@[0] is NewGame
        &&& match self.game {
            Game::Bidding(a) => a.wf(),
            Game::Playing(g) => g.wf(),
        }
        &&& 0 <= self.scores[0]
        &&& 0 <= self.scores[1]
    }

    /// The full event log, internal deal events included.
    pub closed spec fn events_spec(self) -> Seq<EventType> {
        self.events@
    }

    /// The registered waiters, each with its seat, not yet woken.
    pub closed spec fn observers_spec(self) -> Seq<(u64, PlayerPos)> {
        self.observers@
    }

    /// The deliveries owed: each waiter with the event that woke it.
    pub closed spec fn outbox_spec(self) -> Seq<(u64, Event)> {
        self.outbox@
    }

    /// The running game.
    pub closed spec fn game_spec(self) -> Game {
        self.game
    }

    /// The seat that leads the current deal.
    pub closed spec fn first_spec(self) -> PlayerPos {
        self.first
    }

    /// The cumulative game scores of the two teams.
    pub closed spec fn scores_spec(self) -> [i32; 2] {
        self.scores
    }

    /// The seat expected to act next.
    pub open spec fn next_player_spec(self) -> PlayerPos {
        self.game_spec().next_player_spec()
    }

    /// Opens a table: deals, and logs the deal as the first event.
    pub fn new(first: PlayerPos) -> (p: Party)
        ensures
            p.wf(),
            p.first_spec() == first,
            p.scores_spec()[0] == 0 && p.scores_spec()[1] == 0,
            p.events_spec().len() == 1,
            p.observers_spec().len() == 0 && p.outbox_spec().len() == 0,
            p.game_spec() matches Game::Bidding(a) && {
                &&& a.first_spec() == first
                &&& a.state_spec() is Bidding
                &&& a.history_spec().len() == 0
                &&& a.pass_count_spec() == 0
                &&& a.next_player_spec() == first
                &&& p.events_spec()[0] == (EventType::NewGame {
                    first,
                    hands: a.hands_spec(),
                })
            },
            p.next_player_spec() == first,
    {
        let auction = Auction::new(first);
        let hands = auction.hands();
        let mut events: Vec<EventType> = Vec::new();
        events.push(EventType::NewGame { first, hands });
        Party {
            game: Game::Bidding(auction),
            first,
            scores: [0, 0],
            events,
            observers: Vec::new(),
            outbox: Vec::new(),
        }
    }

    /// How many events the log holds.
    pub fn event_count(&self) -> (n: usize)
        ensures
            n == self.events_spec().len(),
    {
        self.events.len()
    }

    /// Hands the owed deliveries out and empties the outbox.
    pub fn take_outbox(&mut self) -> (out: Vec<(u64, Event)>)
        ensures
            out@ == old(self).outbox_spec(),
            final(self).outbox_spec() == Seq::<(u64, Event)>::empty(),
            final(self).events_spec() == old(self).events_spec(),
            final(self).observers_spec() == old(self).observers_spec(),
            final(self).game_spec() == old(self).game_spec(),
            final(self).first_spec() == old(self).first_spec(),
            final(self).scores_spec() == old(self).scores_spec(),
            final(self).wf() == old(self).wf(),
    {
        let mut out: Vec<(u64, Event)> = Vec::new();
        core::mem::swap(&mut out, &mut self.outbox);
        out
    }

    /// Appends one event: stamps it with the next id — ids are the log
    /// positions, so they are dense, start at 0 and grow by exactly one
    /// per append, and nothing already appended moves — delivers it to
    /// every registered observer, and stores it.  Every public mutating
    /// operation restates this through its own `ensures`.
    fn add_event(&mut self, e: EventType) -> (ev: Event)
        ensures
            ev.id == old(self).events@.len(),
            ev.event == e,
            final(self).events@ == old(self).events@.push(e),
            wakes_all_with(*old(self), *final(self), ev),
            old(self).observers@.len() == 0 ==> final(self).outbox@ == old(self).outbox@,
            final(self).game == old(self).game,
            final(self).first == old(self).first,
            final(self).scores == old(self).scores,
    {
        let ev = Event { event: e, id: self.events.len() };
        let ghost obs0 = self.observers@;
        let ghost out0 = self.outbox@;
        let ghost ev0 = self.events@;
        let ghost game0 = self.game;
        let ghost first0 = self.first;
        let ghost scores0 = self.scores;
        let mut k: usize = 0;
        while k < self.observers.len()
            invariant
                k <= self.observers.len(),
                self.observers@ == obs0,
                self.events@ == ev0,
                self.game == game0,
                self.first == first0,
                self.scores == scores0,
                self.outbox@ == out0 + obs0.subrange(0, k as int).map_values(
                    |o: (u64, PlayerPos)| (
                        o.0,
                        Event { event: ev.event.relativize_spec(o.1), id: ev.id },
                    ),
                ),
            decreases self.observers.len() - k,
        {
            let (w, opos) = self.observers[k];
            self.outbox.push((w, Event { event: ev.event.relativize(opos), id: ev.id }));
            proof {
                let f = |o: (u64, PlayerPos)| (
                    o.0,
                    Event { event: ev.event.relativize_spec(o.1), id: ev.id },
                );
                assert(obs0.subrange(0, k + 1).map_values(f) =~= obs0.subrange(
                    0,
                    k as int,
                ).map_values(f).push(f(obs0[k as int])));
            }
            k = k + 1;
        }
        proof {
            assert(obs0.subrange(0, obs0.len() as int) =~= obs0);
            if obs0.len() == 0 {
                assert(out0 + obs0.map_values(
                    |o: (u64, PlayerPos)| (
                        o.0,
                        Event { event: ev.event.relativize_spec(o.1), id: ev.id },
                    ),
                ) =~= out0);
            }
        }
        self.observers = Vec::new();
        self.events.push(e);
        ev
    }

    /// Closes the table for good; the cancellation is delivered to every
    /// registered observer like any other event.
    pub fn cancel(&mut self, msg: CancelMsg) -> (ev: Event)
        requires
            old(self).wf(),
        ensures
            final(self).wf(),
            old(self).events_spec().is_prefix_of(final(self).events_spec()),
            final(self).events_spec() == old(self).events_spec().push(
                EventType::PartyCancelled { msg },
            ),
            ev.id == old(self).events_spec().len() && ev.event == (EventType::PartyCancelled {
                msg,
            }),
            wakes_all_with(*old(self), *final(self), ev),
            final(self).scores_spec() == old(self).scores_spec(),
    {
        let ev = self.add_event(EventType::PartyCancelled { msg });
        proof {
            assert(self.events@[0] == old(self).events@[0]);
        }
        ev
    }

    /// The given seat's hand as it stands.
    pub fn hand(&self, pos: PlayerPos) -> (h: Hand)
        ensures
            h == (match self.game_spec() {
                Game::Bidding(a) => a.hands_spec()[pos.idx()],
                Game::Playing(g) => g.hands_spec()[pos.idx()],
            }),
    {
        let hands = match &self.game {
            Game::Bidding(a) => a.hands(),
            Game::Playing(g) => g.hands(),
        };
        hands[pos.index()]
    }

    /// The trick being filled, during card play.
    pub fn trick(&self) -> (r: Result<Trick, ManagerError>)
        requires
            self.wf(),
        ensures
            self.game_spec() matches Game::Bidding(_) ==> r == Err::<Trick, ManagerError>(
                ManagerError::PlayInAuction,
            ),
            self.game_spec() matches Game::Playing(g) ==> r == Ok::<Trick, ManagerError>(
                g.tricks_spec().last(),
            ),
    {
        match &self.game {
            Game::Bidding(_) => Err(ManagerError::PlayInAuction),
            Game::Playing(g) => Ok(g.current_trick()),
        }
    }

    /// The last completed trick, during card play.
    pub fn last_trick(&self) -> (r: Result<Trick, ManagerError>)
        requires
            self.wf(),
        ensures
            self.game_spec() matches Game::Bidding(_) ==> r == Err::<Trick, ManagerError>(
                ManagerError::PlayInAuction,
            ),
            self.game_spec() matches Game::Playing(g) ==> {
                &&& g.tricks_spec().len() >= 2 ==> r == Ok::<Trick, ManagerError>(
                    g.tricks_spec()[g.tricks_spec().len() - 2],
                )
                &&& g.tricks_spec().len() < 2 ==> r == Err::<Trick, ManagerError>(
                    ManagerError::Play(PlayError::NoLastTrick),
                )
            },
    {
        match &self.game {
            Game::Bidding(_) => Err(ManagerError::PlayInAuction),
            Game::Playing(g) => match g.last_trick() {
                Ok(t) => Ok(t),
                Err(e) => Err(ManagerError::Play(e)),
            },
        }
    }

    /// The cumulative game scores of the two teams.
    pub fn scores(&self) -> (s: [i32; 2])
        ensures
            s == self.scores_spec(),
    {
        self.scores
    }

    /// The seat expected to act next.
    pub fn next_player(&self) -> (p: PlayerPos)
        ensures
            p == self.next_player_spec(),
    {
        self.game.next_player()
    }

    /// Installs the game of a finished auction and logs the contract.
    fn complete_auction(&mut self)
        requires
            old(self).wf(),
            old(self).observers_spec().len() == 0,
            old(self).game_spec() matches Game::Bidding(a) && a.state_spec() is Over,
        ensures
            final(self).wf(),
            old(self).game_spec() matches Game::Bidding(a) ==> {
                &&& final(self).events_spec() == old(self).events_spec().push(
                    EventType::BidOver { contract: a.current_contract_spec()->Some_0 },
                )
                &&& final(self).game_spec() matches Game::Playing(g) && game_opened(
                    g,
                    a.first_spec(),
                    a.current_contract_spec()->Some_0,
                    a.hands_spec(),
                )
            },
            final(self).observers_spec() == Seq::<(u64, PlayerPos)>::empty(),
            final(self).outbox_spec() == old(self).outbox_spec(),
            final(self).first_spec() == old(self).first_spec(),
            final(self).scores_spec() == old(self).scores_spec(),
    {
        let completed = match &self.game {
            Game::Bidding(a) => a.complete(),
            Game::Playing(_) => Err(BidError::AuctionRunning),
        };
        match completed {
            Ok(g) => {
                let contract = g.contract();
                self.add_event(EventType::BidOver { contract });
                self.game = Game::Playing(g);
                proof {
                    assert(self.events@[0] == old(self).events@[0]);
                    assert(self.observers@ =~= Seq::<(u64, PlayerPos)>::empty());
                    assert(self.outbox@ =~= old(self).outbox@);
                }
            },
            Err(_) => {
                proof {
                    assert(false);
                }
            },
        }
    }

    /// Rotates the dealer, deals afresh, and logs the new deal.
    fn next_game(&mut self)
        requires
            old(self).wf(),
            old(self).observers_spec().len() == 0,
        ensures
            final(self).wf(),
            final(self).first_spec() == PlayerPos::from_idx(old(self).first_spec().idx() + 1),
            final(self).events_spec().len() == old(self).events_spec().len() + 1,
            old(self).events_spec().is_prefix_of(final(self).events_spec()),
            final(self).game_spec() matches Game::Bidding(a) && {
                &&& a.first_spec() == final(self).first_spec()
                &&& a.state_spec() is Bidding
                &&& a.history_spec().len() == 0
                &&& a.pass_count_spec() == 0
                &&& a.next_player_spec() == final(self).first_spec()
                &&& final(self).events_spec().last() == (EventType::NewGame {
                    first: final(self).first_spec(),
                    hands: a.hands_spec(),
                })
            },
            final(self).observers_spec() == Seq::<(u64, PlayerPos)>::empty(),
            final(self).outbox_spec() == old(self).outbox_spec(),
            final(self).scores_spec() == old(self).scores_spec(),
    {
        let first = self.first.next();
        self.first = first;
        let auction = Auction::new(first);
        let hands = auction.hands();
        self.game = Game::Bidding(auction);
        self.add_event(EventType::NewGame { first, hands });
        proof {
            assert(self.events@[0] == old(self).events@[0]);
            assert(self.observers@ =~= Seq::<(u64, PlayerPos)>::empty());
            assert(self.outbox@ =~= old(self).outbox@);
            assert(old(self).events@.is_prefix_of(self.events@)) by {
                assert(self.events@.subrange(0, old(self).events@.len() as int)
                    =~= old(self).events@);
            }
        }
    }

    /// Offers a contract for the acting seat; on success the bid is
    /// logged and a capot bid also closes the auction at once.
    pub fn bid(&mut self, pos: PlayerPos, trump: Suit, target: Target) -> (r: Result<
        Event,
        ManagerError,
    >)
        requires
            old(self).wf(),
        ensures
            final(self).wf(),
            old(self).events_spec().is_prefix_of(final(self).events_spec()),
            r matches Err(_) ==> *final(self) == *old(self),
            r matches Ok(ev) ==> ev.id == old(self).events_spec().len() && pos == old(
                self,
            ).next_player_spec() && wakes_all_with(*old(self), *final(self), ev) && ev.event
                == (EventType::FromPlayer { pos, event: PlayerEvent::Bidded(trump, target) }),
            r matches Err(e) ==> e != ManagerError::BadPlayerId && e != ManagerError::BadEventId,
            bid_outcome(*old(self), *final(self), pos, trump, target, r),
    {
        let result = match &mut self.game {
            Game::Playing(_) => {
                return Err(ManagerError::BidInGame);
            },
            Game::Bidding(auction) => auction.bid(pos, trump, target),
        };
        let state = match result {
            Err(e) => {
                return Err(ManagerError::Bid(e));
            },
            Ok(st) => st,
        };
        let primary = self.add_event(
            EventType::FromPlayer { pos, event: PlayerEvent::Bidded(trump, target) },
        );
        if matches!(state, AuctionState::Over) {
            self.complete_auction();
        }
        proof {
            assert(self.events@[0] == old(self).events@[0]);
            assert(old(self).events@.is_prefix_of(self.events@)) by {
                assert(self.events@.subrange(0, old(self).events@.len() as int)
                    =~= old(self).events@);
            }
        }
        Ok(primary)
    }

    /// Passes for the acting seat; on success the pass is logged, a
    /// third pass over a contract closes the auction, and four opening
    /// passes cancel the deal and start the next one.
    pub fn pass(&mut self, pos: PlayerPos) -> (r: Result<Event, ManagerError>)
        requires
            old(self).wf(),
        ensures
            final(self).wf(),
            old(self).events_spec().is_prefix_of(final(self).events_spec()),
            r matches Err(_) ==> *final(self) == *old(self),
            r matches Ok(ev) ==> ev.id == old(self).events_spec().len() && pos == old(
                self,
            ).next_player_spec() && wakes_all_with(*old(self), *final(self), ev) && ev.event
                == (EventType::FromPlayer { pos, event: PlayerEvent::Passed }),
            r matches Err(e) ==> e != ManagerError::BadPlayerId && e != ManagerError::BadEventId,
            pass_outcome(*old(self), *final(self), pos, r),
    {
        let result = match &mut self.game {
            Game::Playing(_) => {
                return Err(ManagerError::BidInGame);
            },
            Game::Bidding(auction) => auction.pass(pos),
        };
        let state = match result {
            Err(e) => {
                return Err(ManagerError::Bid(e));
            },
            Ok(st) => st,
        };
        let primary = self.add_event(EventType::FromPlayer { pos, event: PlayerEvent::Passed });
        match state {
            AuctionState::Over => {
                self.complete_auction();
            },
            AuctionState::Cancelled => {
                self.add_event(EventType::BidCancelled);
                let ghost e2 = self.events@;
                self.next_game();
                proof {
                    assert(e2 == self.events@.subrange(0, e2.len() as int));
                    assert(self.events@[primary.id as int] == e2[primary.id as int]);
                    assert(self.events@[primary.id + 1] == e2[primary.id + 1]);
                }
            },
            AuctionState::Bidding => {},
        }
        proof {
            assert(self.events@[0] == old(self).events@[0]);
            assert(old(self).events@.is_prefix_of(self.events@)) by {
                assert(self.events@.subrange(0, old(self).events@.len() as int)
                    =~= old(self).events@);
            }
        }
        Ok(primary)
    }

    /// Coinches or redoubles the standing contract for the given seat;
    /// a redouble closes the auction at once.
    pub fn coinche(&mut self, pos: PlayerPos) -> (r: Result<Event, ManagerError>)
        requires
            old(self).wf(),
        ensures
            final(self).wf(),
            old(self).events_spec().is_prefix_of(final(self).events_spec()),
            r matches Err(_) ==> *final(self) == *old(self),
            r matches Ok(ev) ==> ev.id == old(self).events_spec().len() && wakes_all_with(
                *old(self),
                *final(self),
                ev,
            ) && ev.event == (EventType::FromPlayer { pos, event: PlayerEvent::Coinched }),
            r matches Err(e) ==> e != ManagerError::BadPlayerId && e != ManagerError::BadEventId,
            coinche_outcome(*old(self), *final(self), pos, r),
    {
        proof {
            match self.game_spec() {
                Game::Bidding(a) => {
                    a.lemma_well_formed();
                    if a.history_spec().len() > 0 {
                        assert(0 <= a.history_spec()[a.history_spec().len()
                            - 1].coinche_level <= 2);
                    }
                },
                Game::Playing(_) => {},
            }
        }
        let result = match &mut self.game {
            Game::Playing(_) => {
                return Err(ManagerError::BidInGame);
            },
            Game::Bidding(auction) => auction.coinche(pos),
        };
        let state = match result {
            Err(e) => {
                return Err(ManagerError::Bid(e));
            },
            Ok(st) => st,
        };
        let primary = self.add_event(
            EventType::FromPlayer { pos, event: PlayerEvent::Coinched },
        );
        if matches!(state, AuctionState::Over) {
            self.complete_auction();
        }
        proof {
            assert(self.events@[0] == old(self).events@[0]);
            assert(old(self).events@.is_prefix_of(self.events@)) by {
                assert(self.events@.subrange(0, old(self).events@.len() as int)
                    =~= old(self).events@);
            }
        }
        Ok(primary)
    }

    /// Plays a card for the acting seat; on success the play is logged,
    /// a closing trick logs its winner, and the eighth trick settles the
    /// deal, adds the game score to the table's totals, and starts the
    /// next deal.
    pub fn play_card(&mut self, pos: PlayerPos, card: Card) -> (r: Result<Event, ManagerError>)
        requires
            old(self).wf(),
        ensures
            final(self).wf(),
            old(self).events_spec().is_prefix_of(final(self).events_spec()),
            r matches Err(_) ==> *final(self) == *old(self),
            r matches Ok(ev) ==> ev.id == old(self).events_spec().len() && pos == old(
                self,
            ).next_player_spec() && wakes_all_with(*old(self), *final(self), ev) && ev.event
                == (EventType::FromPlayer { pos, event: PlayerEvent::CardPlayed(card) }),
            r matches Err(e) ==> e != ManagerError::BadPlayerId && e != ManagerError::BadEventId,
            play_outcome(*old(self), *final(self), pos, card, r),
    {
        let result = match &mut self.game {
            Game::Bidding(_) => {
                return Err(ManagerError::PlayInAuction);
            },
            Game::Playing(game) => game.play_card(pos, card),
        };
        let tr = match result {
            Err(e) => {
                return Err(ManagerError::Play(e));
            },
            Ok(tr) => tr,
        };
        let primary = self.add_event(
            EventType::FromPlayer { pos, event: PlayerEvent::CardPlayed(card) },
        );
        match tr {
            TrickResult::Nothing => {},
            TrickResult::TrickOver(winner, game_result) => {
                self.add_event(EventType::TrickOver { winner });
                match game_result {
                    GameResult::Nothing => {},
                    GameResult::GameOver { points, winners, scores } => {
                        proof {
                            reveal(crate::game::play_success);
                            // The play that ends the deal settled it:
                            // connect the logged payload to the game's
                            // accounting.
                            match old(self).game_spec() {
                                Game::Playing(gs0) => {
                                    match self.game_spec() {
                                        Game::Playing(gs1) => {
                                            crate::game::lemma_wf_tricks_bound(gs0);
                                            assert(gs1.tricks_spec().last()
                                                == gs1.tricks_spec()[gs0.tricks_spec().len()
                                                - 1]);
                                            crate::game::lemma_game_over_accounting(
                                                gs0.contract_spec(),
                                                gs1,
                                                winner,
                                                game_result,
                                            );
                                        },
                                        Game::Bidding(_) => {
                                            assert(false);
                                        },
                                    }
                                },
                                Game::Bidding(_) => {
                                    assert(false);
                                },
                            }
                        }
                        let s0 = sat_add(self.scores[0], scores[0]);
                        let s1 = sat_add(self.scores[1], scores[1]);
                        self.scores = [s0, s1];
                        self.add_event(
                            EventType::GameOver { points, winner: winners, scores },
                        );
                        let ghost e2 = self.events@;
                        self.next_game();
                        proof {
                            assert(e2 == self.events@.subrange(0, e2.len() as int));
                            assert(self.events@[primary.id as int] == e2[primary.id as int]);
                            assert(self.events@[primary.id + 1] == e2[primary.id + 1]);
                            assert(self.events@[primary.id + 2] == e2[primary.id + 2]);
                        }
                    },
                }
            },
        }
        proof {
            assert(self.events@[0] == old(self).events@[0]);
            assert(old(self).events@.is_prefix_of(self.events@)) by {
                assert(self.events@.subrange(0, old(self).events@.len() as int)
                    =~= old(self).events@);
            }
        }
        Ok(primary)
    }

    /// Applies one order to the table, whatever its kind: the acting
    /// seat's bid, coinche, pass or card play.
    pub fn apply(&mut self, order: Order) -> (r: Result<Event, ManagerError>)
        requires
            old(self).wf(),
        ensures
            final(self).wf(),
            old(self).events_spec().is_prefix_of(final(self).events_spec()),
            r matches Err(e) ==> *final(self) == *old(self) && e != ManagerError::BadPlayerId
                && e != ManagerError::BadEventId,
            r matches Ok(ev) ==> ev.id == old(self).events_spec().len() && wakes_all_with(
                *old(self),
                *final(self),
                ev,
            ) && ev.event == (EventType::FromPlayer {
                pos: order.author,
                event: action_event_spec(order.action),
            }),
            r matches Err(e) ==> e != ManagerError::BadPlayerId && e != ManagerError::BadEventId,
            order.action matches Action::Bid(c) ==> bid_outcome(
                *old(self),
                *final(self),
                order.author,
                c.trump,
                c.target,
                r,
            ),
            order.action is Pass ==> pass_outcome(*old(self), *final(self), order.author, r),
            order.action is Coinche ==> coinche_outcome(
                *old(self),
                *final(self),
                order.author,
                r,
            ),
            order.action matches Action::Play(card) ==> play_outcome(
                *old(self),
                *final(self),
                order.author,
                card,
                r,
            ),
    {
        match order.action {
            Action::Bid(c) => self.bid(order.author, c.trump, c.target),
            Action::Coinche => self.coinche(order.author),
            Action::Pass => self.pass(order.author),
            Action::Play(card) => self.play_card(order.author, card),
        }
    }

    /// Serves or registers a long poll: an already-appended event is
    /// returned relativized at once; at the tip of the log the caller
    /// either learns it is its own turn or is registered to be woken by
    /// the next append; past the tip the id is refused.
    pub fn wait(&mut self, pos: PlayerPos, event_id: usize, waiter: u64) -> (r: Result<
        WaitResult,
        ManagerError,
    >)
        requires
            old(self).wf(),
        ensures
            final(self).wf(),
            final(self).events_spec() == old(self).events_spec(),
            final(self).game_spec() == old(self).game_spec(),
            final(self).scores_spec() == old(self).scores_spec(),
            final(self).outbox_spec() == old(self).outbox_spec(),
            final(self).first_spec() == old(self).first_spec(),
            event_id < old(self).events_spec().len() ==> r == Ok::<WaitResult, ManagerError>(
                WaitResult::Ready(
                    Event {
                        event: old(self).events_spec()[event_id as int].relativize_spec(pos),
                        id: event_id,
                    },
                ),
            ) && final(self).observers_spec() == old(self).observers_spec(),
            event_id > old(self).events_spec().len() ==> r == Err::<WaitResult, ManagerError>(
                ManagerError::BadEventId,
            ) && final(self).observers_spec() == old(self).observers_spec(),
            event_id == old(self).events_spec().len() && pos == old(self).next_player_spec()
                ==> r == Ok::<WaitResult, ManagerError>(
                WaitResult::Ready(
                    Event { event: EventType::YourTurn, id: (event_id - 1) as usize },
                ),
            ) && final(self).observers_spec() == old(self).observers_spec(),
            event_id == old(self).events_spec().len() && pos != old(self).next_player_spec()
                ==> r == Ok::<WaitResult, ManagerError>(WaitResult::Waiting)
                && final(self).observers_spec() == old(self).observers_spec().push(
                (waiter, pos),
            ),
    {
        if event_id < self.events.len() {
            let e = self.events[event_id];
            return Ok(WaitResult::Ready(Event { event: e.relativize(pos), id: event_id }));
        }
        if event_id > self.events.len() {
            return Err(ManagerError::BadEventId);
        }
        if pos == self.game.next_player() {
            return Ok(WaitResult::Ready(Event { event: EventType::YourTurn, id: event_id - 1 }));
        }
        self.observers.push((waiter, pos));
        Ok(WaitResult::Waiting)
    }
}

} // verus!

//! The auction: bids, passes, doubling, and the resulting contract.

use vstd::prelude::*;
use crate::cards::{Hand, Suit};
use crate::deal::{deal_hands, hands_partition};
use crate::pos::PlayerPos;

verus! {

/// A bid level: the points the bidding team commits to take, or a capot,
/// the promise to take every trick.
#[derive(Clone, Copy, Debug, PartialEq, Eq, Structural, Hash)]
pub enum Target {
    Contract80,
    Contract90,
    Contract100,
    Contract110,
    Contract120,
    Contract130,
    Contract140,
    Contract150,
    Contract160,
    ContractCapot,
}

impl Target {
    /// The score a target is worth, with capot worth 250.
    pub open spec fn score_spec(self) -> int {
        match self {
            Target::Contract80 => 80,
            Target::Contract90 => 90,
            Target::Contract100 => 100,
            Target::Contract110 => 110,
            Target::Contract120 => 120,
            Target::Contract130 => 130,
            Target::Contract140 => 140,
            Target::Contract150 => 150,
            Target::Contract160 => 160,
            Target::ContractCapot => 250,
        }
    }

    /// Whether taking `score` points (and `capot`, every trick) fulfils
    /// the target.
    pub open spec fn victory_spec(self, score: int, capot: bool) -> bool {
        if self is ContractCapot {
            capot
        } else {
            score >= self.score_spec()
        }
    }

    /// Executable score of the target.
    pub fn score(&self) -> (s: i32)
        ensures
            s == self.score_spec(),
            80 <= s <= 250,
    {
        match *self {
            Target::Contract80 => 80,
            Target::Contract90 => 90,
            Target::Contract100 => 100,
            Target::Contract110 => 110,
            Target::Contract120 => 120,
            Target::Contract130 => 130,
            Target::Contract140 => 140,
            Target::Contract150 => 150,
            Target::Contract160 => 160,
            Target::ContractCapot => 250,
        }
    }

    /// Whether the taken points fulfil the target.
    pub fn victory(&self, score: i32, capot: bool) -> (b: bool)
        ensures
            b == self.victory_spec(score as int, capot),
    {
        match *self {
            Target::ContractCapot => capot,
            _ => score >= self.score(),
        }
    }
}

/// A contract: a trump suit and a target, authored by a seat, possibly
/// doubled (level 1) or redoubled (level 2).
#[derive(Clone, Copy, Debug, PartialEq, Eq, Structural)]
pub struct Contract {
    /// The trump suit the author chose.
    pub trump: Suit,
    /// The seat that bid the contract.
    pub author: PlayerPos,
    /// The committed target.
    pub target: Target,
    /// 0 plain, 1 coinched by an opponent, 2 redoubled by the authors.
    pub coinche_level: i32,
}

/// The phase the auction is in.
#[derive(Clone, Copy, Debug, PartialEq, Eq, Structural)]
pub enum AuctionState {
    /// Seats are still bidding.
    Bidding,
    /// A contract stands and play can start.
    Over,
    /// Four opening passes ended the deal without a contract.
    Cancelled,
}

/// Why a bid, pass or coinche was rejected.
#[derive(Clone, Copy, Debug, PartialEq, Eq, Structural)]
pub enum BidError {
    /// The auction already ended.
    AuctionClosed,
    /// The auction has not ended yet.
    AuctionRunning,
    /// It is another seat's turn.
    TurnError,
    /// The offered target does not beat the standing contract, or the
    /// standing contract is already coinched.
    NonRaisedTarget,
    /// There is no contract to coinche.
    NoContractToCoinche,
    /// The contract is already redoubled.
    AlreadyCoinched,
}

/// The auction for one deal: the dealt hands, the contracts offered so
/// far, and whose turn it is.
pub struct Auction {
    first: PlayerPos,
    current: PlayerPos,
    hands: [Hand; 4],
    history: Vec<Contract>,
    pass_count: usize,
    state: AuctionState,
}

impl Auction {
    /// Internal consistency of an auction value.  Constructors establish
    /// it and every operation preserves it.
    pub closed spec fn wf(self) -> bool {
        &&& self.pass_count <= 4
        &&& (self.state is Bidding ==> (if self.history@.len() == 0 {
            self.pass_count <= 3
        } else {
            self.pass_count <= 2
        }))
        &&& (self.state is Cancelled ==> self.history@.len() == 0)
        &&& (self.state is Over ==> self.history@.len() > 0)
        &&& forall|i: int, j: int|
            0 <= i < j < self.history@.len() ==> (#[trigger] self.history@[i]).target.score_spec()
                < (#[trigger] self.history@[j]).target.score_spec()
        &&& forall|i: int|
            0 <= i < self.history@.len() ==> 0 <= (#[trigger] self.history@[i]).coinche_level
                <= 2
        &&& hands_partition(self.hands)
    }

    /// The phase the auction is in.
    pub closed spec fn state_spec(self) -> AuctionState {
        self.state
    }

    /// The contracts offered so far, oldest first.
    pub closed spec fn history_spec(self) -> Seq<Contract> {
        self.history@
    }

    /// The four dealt hands, by seat.
    pub closed spec fn hands_spec(self) -> [Hand; 4] {
        self.hands
    }

    /// The seat that opened the auction.
    pub closed spec fn first_spec(self) -> PlayerPos {
        self.first
    }

    /// The seat expected to bid or pass next.
    pub closed spec fn next_player_spec(self) -> PlayerPos {
        self.current
    }

    /// How many passes in a row stand at the moment.
    pub closed spec fn pass_count_spec(self) -> int {
        self.pass_count as int
    }

    /// The standing contract, as a spec value.
    pub open spec fn current_contract_spec(self) -> Option<Contract> {
        if self.history_spec().len() == 0 {
            None
        } else {
            Some(self.history_spec().last())
        }
    }

    /// Deals four fresh hands and opens the auction at `first`.
    pub fn new(first: PlayerPos) -> (a: Auction)
        ensures
            a.state_spec() is Bidding,
            a.history_spec().len() == 0,
            a.first_spec() == first,
            a.next_player_spec() == first,
            a.pass_count_spec() == 0,
            hands_partition(a.hands_spec()),
            a.wf(),
    {
        Auction {
            first,
            current: first,
            hands: deal_hands(),
            history: Vec::new(),
            pass_count: 0,
            state: AuctionState::Bidding,
        }
    }

    /// In any reachable auction the offered targets rise strictly,
    /// oldest to newest.
    pub proof fn lemma_targets_monotone(&self, i: int, j: int)
        requires
            self.wf(),
            0 <= i < j < self.history_spec().len(),
        ensures
            self.history_spec()[i].target.score_spec()
                < self.history_spec()[j].target.score_spec(),
    {
    }

    /// In any reachable auction every recorded contract has a coinche
    /// level of 0, 1 or 2, and a closed state implies a matching history.
    pub proof fn lemma_well_formed(&self)
        requires
            self.wf(),
        ensures
            forall|i: int|
                0 <= i < self.history_spec().len() ==> 0 <= (#[trigger] self.history_spec()[i]).coinche_level <= 2,
            self.state_spec() is Cancelled ==> self.history_spec().len() == 0,
            self.state_spec() is Over ==> self.history_spec().len() > 0,
            hands_partition(self.hands_spec()),
    {
    }

    /// The dealt hands.
    pub fn hands(&self) -> (h: [Hand; 4])
        ensures
            h == self.hands_spec(),
    {
        self.hands
    }

    /// The seat expected to act next.
    pub fn next_player(&self) -> (p: PlayerPos)
        ensures
            p == self.next_player_spec(),
    {
        self.current
    }

    /// The phase the auction is in.
    pub fn state(&self) -> (s: AuctionState)
        ensures
            s == self.state_spec(),
    {
        self.state
    }

    /// The standing contract, if any.
    pub fn current_contract(&self) -> (c: Option<Contract>)
        ensures
            c == self.current_contract_spec(),
    {
        if self.history.len() == 0 {
            None
        } else {
            Some(self.history[self.history.len() - 1])
        }
    }

    /// Offers a contract: `pos` bids `target` with `trump` as trump.
    ///
    /// Only the seat whose turn it is may bid, only while the auction
    /// runs, and only above the standing contract; a coinched contract
    /// cannot be outbid.  A capot bid ends the auction at once.
    pub fn bid(&mut self, pos: PlayerPos, trump: Suit, target: Target) -> (r: Result<
        AuctionState,
        BidError,
    >)
        requires
            old(self).wf(),
        ensures
            final(self).wf(),
            !(old(self).state_spec() is Bidding) ==> r == Err::<AuctionState, BidError>(
                BidError::AuctionClosed,
            ) && *final(self) == *old(self),
            old(self).state_spec() is Bidding && pos != old(self).next_player_spec() ==> r
                == Err::<AuctionState, BidError>(BidError::TurnError) && *final(self) == *old(
                self,
            ),
            old(self).state_spec() is Bidding && pos == old(self).next_player_spec()
                && (old(self).current_contract_spec() matches Some(c) && (target.score_spec()
                <= c.target.score_spec() || c.coinche_level != 0)) ==> r == Err::<
                AuctionState,
                BidError,
            >(BidError::NonRaisedTarget) && *final(self) == *old(self),
            old(self).state_spec() is Bidding && pos == old(self).next_player_spec()
                && (old(self).current_contract_spec() matches Some(c) ==> (target.score_spec()
                > c.target.score_spec() && c.coinche_level == 0)) ==> {
                &&& final(self).history_spec() == old(self).history_spec().push(
                    Contract { trump, author: pos, target, coinche_level: 0 },
                )
                &&& final(self).state_spec() == (if target is ContractCapot {
                    AuctionState::Over
                } else {
                    AuctionState::Bidding
                })
                &&& final(self).next_player_spec() == PlayerPos::from_idx(pos.idx() + 1)
                &&& final(self).pass_count_spec() == 0
                &&& final(self).hands_spec() == old(self).hands_spec()
                &&& final(self).first_spec() == old(self).first_spec()
                &&& r == Ok::<AuctionState, BidError>(final(self).state_spec())
            },
    {
        if !matches!(self.state, AuctionState::Bidding) {
            return Err(BidError::AuctionClosed);
        }
        if pos != self.current {
            return Err(BidError::TurnError);
        }
        if self.history.len() > 0 {
            let last = self.history[self.history.len() - 1];
            if target.score() <= last.target.score() || last.coinche_level != 0 {
                return Err(BidError::NonRaisedTarget);
            }
        }
        self.history.push(Contract { trump, author: pos, target, coinche_level: 0 });
        self.pass_count = 0;
        self.current = pos.next();
        if matches!(target, Target::ContractCapot) {
            self.state = AuctionState::Over;
        }
        proof {
            let h0 = old(self).history@;
            let h = self.history@;
            assert forall|i: int, j: int|
                0 <= i < j < h.len() implies (#[trigger] h[i]).target.score_spec()
                < (#[trigger] h[j]).target.score_spec() by {
                if j == h.len() - 1 {
                    if i < h0.len() - 1 {
                        assert(h0[i].target.score_spec() < h0[h0.len() - 1].target.score_spec());
                    }
                } else {
                    assert(h[i] == h0[i] && h[j] == h0[j]);
                }
            }
        }
        Ok(self.state)
    }

    /// Passes: `pos` declines to bid.
    ///
    /// Four opening passes cancel the deal; three passes in a row after a
    /// contract close the auction on that contract.
    pub fn pass(&mut self, pos: PlayerPos) -> (r: Result<AuctionState, BidError>)
        requires
            old(self).wf(),
        ensures
            final(self).wf(),
            !(old(self).state_spec() is Bidding) ==> r == Err::<AuctionState, BidError>(
                BidError::AuctionClosed,
            ) && *final(self) == *old(self),
            old(self).state_spec() is Bidding && pos != old(self).next_player_spec() ==> r
                == Err::<AuctionState, BidError>(BidError::TurnError) && *final(self) == *old(
                self,
            ),
            old(self).state_spec() is Bidding && pos == old(self).next_player_spec() ==> {
                &&& final(self).pass_count_spec() == old(self).pass_count_spec() + 1
                &&& final(self).state_spec() == (if old(self).history_spec().len() == 0 {
                    if old(self).pass_count_spec() + 1 == 4 {
                        AuctionState::Cancelled
                    } else {
                        AuctionState::Bidding
                    }
                } else {
                    if old(self).pass_count_spec() + 1 == 3 {
                        AuctionState::Over
                    } else {
                        AuctionState::Bidding
                    }
                })
                &&& final(self).history_spec() == old(self).history_spec()
                &&& final(self).next_player_spec() == PlayerPos::from_idx(pos.idx() + 1)
                &&& final(self).hands_spec() == old(self).hands_spec()
                &&& final(self).first_spec() == old(self).first_spec()
                &&& r == Ok::<AuctionState, BidError>(final(self).state_spec())
            },
    {
        if !matches!(self.state, AuctionState::Bidding) {
            return Err(BidError::AuctionClosed);
        }
        if pos != self.current {
            return Err(BidError::TurnError);
        }
        self.pass_count = self.pass_count + 1;
        let limit: usize = if self.history.len() > 0 {
            3
        } else {
            4
        };
        if self.pass_count == limit {
            if self.history.len() == 0 {
                self.state = AuctionState::Cancelled;
            } else {
                self.state = AuctionState::Over;
            }
        }
        self.current = pos.next();
        Ok(self.state)
    }

    /// Coinches: a defender doubles the standing contract, or, once
    /// doubled, one of its authors redoubles it; redoubling ends the
    /// auction at once.
    pub fn coinche(&mut self, pos: PlayerPos) -> (r: Result<AuctionState, BidError>)
        requires
            old(self).wf(),
        ensures
            final(self).wf(),
            !(old(self).state_spec() is Bidding) ==> r == Err::<AuctionState, BidError>(
                BidError::AuctionClosed,
            ) && *final(self) == *old(self),
            old(self).state_spec() is Bidding && old(self).history_spec().len() == 0 ==> r
                == Err::<AuctionState, BidError>(BidError::NoContractToCoinche) && *final(self)
                == *old(self),
            old(self).state_spec() is Bidding && (old(self).current_contract_spec()
                matches Some(c) && c.coinche_level >= 2) ==> r == Err::<
                AuctionState,
                BidError,
            >(BidError::AlreadyCoinched) && *final(self) == *old(self),
            old(self).state_spec() is Bidding && (old(self).current_contract_spec()
                matches Some(c) && c.coinche_level == 0 && pos.team_spec()
                == c.author.team_spec()) ==> r == Err::<AuctionState, BidError>(
                BidError::TurnError,
            ) && *final(self) == *old(self),
            old(self).state_spec() is Bidding && (old(self).current_contract_spec()
                matches Some(c) && c.coinche_level == 1 && pos.team_spec()
                != c.author.team_spec()) ==> r == Err::<AuctionState, BidError>(
                BidError::TurnError,
            ) && *final(self) == *old(self),
            old(self).state_spec() is Bidding && (old(self).current_contract_spec()
                matches Some(c) && (c.coinche_level == 0 && pos.team_spec()
                != c.author.team_spec() || c.coinche_level == 1 && pos.team_spec()
                == c.author.team_spec())) ==> {
                &&& final(self).history_spec() == old(self).history_spec().update(
                    old(self).history_spec().len() - 1,
                    Contract {
                        coinche_level: (old(
                            self,
                        ).current_contract_spec()->Some_0.coinche_level + 1) as i32,
                        ..old(self).current_contract_spec()->Some_0
                    },
                )
                &&& final(self).state_spec() == (if old(
                    self,
                ).current_contract_spec()->Some_0.coinche_level + 1 == 2 {
                    AuctionState::Over
                } else {
                    AuctionState::Bidding
                })
                &&& final(self).pass_count_spec() == 0
                &&& final(self).next_player_spec() == old(self).next_player_spec()
                &&& final(self).hands_spec() == old(self).hands_spec()
                &&& final(self).first_spec() == old(self).first_spec()
                &&& r == Ok::<AuctionState, BidError>(final(self).state_spec())
            },
    {
        if !matches!(self.state, AuctionState::Bidding) {
            return Err(BidError::AuctionClosed);
        }
        if self.history.len() == 0 {
            return Err(BidError::NoContractToCoinche);
        }
        let i = self.history.len() - 1;
        let last = self.history[i];
        if last.coinche_level >= 2 {
            return Err(BidError::AlreadyCoinched);
        }
        let same_team = pos.is_partner(last.author);
        if last.coinche_level == 0 && same_team {
            return Err(BidError::TurnError);
        }
        if last.coinche_level == 1 && !same_team {
            return Err(BidError::TurnError);
        }
        let raised = Contract { coinche_level: last.coinche_level + 1, ..last };
        self.history[i] = raised;
        self.pass_count = 0;
        if raised.coinche_level == 2 {
            self.state = AuctionState::Over;
        }
        proof {
            assert(self.history@ =~= old(self).history@.update(
                old(self).history@.len() - 1,
                raised,
            ));
        }
        Ok(self.state)
    }
}

impl Auction {
    /// Closes a finished auction into a game: the frozen hands, the last
    /// contract, and the opening seat leading the first trick.
    pub fn complete(&self) -> (r: Result<crate::game::GameState, BidError>)
        requires
            self.wf(),
        ensures
            !(self.state_spec() is Over) ==> r == Err::<crate::game::GameState, BidError>(
                BidError::AuctionRunning,
            ),
            self.state_spec() is Over ==> (r matches Ok(g) && {
                &&& g.wf()
                &&& g.hands_spec() == self.hands_spec()
                &&& g.next_player_spec() == self.first_spec()
                &&& g.contract_spec() == self.current_contract_spec()->Some_0
                &&& g.tricks_spec().len() == 1
                &&& g.tricks_spec()[0].first == self.first_spec()
                &&& forall|p: PlayerPos| crate::trick::slot(#[trigger] g.tricks_spec()[0], p) is None
                &&& g.scores_spec()[0] == 0 && g.scores_spec()[1] == 0
            }),
    {
        if !matches!(self.state, AuctionState::Over) {
            return Err(BidError::AuctionRunning);
        }
        let contract = self.history[self.history.len() - 1];
        Ok(crate::game::new_game(self.first, self.hands, contract))
    }
}

/// Deals four fresh hands and opens an auction at `first`.
pub fn new_auction(first: PlayerPos) -> (a: Auction)
    ensures
        a.state_spec() is Bidding,
        a.history_spec().len() == 0,
        a.first_spec() == first,
        a.next_player_spec() == first,
        a.pass_count_spec() == 0,
        hands_partition(a.hands_spec()),
        a.wf(),
{
    Auction::new(first)
}

} // verus!

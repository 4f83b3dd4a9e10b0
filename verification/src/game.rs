//! Trick play, after the auction: card legality, trick resolution and
//! scoring.

use vstd::prelude::*;
use crate::bid::Contract;
use crate::cards::{Card, Hand, Suit};
use crate::deal::hands_partition;
use crate::points;
use crate::points::hand_pts;
use crate::pos::{PlayerPos, Team};
use crate::trick::{Trick, card_wins_over, empty_trick, slot, trick_complete, trick_points, wins_over};

verus! {

/// Why a card play was rejected.
#[derive(Clone, Copy, Debug, PartialEq, Eq, Structural)]
pub enum PlayError {
    /// It is another seat's turn.
    TurnError,
    /// The caller does not hold that card.
    CardMissing,
    /// The caller must follow the led suit.
    IncorrectSuit,
    /// The caller must cut with a trump instead of discarding.
    InvalidPiss,
    /// The caller must play a higher trump than the one standing.
    NonRaisedTrump,
    /// No trick has been completed yet.
    NoLastTrick,
}

/// How a completed game came out.
#[derive(Clone, Copy, Debug)]
pub enum GameResult {
    /// The deal is still running.
    Nothing,
    /// The deal ended with the eighth trick.
    GameOver {
        /// Trick points taken by each team, last-trick bonus included.
        points: [i32; 2],
        /// The team that won the deal.
        winners: Team,
        /// Game score awarded to each team under the contract.
        scores: [i32; 2],
    },
}

/// What a successful card play led to.
#[derive(Clone, Copy, Debug)]
pub enum TrickResult {
    /// The trick is still open.
    Nothing,
    /// The trick closed; the seat won it, and the game may have ended.
    TrickOver(PlayerPos, GameResult),
}

/// Clockwise distance walked from `f` to reach `s`, between 0 and 3.
pub open spec fn walk_dist(f: PlayerPos, s: PlayerPos) -> int {
    (s.idx() - f.idx()) % 4
}

/// Distance scanned by `f.until(p)`: seats from `f` up to `p` excluded,
/// except that `p == f` scans all four.
pub open spec fn dist_scan(f: PlayerPos, p: PlayerPos) -> int {
    (3 + p.idx() - f.idx()) % 4 + 1
}

/// An open trick holds exactly the cards of the seats already walked:
/// those from its leader up to `current`, the seat to act.
pub open spec fn in_play_structure(t: Trick, current: PlayerPos) -> bool {
    forall|s: PlayerPos|
        (#[trigger] slot(t, s)) is Some <==> walk_dist(t.first, s) < walk_dist(
            t.first,
            current,
        )
}

/// How many cards seat `p` has put down over `tricks`.
pub open spec fn played_in(tricks: Seq<Trick>, p: PlayerPos) -> int
    decreases tricks.len(),
{
    if tricks.len() == 0 {
        0
    } else {
        played_in(tricks.drop_last(), p) + if slot(tricks.last(), p) is Some {
            1int
        } else {
            0int
        }
    }
}

/// The strongest trump strength among the first `m` seats of the trick,
/// walked clockwise from its leader; -1 when none played a trump.
pub open spec fn highest_trump_upto(t: Trick, trump: Suit, m: int) -> int
    decreases m,
{
    if m <= 0 {
        -1
    } else {
        let prev = highest_trump_upto(t, trump, m - 1);
        let s = PlayerPos::from_idx(t.first.idx() + (m - 1));
        match slot(t, s) {
            Some(c) => if c.suit == trump && points::trump_strength_spec(c.rank) > prev {
                points::trump_strength_spec(c.rank)
            } else {
                prev
            },
            None => prev,
        }
    }
}

/// Whether the hand holds a card of the given suit.
pub open spec fn hand_has_suit(h: Hand, s: Suit) -> bool {
    exists|c: Card| h@.contains(c) && c.suit == s
}

/// Whether the hand holds a trump stronger than `st`.
pub open spec fn hand_has_higher_trump(h: Hand, trump: Suit, st: int) -> bool {
    exists|r: crate::cards::Rank|
        h@.contains(Card { suit: trump, rank: r }) && points::trump_strength_spec(r) > st
}

/// The rules' verdict on seat `p` playing `c` from `hand` into the open
/// trick `t`, turn order aside: the offending rule, or nothing when the
/// play is legal.
pub open spec fn play_check(hand: Hand, t: Trick, contract: Contract, p: PlayerPos, c: Card) -> Option<
    PlayError,
> {
    if !hand@.contains(c) {
        Some(PlayError::CardMissing)
    } else if p == t.first {
        None
    } else {
        match slot(t, t.first) {
            None => None,
            Some(lead_card) => {
                let lead = lead_card.suit;
                let trump = contract.trump;
                if c.suit != lead && hand_has_suit(hand, lead) {
                    Some(PlayError::IncorrectSuit)
                } else if c.suit != lead && c.suit != trump && p.team_spec()
                    != t.winner.team_spec() && hand_has_suit(hand, trump) {
                    Some(PlayError::InvalidPiss)
                } else if c.suit == trump && points::trump_strength_spec(c.rank)
                    < highest_trump_upto(t, trump, dist_scan(t.first, p))
                    && hand_has_higher_trump(
                    hand,
                    trump,
                    highest_trump_upto(t, trump, dist_scan(t.first, p)),
                ) {
                    Some(PlayError::NonRaisedTrump)
                } else {
                    None
                }
            },
        }
    }
}

/// The state of one deal being played out.
pub struct GameState {
    hands: [Hand; 4],
    current: PlayerPos,
    contract: Contract,
    tricks: Vec<Trick>,
    scores: [i32; 2],
}

impl GameState {
    /// Internal consistency of a game value.  `new_game` establishes it
    /// and `play_card` preserves it: past tricks are complete, the open
    /// trick holds the cards of the seats already walked, every seat's
    /// hand shrinks by one per card played, and the 152 deck points are
    /// split between the two teams' trick scores and the cards still in
    /// play.
    pub closed spec fn wf(self) -> bool {
        let tricks = self.tricks@;
        let last = tricks.last();
        &&& 1 <= tricks.len() <= 8
        &&& 0 <= self.contract.coinche_level <= 2
        &&& forall|k: int| 0 <= k < tricks.len() - 1 ==> trick_complete(#[trigger] tricks[k])
        &&& 0 <= self.scores[0] <= 152
        &&& 0 <= self.scores[1] <= 152
        &&& forall|p: PlayerPos|
            self.hands[p.idx()].size_spec() + #[trigger] played_in(tricks, p) == 8
        &&& if trick_complete(last) {
            &&& tricks.len() == 8
            &&& self.scores[0] + self.scores[1] == 152
        } else {
            &&& in_play_structure(last, self.current)
            &&& (walk_dist(last.first, self.current) > 0 ==> slot(last, last.winner) is Some)
            &&& self.scores[0] + self.scores[1] + hand_pts(self.hands[0], self.contract.trump)
                + hand_pts(self.hands[1], self.contract.trump) + hand_pts(
                self.hands[2],
                self.contract.trump,
            ) + hand_pts(self.hands[3], self.contract.trump) + trick_points(
                last,
                self.contract.trump,
            ) == 152
        }
    }

    /// The four hands as they stand, by seat.
    pub closed spec fn hands_spec(self) -> [Hand; 4] {
        self.hands
    }

    /// The seat expected to play next.
    pub closed spec fn next_player_spec(self) -> PlayerPos {
        self.current
    }

    /// The contract being played.
    pub closed spec fn contract_spec(self) -> Contract {
        self.contract
    }

    /// All tricks so far, the open one last.
    pub closed spec fn tricks_spec(self) -> Seq<Trick> {
        self.tricks@
    }

    /// Trick points taken so far by each team.
    pub closed spec fn scores_spec(self) -> [i32; 2] {
        self.scores
    }

    /// Trick points taken so far by each team.
    pub fn scores(&self) -> (s: [i32; 2])
        ensures
            s == self.scores_spec(),
    {
        self.scores
    }

    /// The four hands as they stand.
    pub fn hands(&self) -> (h: [Hand; 4])
        ensures
            h == self.hands_spec(),
    {
        self.hands
    }

    /// The seat expected to play next.
    pub fn next_player(&self) -> (p: PlayerPos)
        ensures
            p == self.next_player_spec(),
    {
        self.current
    }

    /// The contract being played.
    pub fn contract(&self) -> (c: Contract)
        ensures
            c == self.contract_spec(),
    {
        self.contract
    }

    /// The trick being filled at the moment.
    pub fn current_trick(&self) -> (t: Trick)
        requires
            self.wf(),
        ensures
            t == self.tricks_spec().last(),
    {
        self.tricks[self.tricks.len() - 1]
    }

    /// The last completed trick, or `NoLastTrick` before the first one
    /// closes.
    pub fn last_trick(&self) -> (r: Result<Trick, PlayError>)
        requires
            self.wf(),
        ensures
            self.tricks_spec().len() >= 2 ==> r == Ok::<Trick, PlayError>(
                self.tricks_spec()[self.tricks_spec().len() - 2],
            ),
            self.tricks_spec().len() < 2 ==> r == Err::<Trick, PlayError>(
                PlayError::NoLastTrick,
            ),
    {
        if self.tricks.len() < 2 {
            Err(PlayError::NoLastTrick)
        } else {
            Ok(self.tricks[self.tricks.len() - 2])
        }
    }

    /// Applies the card-play rules for seat `p` offering `c`, turn order
    /// aside.
    pub fn can_play(&self, p: PlayerPos, card: Card) -> (r: Result<(), PlayError>)
        requires
            self.wf(),
        ensures
            r == (match play_check(
                self.hands_spec()[p.idx()],
                self.tricks_spec().last(),
                self.contract_spec(),
                p,
                card,
            ) {
                None => Ok::<(), PlayError>(()),
                Some(e) => Err::<(), PlayError>(e),
            }),
    {
        let hand = self.hands[p.index()];
        let t = self.tricks[self.tricks.len() - 1];
        if !hand.has(card) {
            return Err(PlayError::CardMissing);
        }
        if p == t.first {
            return Ok(());
        }
        match t.cards[t.first.index()] {
            None => Ok(()),
            Some(lead_card) => {
                let lead = lead_card.suit;
                let trump = self.contract.trump;
                if card.suit != lead && hand.has_any(lead) {
                    return Err(PlayError::IncorrectSuit);
                }
                if card.suit != lead && card.suit != trump && !p.is_partner(t.winner)
                    && hand.has_any(trump) {
                    return Err(PlayError::InvalidPiss);
                }
                if card.suit == trump {
                    let h = highest_trump(&t, trump, p);
                    if points::trump_strength(card.rank) < h && has_higher(hand, trump, h) {
                        return Err(PlayError::NonRaisedTrump);
                    }
                }
                Ok(())
            },
        }
    }
}

/// The seat winning the trick once `p` has put down `c`: `p` itself when
/// it leads or beats the standing winner, the standing winner otherwise.
pub open spec fn new_winner(t: Trick, p: PlayerPos, c: Card, trump: Suit) -> PlayerPos {
    if p == t.first {
        p
    } else {
        match slot(t, t.winner) {
            Some(w) => if wins_over(c, w, trump) {
                p
            } else {
                t.winner
            },
            None => p,
        }
    }
}

/// Whether one team won every trick of the sequence.
pub open spec fn capot_of(tricks: Seq<Trick>, team: Team) -> bool {
    forall|k: int| 0 <= k < tricks.len() ==> (#[trigger] tricks[k]).winner.team_spec() == team
}

/// The pay-out factor of a coinche level: 1 plain, 2 coinched, 4
/// redoubled.
pub open spec fn multiplier(level: int) -> int {
    if level == 0 {
        1
    } else if level == 1 {
        2
    } else {
        4
    }
}

/// What a legal, in-turn play of `c` by `p` does: the relation between
/// the game before (`g0`), the game after (`g1`), and the result `r`.
#[verifier::opaque]
pub open spec fn play_success(
    g0: GameState,
    g1: GameState,
    p: PlayerPos,
    c: Card,
    r: Result<TrickResult, PlayError>,
) -> bool {
    let t0 = g0.tricks_spec().last();
    let trump = g0.contract_spec().trump;
    let w1 = new_winner(t0, p, c, trump);
    let n0 = g0.tricks_spec().len();
    let t1 = g1.tricks_spec()[n0 - 1];
    &&& g1.hands_spec()[p.idx()]@ == g0.hands_spec()[p.idx()]@.remove(c)
    &&& forall|q: PlayerPos| q != p ==> g1.hands_spec()[q.idx()] == g0.hands_spec()[q.idx()]
    &&& g1.contract_spec() == g0.contract_spec()
    &&& t1.first == t0.first
    &&& t1.winner == w1
    &&& t1.cards@ == t0.cards@.update(p.idx(), Some(c))
    &&& forall|k: int| 0 <= k < n0 - 1 ==> g1.tricks_spec()[k] == g0.tricks_spec()[k]
    &&& if !trick_complete(t1) {
        &&& g1.tricks_spec().len() == n0
        &&& g1.next_player_spec() == PlayerPos::from_idx(p.idx() + 1)
        &&& g1.scores_spec() == g0.scores_spec()
        &&& r == Ok::<TrickResult, PlayError>(TrickResult::Nothing)
    } else {
        &&& g1.scores_spec()[w1.team_spec().idx()] == g0.scores_spec()[w1.team_spec().idx()]
            + trick_points(t1, trump)
        &&& g1.scores_spec()[1 - w1.team_spec().idx()] == g0.scores_spec()[1
            - w1.team_spec().idx()]
        &&& g1.next_player_spec() == w1
        &&& if n0 < 8 {
            &&& g1.tricks_spec().len() == n0 + 1
            &&& g1.tricks_spec().last().first == w1
            &&& g1.tricks_spec().last().winner == w1
            &&& forall|s: PlayerPos| slot(#[trigger] g1.tricks_spec().last(), s) is None
            &&& r == Ok::<TrickResult, PlayError>(
                TrickResult::TrickOver(w1, GameResult::Nothing),
            )
        } else {
            &&& g1.tricks_spec().len() == 8
            &&& r matches Ok(tr)
            &&& (r->Ok_0 matches TrickResult::TrickOver(w, g) && w == w1 && game_over_spec(
                g0.contract_spec(),
                g1,
                w1,
                g,
            ))
        }
    }
}

/// What the result of the deal's last play reports: trick points with the
/// ten-point last-trick bonus, and the contract settled at its level.
pub open spec fn game_over_spec(
    contract: Contract,
    g1: GameState,
    w1: PlayerPos,
    g: GameResult,
) -> bool {
    let s1 = g1.scores_spec();
    let pts0 = s1[0] + if w1.team_spec() == Team::T0 {
        10int
    } else {
        0int
    };
    let pts1 = s1[1] + if w1.team_spec() == Team::T1 {
        10int
    } else {
        0int
    };
    let attack = contract.author.team_spec();
    let capot = if attack == Team::T0 {
        capot_of(g1.tricks_spec(), Team::T0)
    } else {
        capot_of(g1.tricks_spec(), Team::T1)
    };
    let patt = if attack == Team::T0 {
        pts0
    } else {
        pts1
    };
    let made = contract.target.victory_spec(patt, capot);
    let base = contract.target.score_spec();
    let mult = multiplier(contract.coinche_level as int);
    &&& (g matches GameResult::GameOver { points, winners, scores } && {
        &&& points[0] == pts0
        &&& points[1] == pts1
        &&& winners == (if made {
            attack
        } else if attack == Team::T0 {
            Team::T1
        } else {
            Team::T0
        })
        &&& (if made {
            scores[attack.idx()] == base * mult && scores[1 - attack.idx()] == 0
        } else {
            scores[attack.idx()] == 0 && scores[1 - attack.idx()] == 2 * base * mult
        })
    })
}

/// Any reachable game holds between one and eight tricks.
pub proof fn lemma_wf_tricks_bound(g: GameState)
    requires
        g.wf(),
    ensures
        1 <= g.tricks_spec().len() <= 8,
{
}

/// When a deal ends, the two teams' trick points add up to exactly 162:
/// the deck's 152 card points plus the ten-point last-trick bonus (this
/// rules set has no belote bonus, and a capot pays through the contract,
/// not through trick points).  Exactly one team scores, and a made
/// contract pays its author's team the target times the coinche factor.
pub proof fn lemma_game_over_accounting(
    contract: Contract,
    g1: GameState,
    w1: PlayerPos,
    g: GameResult,
)
    requires
        g1.wf(),
        trick_complete(g1.tricks_spec().last()),
        game_over_spec(contract, g1, w1, g),
    ensures
        g matches GameResult::GameOver { points, winners, scores } && {
            &&& points[0] + points[1] == 162
            &&& scores[1 - winners.idx()] == 0
            &&& scores[winners.idx()] == (if winners == contract.author.team_spec() {
                contract.target.score_spec() * multiplier(contract.coinche_level as int)
            } else {
                2 * contract.target.score_spec() * multiplier(
                    contract.coinche_level as int,
                )
            })
        },
{
    assert(g1.scores_spec()[0] + g1.scores_spec()[1] == 152);
}

/// Opens the play of a deal: the dealt hands, the contract, and an empty
/// first trick led by `first`.
pub fn new_game(first: PlayerPos, hands: [Hand; 4], contract: Contract) -> (g: GameState)
    requires
        hands_partition(hands),
        0 <= contract.coinche_level <= 2,
    ensures
        g.wf(),
        g.hands_spec() == hands,
        g.next_player_spec() == first,
        g.contract_spec() == contract,
        g.tricks_spec().len() == 1,
        g.tricks_spec()[0].first == first,
        forall|p: PlayerPos| slot(#[trigger] g.tricks_spec()[0], p) is None,
        g.scores_spec()[0] == 0 && g.scores_spec()[1] == 0,
{
    let t = empty_trick(first);
    let mut tricks: Vec<Trick> = Vec::new();
    tricks.push(t);
    let g = GameState { hands, current: first, contract, tricks, scores: [0, 0] };
    proof {
        let tr = g.tricks@;
        assert(tr.last() == t);
        assert(!trick_complete(t)) by {
            assert(slot(t, PlayerPos::P0) is None);
        }
        assert forall|p: PlayerPos| g.hands[p.idx()].size_spec() + #[trigger] played_in(
            tr,
            p,
        ) == 8 by {
            assert(played_in(tr.drop_last(), p) == 0);
            assert(0 <= p.idx() < 4);
        }
        points::lemma_partition_points(hands, contract.trump);
        assert(trick_points(t, contract.trump) == 0);
    }
    g
}

proof fn lemma_walk_zero(f: PlayerPos, s: PlayerPos)
    ensures
        (walk_dist(f, s) == 0) <==> f == s,
        0 <= walk_dist(f, s) <= 3,
{
}

proof fn lemma_walk_injective(f: PlayerPos, s1: PlayerPos, s2: PlayerPos)
    ensures
        (walk_dist(f, s1) == walk_dist(f, s2)) <==> s1 == s2,
{
}

proof fn lemma_walk_next(f: PlayerPos, p: PlayerPos)
    ensures
        walk_dist(f, PlayerPos::from_idx(p.idx() + 1)) == (walk_dist(f, p) + 1) % 4,
{
}

proof fn lemma_played_update_last(s: Seq<Trick>, t: Trick, q: PlayerPos)
    requires
        s.len() > 0,
    ensures
        played_in(s.update(s.len() - 1, t), q) == played_in(s, q) + (if slot(t, q) is Some {
            1int
        } else {
            0int
        }) - (if slot(s.last(), q) is Some {
            1int
        } else {
            0int
        }),
{
    let s2 = s.update(s.len() - 1, t);
    assert(s2.drop_last() =~= s.drop_last());
    assert(s2.last() == t);
}

proof fn lemma_played_push(s: Seq<Trick>, t: Trick, q: PlayerPos)
    ensures
        played_in(s.push(t), q) == played_in(s, q) + (if slot(t, q) is Some {
            1int
        } else {
            0int
        }),
{
    assert(s.push(t).drop_last() =~= s);
    assert(s.push(t).last() == t);
}

proof fn lemma_played_complete(s: Seq<Trick>, q: PlayerPos)
    requires
        forall|k: int| 0 <= k < s.len() ==> trick_complete(#[trigger] s[k]),
    ensures
        played_in(s, q) == s.len(),
    decreases s.len(),
{
    if s.len() > 0 {
        assert forall|k: int| 0 <= k < s.drop_last().len() implies trick_complete(
            #[trigger] s.drop_last()[k],
        ) by {
            assert(s.drop_last()[k] == s[k]);
        }
        lemma_played_complete(s.drop_last(), q);
        assert(slot(s.last(), q) is Some);
    }
}

/// Placing the acting seat's card fills exactly its empty slot: the
/// walked seats and the player are filled afterwards, nothing else
/// changed.
proof fn lemma_slots_after_place(t0: Trick, t: Trick, p: PlayerPos, card: Card)
    requires
        t.first == t0.first,
        t.cards@ == t0.cards@.update(p.idx(), Some(card)),
        in_play_structure(t0, p),
    ensures
        slot(t0, p) is None,
        slot(t, p) is Some,
        forall|s: PlayerPos| s != p ==> #[trigger] slot(t, s) == slot(t0, s),
        forall|s: PlayerPos|
            (#[trigger] slot(t, s)) is Some <==> (walk_dist(t0.first, s) < walk_dist(
                t0.first,
                p,
            ) || s == p),
{
    lemma_walk_zero(t0.first, p);
    assert forall|s: PlayerPos| s != p implies #[trigger] slot(t, s) == slot(t0, s) by {
        if s.idx() == p.idx() {
            assert(s == p);
        }
    }
    assert forall|s: PlayerPos|
        (#[trigger] slot(t, s)) is Some <==> (walk_dist(t0.first, s) < walk_dist(
            t0.first,
            p,
        ) || s == p) by {
        assert(slot(t0, s) is Some <==> walk_dist(t0.first, s) < walk_dist(t0.first, p));
        lemma_walk_injective(t0.first, s, p);
        if s.idx() == p.idx() {
            assert(s == p);
        }
    }
}

/// When the placement leaves the trick open, the next seat clockwise is
/// the one to act and the trick again holds exactly the walked seats.
proof fn lemma_open_after_place(t0: Trick, t: Trick, p: PlayerPos, card: Card)
    requires
        t.first == t0.first,
        t.cards@ == t0.cards@.update(p.idx(), Some(card)),
        in_play_structure(t0, p),
        !trick_complete(t),
    ensures
        in_play_structure(t, PlayerPos::from_idx(p.idx() + 1)),
{
    lemma_slots_after_place(t0, t, p, card);
    let d0 = walk_dist(t0.first, p);
    lemma_walk_next(t0.first, p);
    assert(d0 < 3) by {
        if d0 == 3 {
            assert forall|s: PlayerPos| (#[trigger] slot(t, s)) is Some by {
                lemma_walk_zero(t0.first, s);
            }
        }
    }
    assert forall|s: PlayerPos|
        (#[trigger] slot(t, s)) is Some <==> walk_dist(t0.first, s) < d0 + 1 by {
        lemma_walk_zero(t0.first, s);
        lemma_walk_injective(t0.first, s, p);
    }
}

impl GameState {
    /// Plays `card` for seat `p`: checks the turn and the card-play
    /// rules, moves the card from the hand into the trick, resolves the
    /// trick when it closes, and settles the contract after the eighth.
    pub fn play_card(&mut self, p: PlayerPos, card: Card) -> (r: Result<TrickResult, PlayError>)
        requires
            old(self).wf(),
        ensures
            final(self).wf(),
            p != old(self).next_player_spec() ==> r == Err::<TrickResult, PlayError>(
                PlayError::TurnError,
            ) && *final(self) == *old(self),
            p == old(self).next_player_spec() ==> (play_check(
                old(self).hands_spec()[p.idx()],
                old(self).tricks_spec().last(),
                old(self).contract_spec(),
                p,
                card,
            ) matches Some(e) ==> r == Err::<TrickResult, PlayError>(e) && *final(self)
                == *old(self)),
            (p == old(self).next_player_spec() && play_check(
                old(self).hands_spec()[p.idx()],
                old(self).tricks_spec().last(),
                old(self).contract_spec(),
                p,
                card,
            ) is None) ==> play_success(*old(self), *final(self), p, card, r),
            r is Ok <==> (p == old(self).next_player_spec() && play_check(
                old(self).hands_spec()[p.idx()],
                old(self).tricks_spec().last(),
                old(self).contract_spec(),
                p,
                card,
            ) is None),
    {
        if p != self.current {
            return Err(PlayError::TurnError);
        }
        match self.can_play(p, card) {
            Err(e) => {
                return Err(e);
            },
            Ok(()) => {},
        }
        let tr = self.apply_play(p, card);
        Ok(tr)
    }

    /// Carries out a play already known to be legal and in turn.
    #[verifier::rlimit(100)]
    fn apply_play(&mut self, p: PlayerPos, card: Card) -> (tr: TrickResult)
        requires
            old(self).wf(),
            p == old(self).next_player_spec(),
            play_check(
                old(self).hands_spec()[p.idx()],
                old(self).tricks_spec().last(),
                old(self).contract_spec(),
                p,
                card,
            ) is None,
        ensures
            final(self).wf(),
            play_success(
                *old(self),
                *final(self),
                p,
                card,
                Ok::<TrickResult, PlayError>(tr),
            ),
    {
        let ghost g0 = *self;
        let ghost tr0 = g0.tricks@;
        let trump = self.contract.trump;
        let i = self.tricks.len() - 1;
        let t0 = self.tricks[i];

        proof {
            // In a finished deal every hand is empty, so the card check
            // above would already have failed: the open trick is open.
            if trick_complete(tr0.last()) {
                lemma_played_complete(tr0, p);
                crate::cards::lemma_size_zero_empty(g0.hands[p.idx()]);
            }
            assert(!trick_complete(tr0.last()));
            lemma_walk_zero(t0.first, p);
        }

        // The card leaves the hand.
        let pi = p.index();
        let mut h = self.hands[pi];
        h.remove(card);
        self.hands[pi] = h;
        proof {
            assert forall|q: PlayerPos| q != p implies self.hands[q.idx()] == g0.hands[q.idx()] by {
                if q.idx() == p.idx() {
                    assert(q == p);
                }
            }
            assert(self.hands[p.idx()] == h);
            points::lemma_hand_pts_remove(g0.hands[p.idx()]@, card, trump);
            assert(points::hand_pts(h, trump) == points::hand_pts(g0.hands[p.idx()], trump)
                - points::score_spec(card, trump));
            assert(points::hand_pts(self.hands[0], trump) + points::hand_pts(
                self.hands[1],
                trump,
            ) + points::hand_pts(self.hands[2], trump) + points::hand_pts(self.hands[3], trump)
                == points::hand_pts(g0.hands[0], trump) + points::hand_pts(g0.hands[1], trump)
                + points::hand_pts(g0.hands[2], trump) + points::hand_pts(g0.hands[3], trump)
                - points::score_spec(card, trump));
        }

        // The card fills p's slot and the running winner is updated.
        let mut t = t0;
        t.cards[pi] = Some(card);
        if p == t0.first {
            t.winner = p;
        } else {
            proof {
                assert(walk_dist(t0.first, p) > 0);
                assert(slot(t0, t0.winner) is Some);
            }
            let wslot = t0.cards[t0.winner.index()];
            match wslot {
                Some(wcard) => {
                    if card_wins_over(card, wcard, trump) {
                        t.winner = p;
                    }
                },
                None => {
                    t.winner = p;
                },
            }
        }
        self.tricks[i] = t;
        proof {
            assert(t.cards@ =~= t0.cards@.update(p.idx(), Some(card)));
            assert(t.winner == new_winner(t0, p, card, trump));
            lemma_slots_after_place(t0, t, p, card);
            lemma_played_update_last(tr0, t, p);
            assert(played_in(self.tricks@, p) == played_in(tr0, p) + 1);
            assert forall|q: PlayerPos| q != p implies played_in(self.tricks@, q)
                == played_in(tr0, q) by {
                lemma_played_update_last(tr0, t, q);
            }
            assert forall|q: PlayerPos|
                self.hands[q.idx()].size_spec() + #[trigger] played_in(self.tricks@, q)
                    == 8 by {
                assert(g0.hands[q.idx()].size_spec() + played_in(tr0, q) == 8);
                if q != p {
                    assert(self.hands[q.idx()] == g0.hands[q.idx()]);
                    assert(played_in(self.tricks@, q) == played_in(tr0, q));
                } else {
                    assert(self.hands[q.idx()] == h);
                    assert(g0.hands[p.idx()]@.contains(card));
                    assert(h.size_spec() == g0.hands[p.idx()].size_spec() - 1);
                }
            }
            // Point accounting for the move from hand to trick.
            assert(trick_points(t, trump) == trick_points(t0, trump) + points::score_spec(
                card,
                trump,
            ));
            assert(self.scores[0] + self.scores[1] + points::hand_pts(self.hands[0], trump)
                + points::hand_pts(self.hands[1], trump) + points::hand_pts(
                self.hands[2],
                trump,
            ) + points::hand_pts(self.hands[3], trump) + trick_points(t, trump) == 152);
            points::lemma_pts_bounds(h@, trump, 32);
        }

        let complete = t.cards[0].is_some() && t.cards[1].is_some() && t.cards[2].is_some()
            && t.cards[3].is_some();
        proof {
            assert(t.cards[0] == slot(t, PlayerPos::P0));
            assert(t.cards[1] == slot(t, PlayerPos::P1));
            assert(t.cards[2] == slot(t, PlayerPos::P2));
            assert(t.cards[3] == slot(t, PlayerPos::P3));
            assert(complete == trick_complete(t)) by {
                if complete {
                    assert forall|s: PlayerPos| (#[trigger] slot(t, s)) is Some by {
                        assert(0 <= s.idx() < 4);
                        assert(slot(t, s) == t.cards[s.idx()]);
                    }
                }
            }
        }

        if !complete {
            self.current = p.next();
            proof {
                lemma_open_after_place(t0, t, p, card);
                assert(in_play_structure(t, self.current));
                assert(slot(t, t.winner) is Some);
                reveal(play_success);
                assert(play_success(
                    g0,
                    *self,
                    p,
                    card,
                    Ok::<TrickResult, PlayError>(TrickResult::Nothing),
                ));
            }
            return TrickResult::Nothing;
        }

        // The trick closed: score it for the winning team.
        let w = t.winner;
        let sc = t.score(trump);
        let ti = w.team().index();
        self.scores[ti] = self.scores[ti] + sc;
        proof {
            assert(self.scores[0] + self.scores[1] == g0.scores[0] + g0.scores[1]
                + trick_points(t, trump));
            assert(self.scores[0] + self.scores[1] + points::hand_pts(self.hands[0], trump)
                + points::hand_pts(self.hands[1], trump) + points::hand_pts(
                self.hands[2],
                trump,
            ) + points::hand_pts(self.hands[3], trump) == 152) by {
                assert forall|q: PlayerPos| q != p implies self.hands[q.idx()]
                    == g0.hands[q.idx()] by {}
                assert(self.hands[p.idx()] == h);
            }
            points::lemma_pts_bounds(self.hands[0]@, trump, 32);
            points::lemma_pts_bounds(self.hands[1]@, trump, 32);
            points::lemma_pts_bounds(self.hands[2]@, trump, 32);
            points::lemma_pts_bounds(self.hands[3]@, trump, 32);
        }

        if self.tricks.len() < 8 {
            let ghost trm = self.tricks@;
            self.tricks.push(empty_trick(w));
            self.current = w;
            proof {
                assert forall|q: PlayerPos|
                    self.hands[q.idx()].size_spec() + #[trigger] played_in(self.tricks@, q)
                        == 8 by {
                    lemma_played_push(trm, self.tricks@.last(), q);
                    assert(slot(self.tricks@.last(), q) is None);
                    assert(self.hands[q.idx()].size_spec() + played_in(trm, q) == 8);
                }
                assert forall|k: int|
                    0 <= k < self.tricks@.len() - 1 implies trick_complete(
                    #[trigger] self.tricks@[k],
                ) by {
                    assert(self.tricks@[k] == trm[k]);
                    if k < trm.len() - 1 {
                        assert(trm[k] == tr0[k]);
                    } else {
                        assert(trm[k] == t);
                    }
                }
                points::lemma_pts_bounds(self.hands[0]@, trump, 32);
                points::lemma_pts_bounds(self.hands[1]@, trump, 32);
                points::lemma_pts_bounds(self.hands[2]@, trump, 32);
                points::lemma_pts_bounds(self.hands[3]@, trump, 32);
                assert(!trick_complete(self.tricks@.last())) by {
                    assert(slot(self.tricks@.last(), PlayerPos::P0) is None);
                }
                assert(in_play_structure(self.tricks@.last(), w)) by {
                    assert forall|s: PlayerPos|
                        !((#[trigger] slot(self.tricks@.last(), s)) is Some) by {}
                    assert forall|s: PlayerPos|
                        !(walk_dist(w, s) < walk_dist(w, w)) by {
                        lemma_walk_zero(w, s);
                        lemma_walk_zero(w, w);
                    }
                }
                assert(trick_points(self.tricks@.last(), trump) == 0);
                reveal(play_success);
                assert(play_success(
                    g0,
                    *self,
                    p,
                    card,
                    Ok::<TrickResult, PlayError>(TrickResult::TrickOver(w, GameResult::Nothing)),
                ));
            }
            return TrickResult::TrickOver(w, GameResult::Nothing);
        }

        // Eighth trick closed: the deal is over; settle the contract.
        self.current = w;
        proof {
            assert forall|k: int| 0 <= k < self.tricks@.len() implies trick_complete(
                #[trigger] self.tricks@[k],
            ) by {
                if k < self.tricks@.len() - 1 {
                    assert(self.tricks@[k] == tr0[k]);
                }
            }
            assert forall|q: PlayerPos| (#[trigger] self.hands[q.idx()]).size_spec()
                == 0 by {
                lemma_played_complete(self.tricks@, q);
            }
            points::lemma_empty_hand_pts(self.hands[0], trump);
            points::lemma_empty_hand_pts(self.hands[1], trump);
            points::lemma_empty_hand_pts(self.hands[2], trump);
            points::lemma_empty_hand_pts(self.hands[3], trump);
            assert(self.scores[0] + self.scores[1] == 152);
        }
        let outcome = self.settle(w);
        proof {
            reveal(play_success);
            assert(play_success(
                g0,
                *self,
                p,
                card,
                Ok::<TrickResult, PlayError>(TrickResult::TrickOver(w, outcome)),
            ));
        }
        TrickResult::TrickOver(w, outcome)
    }

    /// Settles the contract once the eighth trick has closed: adds the
    /// last-trick bonus, checks the target, and splits the game score.
    fn settle(&self, w: PlayerPos) -> (g: GameResult)
        requires
            self.wf(),
            self.tricks_spec().len() == 8,
            trick_complete(self.tricks_spec().last()),
        ensures
            game_over_spec(self.contract_spec(), *self, w, g),
    {
        let ti = w.team().index();
        let mut pts = self.scores;
        pts[ti] = pts[ti] + 10;

        let mut all0 = true;
        let mut all1 = true;
        let mut k: usize = 0;
        while k < 8
            invariant
                k <= 8,
                self.tricks@.len() == 8,
                all0 == forall|j: int|
                    0 <= j < k ==> (#[trigger] self.tricks@[j]).winner.team_spec() == Team::T0,
                all1 == forall|j: int|
                    0 <= j < k ==> (#[trigger] self.tricks@[j]).winner.team_spec() == Team::T1,
            decreases 8 - k,
        {
            let wt = self.tricks[k].winner.team();
            if wt != Team::T0 {
                all0 = false;
            }
            if wt != Team::T1 {
                all1 = false;
            }
            k = k + 1;
        }

        let attack = self.contract.author.team();
        let capot = if attack == Team::T0 {
            all0
        } else {
            all1
        };
        let patt = if attack == Team::T0 {
            pts[0]
        } else {
            pts[1]
        };
        let made = self.contract.target.victory(patt, capot);
        let base = self.contract.target.score();
        let level = self.contract.coinche_level;
        let mult: i32 = if level == 0 {
            1
        } else if level == 1 {
            2
        } else {
            4
        };
        let ai = attack.index();
        let mut gs: [i32; 2] = [0, 0];
        let winners: Team;
        if made {
            gs[ai] = base * mult;
            winners = attack;
        } else {
            gs[1 - ai] = 2 * base * mult;
            winners = attack.other();
        }
        GameResult::GameOver { points: pts, winners, scores: gs }
    }
}

/// The strongest trump strength among the cards put down by the seats
/// from the trick's leader up to `player` excluded; -1 when there is
/// none.  With the leader itself, all four seats are scanned.
pub fn highest_trump(trick: &Trick, trump: Suit, player: PlayerPos) -> (h: i32)
    ensures
        h == highest_trump_upto(*trick, trump, dist_scan(trick.first, player)),
        -1 <= h <= 7,
{
    let d = trick.first.distance_until(player);
    let mut h: i32 = -1;
    let mut k: usize = 0;
    while k < d
        invariant
            k <= d,
            d == dist_scan(trick.first, player),
            h == highest_trump_upto(*trick, trump, k as int),
            -1 <= h <= 7,
        decreases d - k,
    {
        let s = trick.first.next_n(k);
        match trick.cards[s.index()] {
            Some(c) => {
                if c.suit == trump {
                    let st = points::trump_strength(c.rank);
                    if st > h {
                        h = st;
                    }
                }
            },
            None => {},
        }
        k = k + 1;
    }
    h
}

/// Whether the hand holds a trump strictly stronger than `strength`.
pub fn has_higher(hand: Hand, trump: Suit, strength: i32) -> (b: bool)
    ensures
        b == hand_has_higher_trump(hand, trump, strength as int),
{
    let mut k: u32 = 0;
    let mut found = false;
    while k < 8
        invariant
            k <= 8,
            found == exists|r: crate::cards::Rank|
                hand@.contains(Card { suit: trump, rank: r })
                    && points::trump_strength_spec(r) > strength && r.idx() < k,
        decreases 8 - k,
    {
        let rank = crate::cards::get_rank(k);
        let card = crate::cards::make_card(trump, rank);
        if points::trump_strength(rank) > strength && hand.has(card) {
            found = true;
            proof {
                assert(hand@.contains(Card { suit: trump, rank })
                    && points::trump_strength_spec(rank) > strength && rank.idx() < k + 1);
            }
        }
        proof {
            if !found {
                assert forall|r: crate::cards::Rank|
                    !(hand@.contains(Card { suit: trump, rank: r })
                        && points::trump_strength_spec(r) > strength && r.idx() < k
                        + 1) by {
                    if r.idx() == k {
                        assert(r == rank);
                    }
                }
            }
        }
        k = k + 1;
    }
    proof {
        if !found {
            assert forall|r: crate::cards::Rank|
                !(hand@.contains(Card { suit: trump, rank: r })
                    && points::trump_strength_spec(r) > strength) by {
                assert(r.idx() < 8);
            }
        }
    }
    found
}

} // verus!

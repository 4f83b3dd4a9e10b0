//! The matchmaker and request router: the player registry, the join
//! queue, and dispatch of per-player requests to the right table.
//!
//! The manager is pure state; whoever owns it (behind a lock) performs
//! the blocking: a `Waiting` outcome names a token the caller sleeps on
//! until a drained outbox delivers to that token.

use vstd::prelude::*;
use std::collections::HashMap;
use crate::bid::Target;
use crate::cards::{Card, Hand, Suit};
use crate::event::{CancelMsg, Event, EventType};
use crate::party::{
    bid_outcome,
    coinche_outcome,
    pass_outcome,
    play_outcome,
    wakes_all_with,
    Game,
    ManagerError,
    Party,
};
use crate::pos::PlayerPos;
use crate::trick::Trick;

verus! {

broadcast use vstd::std_specs::hash::group_hash_axioms;

/// A freshly seated player: its id for every later request, and its
/// seat at the table.
#[derive(Clone, Copy, Debug, PartialEq, Eq, Structural)]
pub struct NewPartyInfo {
    /// The player id minted for this player.
    pub player_id: u32,
    /// The player's seat.
    pub player_pos: PlayerPos,
}

/// The body of a bid request.
#[derive(Clone, Copy, Debug, PartialEq, Eq, Structural)]
pub struct ContractBody {
    /// The offered target.
    pub target: Target,
    /// The offered trump suit.
    pub suit: Suit,
}

/// The body of a card-play request.
#[derive(Clone, Copy, Debug, PartialEq, Eq, Structural)]
pub struct CardBody {
    /// The card to play.
    pub card: Card,
}

/// What the registry knows of one live player.
#[derive(Clone, Copy, Debug, PartialEq, Eq, Structural)]
pub struct PlayerInfo {
    /// The table the player sits at.
    pub party_id: u64,
    /// The player's seat there.
    pub pos: PlayerPos,
    /// When the player was last heard from.
    pub last_time: u64,
}

/// The registry of live players.
pub struct PlayerList {
    /// Maps player ids to what is known of them.
    pub player_map: HashMap<u32, PlayerInfo>,
}

/// One table and the four player ids seated at it.
struct PartyEntry {
    party: Party,
    members: [u32; 4],
}

/// How a join request came out.
#[derive(Clone, Copy, Debug)]
pub enum JoinResult {
    /// A table formed; here is the caller's seat.
    Ready(NewPartyInfo),
    /// The caller is queued; it blocks on this token until three more
    /// players arrive.
    Waiting(u64),
}

/// How a wait request came out.
#[derive(Clone, Copy, Debug)]
pub enum WaitResult {
    /// The event to return at once.
    Ready(Event),
    /// The caller blocks on this token until the next event wakes it.
    Waiting(u64),
}

/// Whether a timestamp is stale by the threshold at time `now`.
pub open spec fn idle_spec(last: u64, now: u64, threshold: u64) -> bool {
    now >= threshold && last <= now - threshold
}

/// What a request against one table leaves alone: every other table,
/// the seating of the table itself, and the matchmaking queues.
pub open spec fn frame_except(m0: GameManager, m1: GameManager, pid: u64) -> bool {
    &&& m1.party_members_spec(pid) == m0.party_members_spec(pid)
    &&& forall|pid2: u64|
        pid2 != pid ==> #[trigger] m1.has_party_spec(pid2) == m0.has_party_spec(pid2)
    &&& forall|pid2: u64|
        pid2 != pid && m0.has_party_spec(pid2) ==> #[trigger] m1.party_at_spec(pid2)
            == m0.party_at_spec(pid2) && m1.party_members_spec(pid2)
            == m0.party_members_spec(pid2)
    &&& m1.waiting_spec() == m0.waiting_spec()
    &&& m1.join_outbox_spec() == m0.join_outbox_spec()
}

/// What a read-only request leaves alone: every table and both queues.
pub open spec fn tables_unchanged(m0: GameManager, m1: GameManager) -> bool {
    &&& forall|pid2: u64| #[trigger] m1.has_party_spec(pid2) == m0.has_party_spec(pid2)
    &&& forall|pid2: u64|
        m0.has_party_spec(pid2) ==> #[trigger] m1.party_at_spec(pid2) == m0.party_at_spec(
            pid2,
        ) && m1.party_members_spec(pid2) == m0.party_members_spec(pid2)
    &&& m1.waiting_spec() == m0.waiting_spec()
    &&& m1.join_outbox_spec() == m0.join_outbox_spec()
}

/// The registry after a served request: the caller's activity clock is
/// refreshed, nothing else moves.
pub open spec fn touched_registry(m0: GameManager, m1: GameManager, id: u32, now: u64) -> bool {
    m1.player_map_spec() == m0.player_map_spec().insert(
        id,
        (PlayerInfo { last_time: now, ..m0.player_map_spec()[id] }),
    )
}

/// The global session manager.
pub struct GameManager {
    player_list: PlayerList,
    parties: HashMap<u64, PartyEntry>,
    party_ids: Vec<u64>,
    waiting_list: Vec<u64>,
    join_outbox: Vec<(u64, NewPartyInfo)>,
    next_party: u64,
    waiter_seq: u64,
}

/// Relies on rand::random: a uniformly random value from the
/// thread-local generator; nothing is assumed of which value comes out.
#[verifier::external_body]
fn random_u32() -> u32 {
    rand::random::<u32>()
}

impl PlayerList {
    /// Tries to mint four fresh ids: pairwise distinct, never zero, and
    /// unused in the registry.  Draws are random; after too many
    /// collisions in a row it gives up and reports nothing.
    fn make_ids(&self) -> (r: Option<[u32; 4]>)
        ensures
            r matches Some(ids) ==> {
                &&& forall|k: int|
                    0 <= k < 4 ==> #[trigger] ids[k] != 0
                        && !self.player_map@.contains_key(ids[k])
                &&& forall|k1: int, k2: int| 0 <= k1 < k2 < 4 ==> ids[k1] != ids[k2]
            },
    {
        let mut out: [u32; 4] = [0, 0, 0, 0];
        let mut i: usize = 0;
        while i < 4
            invariant
                i <= 4,
                forall|k: int|
                    0 <= k < i ==> #[trigger] out[k] != 0 && !self.player_map@.contains_key(
                        out[k],
                    ),
                forall|k1: int, k2: int| 0 <= k1 < k2 < i ==> out[k1] != out[k2],
            decreases 4 - i,
        {
            let mut attempts: u32 = 0;
            let mut found = false;
            while attempts < 64 && !found
                invariant
                    i < 4,
                    forall|k: int|
                        0 <= k < i ==> #[trigger] out[k] != 0
                            && !self.player_map@.contains_key(out[k]),
                    forall|k1: int, k2: int| 0 <= k1 < k2 < i ==> out[k1] != out[k2],
                    found ==> out[i as int] != 0 && !self.player_map@.contains_key(
                        out[i as int],
                    ) && forall|k: int| 0 <= k < i ==> out[k] != out[i as int],
                decreases 64 - attempts,
            {
                let id = random_u32();
                if id != 0 && !self.player_map.contains_key(&id) {
                    let mut clash = false;
                    let mut j: usize = 0;
                    while j < i
                        invariant
                            j <= i,
                            i < 4,
                            clash == exists|k: int| 0 <= k < j && out[k] == id,
                        decreases i - j,
                    {
                        if out[j] == id {
                            clash = true;
                        }
                        j = j + 1;
                    }
                    if !clash {
                        out[i] = id;
                        found = true;
                    }
                }
                attempts = attempts + 1;
            }
            if !found {
                return None;
            }
            i = i + 1;
        }
        Some(out)
    }
}

impl GameManager {
    /// Internal consistency: every table is well-formed, every player
    /// sits at a live table that lists it, and table ids stay below the
    /// mint counter.
    pub closed spec fn wf(self) -> bool {
        &&& forall|pid: u64|
            #[trigger] self.parties@.contains_key(pid) ==> self.parties@[pid].party.wf()
                && pid < self.next_party
        &&& forall|id: u32|
            #[trigger] self.player_list.player_map@.contains_key(id) ==> {
                let info = self.player_list.player_map@[id];
                &&& self.parties@.contains_key(info.party_id)
                &&& exists|k: int|
                    0 <= k < 4 && #[trigger] self.parties@[info.party_id].members[k] == id
                &&& self.party_ids@.contains(info.party_id)
            }
    }

    /// The registry as a map from player id to what is known of it.
    pub closed spec fn player_map_spec(self) -> Map<u32, PlayerInfo> {
        self.player_list.player_map@
    }

    /// The table a live player sits at.
    pub closed spec fn party_of_spec(self, id: u32) -> Party {
        self.parties@[self.player_map_spec()[id].party_id].party
    }

    /// The queued join tokens, oldest first.
    pub closed spec fn waiting_spec(self) -> Seq<u64> {
        self.waiting_list@
    }

    /// The id the next table will get.
    pub closed spec fn next_party_spec(self) -> u64 {
        self.next_party
    }

    /// Whether a table with this id is live.
    pub closed spec fn has_party_spec(self, pid: u64) -> bool {
        self.parties@.contains_key(pid)
    }

    /// The table with this id.
    pub closed spec fn party_at_spec(self, pid: u64) -> Party {
        self.parties@[pid].party
    }

    /// The four player ids seated at this table.
    pub closed spec fn party_members_spec(self, pid: u64) -> [u32; 4] {
        self.parties@[pid].members
    }

    /// The seatings owed to queued joiners.
    pub closed spec fn join_outbox_spec(self) -> Seq<(u64, NewPartyInfo)> {
        self.join_outbox@
    }

    /// An empty manager: no players, no tables, no queue.
    pub fn new() -> (m: GameManager)
        ensures
            m.wf(),
            m.player_map_spec() == Map::<u32, PlayerInfo>::empty(),
            m.waiting_spec().len() == 0,
            m.join_outbox_spec().len() == 0,
    {
        GameManager {
            player_list: PlayerList { player_map: HashMap::new() },
            parties: HashMap::new(),
            party_ids: Vec::new(),
            waiting_list: Vec::new(),
            join_outbox: Vec::new(),
            next_party: 0,
            waiter_seq: 0,
        }
    }

    /// Mints the next waiter token.
    fn next_token(&mut self) -> (t: u64)
        ensures
            final(self).player_list.player_map@ == old(self).player_list.player_map@,
            final(self).parties@ == old(self).parties@,
            final(self).party_ids@ == old(self).party_ids@,
            final(self).waiting_list@ == old(self).waiting_list@,
            final(self).join_outbox@ == old(self).join_outbox@,
            final(self).next_party == old(self).next_party,
    {
        let t = self.waiter_seq;
        if self.waiter_seq == u64::MAX {
            self.waiter_seq = 0;
        } else {
            self.waiter_seq = self.waiter_seq + 1;
        }
        t
    }

    /// Looks a player up, refreshes its activity time, and names its
    /// table and seat.
    fn touch(&mut self, player_id: u32, now: u64) -> (r: Option<(u64, PlayerPos)>)
        requires
            old(self).wf(),
        ensures
            final(self).wf(),
            r is None ==> *final(self) == *old(self) && !old(self).player_map_spec().contains_key(
                player_id,
            ),
            r matches Some((pid, pos)) ==> {
                let info = old(self).player_map_spec()[player_id];
                &&& old(self).player_map_spec().contains_key(player_id)
                &&& pid == info.party_id && pos == info.pos
                &&& final(self).player_list.player_map@ == old(self).player_list.player_map@.insert(
                    player_id,
                    (PlayerInfo { last_time: now, ..info }),
                )
                &&& final(self).parties@ == old(self).parties@
                &&& final(self).party_ids@ == old(self).party_ids@
                &&& final(self).waiting_list@ == old(self).waiting_list@
                &&& final(self).join_outbox@ == old(self).join_outbox@
                &&& final(self).next_party == old(self).next_party
                &&& final(self).parties@.contains_key(pid)
            },
    {
        let info = match self.player_list.player_map.get(&player_id) {
            None => {
                return None;
            },
            Some(info) => *info,
        };
        self.player_list.player_map.insert(
            player_id,
            PlayerInfo { last_time: now, ..info },
        );
        proof {
            assert forall|id: u32|
                #[trigger] self.player_list.player_map@.contains_key(id) implies {
                let i2 = self.player_list.player_map@[id];
                &&& self.parties@.contains_key(i2.party_id)
                &&& exists|k: int|
                    0 <= k < 4 && #[trigger] self.parties@[i2.party_id].members[k] == id
                &&& self.party_ids@.contains(i2.party_id)
            } by {
                assert(old(self).player_list.player_map@.contains_key(id));
            }
        }
        Some((info.party_id, info.pos))
    }

    /// Joins the matchmaking queue.  With three players already queued
    /// and ids to mint, a table forms at once: the three are owed their
    /// seats through the join outbox and the caller gets the fourth
    /// seat; otherwise the caller is queued and blocks on its token.
    pub fn join(&mut self, now: u64) -> (r: JoinResult)
        requires
            old(self).wf(),
        ensures
            final(self).wf(),
            r matches JoinResult::Waiting(t) ==> {
                &&& final(self).waiting_spec() == old(self).waiting_spec().push(t)
                &&& final(self).join_outbox_spec() == old(self).join_outbox_spec()
                &&& final(self).player_map_spec() == old(self).player_map_spec()
                &&& (forall|pid2: u64|
                    #[trigger] final(self).has_party_spec(pid2) == old(self).has_party_spec(
                        pid2,
                    ))
                &&& (forall|pid2: u64|
                    old(self).has_party_spec(pid2) ==> #[trigger] final(self).party_at_spec(
                        pid2,
                    ) == old(self).party_at_spec(pid2) && final(self).party_members_spec(
                        pid2,
                    ) == old(self).party_members_spec(pid2))
            },
            r matches JoinResult::Ready(info) ==> {
                let w0 = old(self).waiting_spec();
                let pid = old(self).next_party_spec();
                let members = final(self).party_members_spec(pid);
                &&& w0.len() >= 3
                &&& final(self).waiting_spec() == w0.subrange(0, w0.len() - 3)
                &&& final(self).has_party_spec(pid)
                &&& info.player_pos == PlayerPos::P3
                &&& info.player_id == members[3]
                &&& (forall|k: int|
                    0 <= k < 4 ==> #[trigger] members[k] != 0 && !old(self).player_map_spec().contains_key(members[k]))
                &&& (forall|k1: int, k2: int|
                    0 <= k1 < k2 < 4 ==> members[k1] != members[k2])
                &&& (forall|k: int|
                    0 <= k < 4 ==> final(self).player_map_spec().contains_key(
                        #[trigger] members[k],
                    ) && final(self).player_map_spec()[members[k]] == (PlayerInfo {
                        party_id: pid,
                        pos: PlayerPos::from_idx(k),
                        last_time: now,
                    }))
                &&& final(self).party_at_spec(pid).wf()
                &&& final(self).party_at_spec(pid).events_spec().len() == 1
                &&& final(self).party_at_spec(pid).next_player_spec() == PlayerPos::P0
                &&& final(self).party_at_spec(pid).scores_spec()[0] == 0
                &&& final(self).party_at_spec(pid).scores_spec()[1] == 0
                &&& final(self).party_at_spec(pid).observers_spec().len() == 0
                &&& final(self).party_at_spec(pid).outbox_spec().len() == 0
                &&& final(self).party_at_spec(pid).first_spec() == PlayerPos::P0
                // the fresh table opens on a logged deal, readable
                // relativized by each seat
                &&& (final(self).party_at_spec(pid).game_spec() matches Game::Bidding(a) && {
                    &&& a.first_spec() == PlayerPos::P0
                    &&& a.state_spec() is Bidding
                    &&& a.history_spec().len() == 0
                    &&& a.pass_count_spec() == 0
                    &&& final(self).party_at_spec(pid).events_spec()[0]
                        == (EventType::NewGame {
                        first: PlayerPos::P0,
                        hands: a.hands_spec(),
                    })
                })
                &&& (forall|pid2: u64|
                    pid2 != pid ==> #[trigger] final(self).has_party_spec(pid2) == old(self).has_party_spec(pid2))
                &&& (forall|pid2: u64|
                    pid2 != pid && old(self).has_party_spec(pid2) ==> #[trigger] final(self).party_at_spec(pid2) == old(self).party_at_spec(pid2) && final(self).party_members_spec(pid2) == old(self).party_members_spec(pid2))
                &&& (forall|id2: u32|
                    old(self).player_map_spec().contains_key(id2) ==> final(self).player_map_spec().contains_key(id2) && #[trigger] final(self).player_map_spec()[id2] == old(self).player_map_spec()[id2])
                &&& final(self).join_outbox_spec() == old(self).join_outbox_spec().push(
                    (
                        w0[w0.len() - 1],
                        (NewPartyInfo { player_id: members[0], player_pos: PlayerPos::P0 }),
                    ),
                ).push(
                    (
                        w0[w0.len() - 2],
                        (NewPartyInfo { player_id: members[1], player_pos: PlayerPos::P1 }),
                    ),
                ).push(
                    (
                        w0[w0.len() - 3],
                        (NewPartyInfo { player_id: members[2], player_pos: PlayerPos::P2 }),
                    ),
                )
            },
    {
        if self.waiting_list.len() >= 3 && self.next_party < u64::MAX {
            let minted = self.player_list.make_ids();
            match minted {
                Some(ids) => {
                    let pid = self.next_party;
                    self.next_party = self.next_party + 1;
                    let party = Party::new(PlayerPos::P0);
                    self.parties.insert(pid, PartyEntry { party, members: ids });
                    self.party_ids.push(pid);
                    self.player_list.player_map.insert(
                        ids[0],
                        PlayerInfo { party_id: pid, pos: PlayerPos::P0, last_time: now },
                    );
                    self.player_list.player_map.insert(
                        ids[1],
                        PlayerInfo { party_id: pid, pos: PlayerPos::P1, last_time: now },
                    );
                    self.player_list.player_map.insert(
                        ids[2],
                        PlayerInfo { party_id: pid, pos: PlayerPos::P2, last_time: now },
                    );
                    self.player_list.player_map.insert(
                        ids[3],
                        PlayerInfo { party_id: pid, pos: PlayerPos::P3, last_time: now },
                    );
                    let t0 = match self.waiting_list.pop() {
                        Some(t) => t,
                        None => 0,
                    };
                    let t1 = match self.waiting_list.pop() {
                        Some(t) => t,
                        None => 0,
                    };
                    let t2 = match self.waiting_list.pop() {
                        Some(t) => t,
                        None => 0,
                    };
                    self.join_outbox.push(
                        (t0, NewPartyInfo { player_id: ids[0], player_pos: PlayerPos::P0 }),
                    );
                    self.join_outbox.push(
                        (t1, NewPartyInfo { player_id: ids[1], player_pos: PlayerPos::P1 }),
                    );
                    self.join_outbox.push(
                        (t2, NewPartyInfo { player_id: ids[2], player_pos: PlayerPos::P2 }),
                    );
                    proof {
                        let m0 = *old(self);
                        assert(!m0.parties@.contains_key(pid));
                        assert forall|pid2: u64| #[trigger] self.parties@.contains_key(pid2)
                            implies self.parties@[pid2].party.wf() && pid2
                            < self.next_party by {
                            if pid2 != pid {
                                assert(m0.parties@.contains_key(pid2));
                            }
                        }
                        assert forall|id: u32|
                            #[trigger] self.player_list.player_map@.contains_key(id) implies {
                            let info = self.player_list.player_map@[id];
                            &&& self.parties@.contains_key(info.party_id)
                            &&& exists|k: int|
                                0 <= k < 4 && #[trigger] self.parties@[info.party_id].members[k]
                                    == id
                            &&& self.party_ids@.contains(info.party_id)
                        } by {
                            assert(self.party_ids@.last() == pid);
                            if id == ids[3] {
                                assert(self.parties@[pid].members[3] == id);
                            } else if id == ids[2] {
                                assert(self.parties@[pid].members[2] == id);
                            } else if id == ids[1] {
                                assert(self.parties@[pid].members[1] == id);
                            } else if id == ids[0] {
                                assert(self.parties@[pid].members[0] == id);
                            } else {
                                assert(m0.player_list.player_map@.contains_key(id));
                                let info = m0.player_list.player_map@[id];
                                assert(m0.parties@.contains_key(info.party_id));
                                assert(info.party_id != pid);
                                let k0 = choose|k: int|
                                    0 <= k < 4
                                        && #[trigger] m0.parties@[info.party_id].members[k]
                                        == id;
                                assert(self.parties@[info.party_id].members[k0] == id);
                                assert(m0.party_ids@.contains(info.party_id));
                                let j = choose|j: int|
                                    0 <= j < m0.party_ids@.len()
                                        && #[trigger] m0.party_ids@[j] == info.party_id;
                                assert(self.party_ids@[j] == info.party_id);
                            }
                        }
                    }
                    JoinResult::Ready(
                        NewPartyInfo { player_id: ids[3], player_pos: PlayerPos::P3 },
                    )
                },
                None => {
                    let t = self.next_token();
                    self.waiting_list.push(t);
                    JoinResult::Waiting(t)
                },
            }
        } else {
            let t = self.next_token();
            self.waiting_list.push(t);
            JoinResult::Waiting(t)
        }
    }


    /// Passes for the player; `now` refreshes its activity clock.
    pub fn pass(&mut self, player_id: u32, now: u64) -> (r: Result<Event, ManagerError>)
        requires
            old(self).wf(),
        ensures
            final(self).wf(),
            !old(self).player_map_spec().contains_key(player_id) ==> r == Err::<
                Event,
                ManagerError,
            >(ManagerError::BadPlayerId) && *final(self) == *old(self),
            old(self).player_map_spec().contains_key(player_id) ==> {
                let info = old(self).player_map_spec()[player_id];
                let p0 = old(self).party_at_spec(info.party_id);
                let p1 = final(self).party_at_spec(info.party_id);
                &&& final(self).has_party_spec(info.party_id)
                &&& final(self).player_map_spec() == old(self).player_map_spec().insert(
                    player_id,
                    (PlayerInfo { last_time: now, ..info }),
                )
                &&& p0.events_spec().is_prefix_of(p1.events_spec())
                &&& (r matches Err(e) ==> p1 == p0 && e != ManagerError::BadPlayerId && e
                    != ManagerError::BadEventId)
                &&& (r matches Ok(ev) ==> ev.id == p0.events_spec().len() && info.pos
                    == p0.next_player_spec() && wakes_all_with(p0, p1, ev) && ev.event
                    == (EventType::FromPlayer {
                    pos: info.pos,
                    event: crate::event::PlayerEvent::Passed,
                }))
                &&& pass_outcome(p0, p1, info.pos, r)
                &&& frame_except(*old(self), *final(self), info.party_id)
            },
    {
        let (pid, pos) = match self.touch(player_id, now) {
            None => {
                return Err(ManagerError::BadPlayerId);
            },
            Some(x) => x,
        };
        let ghost mid = *self;
        let mut entry = match self.parties.remove(&pid) {
            Some(e) => e,
            None => {
                proof {
                    assert(false);
                }
                return Err(ManagerError::BadPlayerId);
            },
        };
        let r = entry.party.pass(pos);
        self.parties.insert(pid, entry);
        proof {
            assert(self.parties@.dom() =~= mid.parties@.dom());
            GameManager::lemma_wf_update(mid, *self, pid, player_id);
        }
        r
    }

    /// Offers a contract for the player.
    pub fn bid(&mut self, player_id: u32, contract: ContractBody, now: u64) -> (r: Result<
        Event,
        ManagerError,
    >)
        requires
            old(self).wf(),
        ensures
            final(self).wf(),
            !old(self).player_map_spec().contains_key(player_id) ==> r == Err::<
                Event,
                ManagerError,
            >(ManagerError::BadPlayerId) && *final(self) == *old(self),
            old(self).player_map_spec().contains_key(player_id) ==> {
                let info = old(self).player_map_spec()[player_id];
                let p0 = old(self).party_at_spec(info.party_id);
                let p1 = final(self).party_at_spec(info.party_id);
                &&& final(self).has_party_spec(info.party_id)
                &&& final(self).player_map_spec() == old(self).player_map_spec().insert(
                    player_id,
                    (PlayerInfo { last_time: now, ..info }),
                )
                &&& p0.events_spec().is_prefix_of(p1.events_spec())
                &&& (r matches Err(e) ==> p1 == p0 && e != ManagerError::BadPlayerId && e
                    != ManagerError::BadEventId)
                &&& (r matches Ok(ev) ==> ev.id == p0.events_spec().len() && info.pos
                    == p0.next_player_spec() && wakes_all_with(p0, p1, ev) && ev.event
                    == (EventType::FromPlayer {
                    pos: info.pos,
                    event: crate::event::PlayerEvent::Bidded(contract.suit, contract.target),
                }))
                &&& bid_outcome(p0, p1, info.pos, contract.suit, contract.target, r)
                &&& frame_except(*old(self), *final(self), info.party_id)
            },
    {
        let (pid, pos) = match self.touch(player_id, now) {
            None => {
                return Err(ManagerError::BadPlayerId);
            },
            Some(x) => x,
        };
        let ghost mid = *self;
        let mut entry = match self.parties.remove(&pid) {
            Some(e) => e,
            None => {
                proof {
                    assert(false);
                }
                return Err(ManagerError::BadPlayerId);
            },
        };
        let r = entry.party.bid(pos, contract.suit, contract.target);
        self.parties.insert(pid, entry);
        proof {
            assert(self.parties@.dom() =~= mid.parties@.dom());
            GameManager::lemma_wf_update(mid, *self, pid, player_id);
        }
        r
    }

    /// Coinches or redoubles for the player.
    pub fn coinche(&mut self, player_id: u32, now: u64) -> (r: Result<Event, ManagerError>)
        requires
            old(self).wf(),
        ensures
            final(self).wf(),
            !old(self).player_map_spec().contains_key(player_id) ==> r == Err::<
                Event,
                ManagerError,
            >(ManagerError::BadPlayerId) && *final(self) == *old(self),
            old(self).player_map_spec().contains_key(player_id) ==> {
                let info = old(self).player_map_spec()[player_id];
                let p0 = old(self).party_at_spec(info.party_id);
                let p1 = final(self).party_at_spec(info.party_id);
                &&& final(self).has_party_spec(info.party_id)
                &&& final(self).player_map_spec() == old(self).player_map_spec().insert(
                    player_id,
                    (PlayerInfo { last_time: now, ..info }),
                )
                &&& p0.events_spec().is_prefix_of(p1.events_spec())
                &&& (r matches Err(e) ==> p1 == p0 && e != ManagerError::BadPlayerId && e
                    != ManagerError::BadEventId)
                &&& (r matches Ok(ev) ==> ev.id == p0.events_spec().len() && wakes_all_with(
                    p0,
                    p1,
                    ev,
                ) && ev.event == (EventType::FromPlayer {
                    pos: info.pos,
                    event: crate::event::PlayerEvent::Coinched,
                }))
                &&& coinche_outcome(p0, p1, info.pos, r)
                &&& frame_except(*old(self), *final(self), info.party_id)
            },
    {
        let (pid, pos) = match self.touch(player_id, now) {
            None => {
                return Err(ManagerError::BadPlayerId);
            },
            Some(x) => x,
        };
        let ghost mid = *self;
        let mut entry = match self.parties.remove(&pid) {
            Some(e) => e,
            None => {
                proof {
                    assert(false);
                }
                return Err(ManagerError::BadPlayerId);
            },
        };
        let r = entry.party.coinche(pos);
        self.parties.insert(pid, entry);
        proof {
            assert(self.parties@.dom() =~= mid.parties@.dom());
            GameManager::lemma_wf_update(mid, *self, pid, player_id);
        }
        r
    }

    /// Plays a card for the player.
    pub fn play_card(&mut self, player_id: u32, card: CardBody, now: u64) -> (r: Result<
        Event,
        ManagerError,
    >)
        requires
            old(self).wf(),
        ensures
            final(self).wf(),
            !old(self).player_map_spec().contains_key(player_id) ==> r == Err::<
                Event,
                ManagerError,
            >(ManagerError::BadPlayerId) && *final(self) == *old(self),
            old(self).player_map_spec().contains_key(player_id) ==> {
                let info = old(self).player_map_spec()[player_id];
                let p0 = old(self).party_at_spec(info.party_id);
                let p1 = final(self).party_at_spec(info.party_id);
                &&& final(self).has_party_spec(info.party_id)
                &&& final(self).player_map_spec() == old(self).player_map_spec().insert(
                    player_id,
                    (PlayerInfo { last_time: now, ..info }),
                )
                &&& p0.events_spec().is_prefix_of(p1.events_spec())
                &&& (r matches Err(e) ==> p1 == p0 && e != ManagerError::BadPlayerId && e
                    != ManagerError::BadEventId)
                &&& (r matches Ok(ev) ==> ev.id == p0.events_spec().len() && info.pos
                    == p0.next_player_spec() && wakes_all_with(p0, p1, ev) && ev.event
                    == (EventType::FromPlayer {
                    pos: info.pos,
                    event: crate::event::PlayerEvent::CardPlayed(card.card),
                }))
                &&& play_outcome(p0, p1, info.pos, card.card, r)
                &&& frame_except(*old(self), *final(self), info.party_id)
            },
    {
        let (pid, pos) = match self.touch(player_id, now) {
            None => {
                return Err(ManagerError::BadPlayerId);
            },
            Some(x) => x,
        };
        let ghost mid = *self;
        let mut entry = match self.parties.remove(&pid) {
            Some(e) => e,
            None => {
                proof {
                    assert(false);
                }
                return Err(ManagerError::BadPlayerId);
            },
        };
        let r = entry.party.play_card(pos, card.card);
        self.parties.insert(pid, entry);
        proof {
            assert(self.parties@.dom() =~= mid.parties@.dom());
            GameManager::lemma_wf_update(mid, *self, pid, player_id);
        }
        r
    }

    /// The player's current hand.
    pub fn see_hand(&mut self, player_id: u32, now: u64) -> (r: Result<Hand, ManagerError>)
        requires
            old(self).wf(),
        ensures
            final(self).wf(),
            !old(self).player_map_spec().contains_key(player_id) ==> r == Err::<
                Hand,
                ManagerError,
            >(ManagerError::BadPlayerId) && *final(self) == *old(self),
            old(self).player_map_spec().contains_key(player_id) ==> {
                let info = old(self).player_map_spec()[player_id];
                let p0 = old(self).party_at_spec(info.party_id);
                r == Ok::<Hand, ManagerError>(
                    match p0.game_spec() {
                        Game::Bidding(a) => a.hands_spec()[info.pos.idx()],
                        Game::Playing(g) => g.hands_spec()[info.pos.idx()],
                    },
                )
            },
            old(self).player_map_spec().contains_key(player_id) ==> touched_registry(
                *old(self),
                *final(self),
                player_id,
                now,
            ) && tables_unchanged(*old(self), *final(self)),
    {
        let (pid, pos) = match self.touch(player_id, now) {
            None => {
                return Err(ManagerError::BadPlayerId);
            },
            Some(x) => x,
        };
        match self.parties.get(&pid) {
            Some(entry) => Ok(entry.party.hand(pos)),
            None => {
                proof {
                    assert(false);
                }
                Err(ManagerError::BadPlayerId)
            },
        }
    }

    /// The trick being filled at the player's table.
    pub fn see_trick(&mut self, player_id: u32, now: u64) -> (r: Result<Trick, ManagerError>)
        requires
            old(self).wf(),
        ensures
            final(self).wf(),
            !old(self).player_map_spec().contains_key(player_id) ==> r == Err::<
                Trick,
                ManagerError,
            >(ManagerError::BadPlayerId) && *final(self) == *old(self),
            old(self).player_map_spec().contains_key(player_id) ==> {
                let info = old(self).player_map_spec()[player_id];
                let p0 = old(self).party_at_spec(info.party_id);
                &&& (p0.game_spec() matches Game::Bidding(_) ==> r == Err::<
                    Trick,
                    ManagerError,
                >(ManagerError::PlayInAuction))
                &&& (p0.game_spec() matches Game::Playing(g) ==> r == Ok::<
                    Trick,
                    ManagerError,
                >(g.tricks_spec().last()))
            },
            old(self).player_map_spec().contains_key(player_id) ==> touched_registry(
                *old(self),
                *final(self),
                player_id,
                now,
            ) && tables_unchanged(*old(self), *final(self)),
    {
        let (pid, _pos) = match self.touch(player_id, now) {
            None => {
                return Err(ManagerError::BadPlayerId);
            },
            Some(x) => x,
        };
        match self.parties.get(&pid) {
            Some(entry) => entry.party.trick(),
            None => {
                proof {
                    assert(false);
                }
                Err(ManagerError::BadPlayerId)
            },
        }
    }

    /// The last completed trick at the player's table.
    pub fn see_last_trick(&mut self, player_id: u32, now: u64) -> (r: Result<
        Trick,
        ManagerError,
    >)
        requires
            old(self).wf(),
        ensures
            final(self).wf(),
            !old(self).player_map_spec().contains_key(player_id) ==> r == Err::<
                Trick,
                ManagerError,
            >(ManagerError::BadPlayerId) && *final(self) == *old(self),
            old(self).player_map_spec().contains_key(player_id) ==> {
                let info = old(self).player_map_spec()[player_id];
                let p0 = old(self).party_at_spec(info.party_id);
                &&& (p0.game_spec() matches Game::Bidding(_) ==> r == Err::<
                    Trick,
                    ManagerError,
                >(ManagerError::PlayInAuction))
                &&& (p0.game_spec() matches Game::Playing(g) ==> {
                    &&& g.tricks_spec().len() >= 2 ==> r == Ok::<Trick, ManagerError>(
                        g.tricks_spec()[g.tricks_spec().len() - 2],
                    )
                    &&& g.tricks_spec().len() < 2 ==> r == Err::<Trick, ManagerError>(
                        ManagerError::Play(crate::game::PlayError::NoLastTrick),
                    )
                })
            },
            old(self).player_map_spec().contains_key(player_id) ==> touched_registry(
                *old(self),
                *final(self),
                player_id,
                now,
            ) && tables_unchanged(*old(self), *final(self)),
    {
        let (pid, _pos) = match self.touch(player_id, now) {
            None => {
                return Err(ManagerError::BadPlayerId);
            },
            Some(x) => x,
        };
        match self.parties.get(&pid) {
            Some(entry) => entry.party.last_trick(),
            None => {
                proof {
                    assert(false);
                }
                Err(ManagerError::BadPlayerId)
            },
        }
    }

    /// The two teams' cumulative game scores at the player's table.
    pub fn see_scores(&mut self, player_id: u32, now: u64) -> (r: Result<[i32; 2], ManagerError>)
        requires
            old(self).wf(),
        ensures
            final(self).wf(),
            !old(self).player_map_spec().contains_key(player_id) ==> r == Err::<
                [i32; 2],
                ManagerError,
            >(ManagerError::BadPlayerId) && *final(self) == *old(self),
            old(self).player_map_spec().contains_key(player_id) ==> r == Ok::<
                [i32; 2],
                ManagerError,
            >(
                old(self).party_at_spec(
                    old(self).player_map_spec()[player_id].party_id,
                ).scores_spec(),
            ),
            old(self).player_map_spec().contains_key(player_id) ==> touched_registry(
                *old(self),
                *final(self),
                player_id,
                now,
            ) && tables_unchanged(*old(self), *final(self)),
    {
        let (pid, _pos) = match self.touch(player_id, now) {
            None => {
                return Err(ManagerError::BadPlayerId);
            },
            Some(x) => x,
        };
        match self.parties.get(&pid) {
            Some(entry) => Ok(entry.party.scores()),
            None => {
                proof {
                    assert(false);
                }
                Err(ManagerError::BadPlayerId)
            },
        }
    }

    /// The player's seat at its table.
    pub fn see_pos(&mut self, player_id: u32, now: u64) -> (r: Result<PlayerPos, ManagerError>)
        requires
            old(self).wf(),
        ensures
            final(self).wf(),
            !old(self).player_map_spec().contains_key(player_id) ==> r == Err::<
                PlayerPos,
                ManagerError,
            >(ManagerError::BadPlayerId) && *final(self) == *old(self),
            old(self).player_map_spec().contains_key(player_id) ==> r == Ok::<
                PlayerPos,
                ManagerError,
            >(old(self).player_map_spec()[player_id].pos),
            old(self).player_map_spec().contains_key(player_id) ==> touched_registry(
                *old(self),
                *final(self),
                player_id,
                now,
            ) && tables_unchanged(*old(self), *final(self)),
    {
        match self.touch(player_id, now) {
            None => Err(ManagerError::BadPlayerId),
            Some((_pid, pos)) => Ok(pos),
        }
    }

    /// Serves or registers a long poll for the player; a `Waiting`
    /// outcome names the token the next append will deliver to.
    pub fn wait(&mut self, player_id: u32, event_id: usize, now: u64) -> (r: Result<
        WaitResult,
        ManagerError,
    >)
        requires
            old(self).wf(),
        ensures
            final(self).wf(),
            !old(self).player_map_spec().contains_key(player_id) ==> r == Err::<
                WaitResult,
                ManagerError,
            >(ManagerError::BadPlayerId) && *final(self) == *old(self),
            old(self).player_map_spec().contains_key(player_id) ==> {
                let info = old(self).player_map_spec()[player_id];
                let p0 = old(self).party_at_spec(info.party_id);
                let p1 = final(self).party_at_spec(info.party_id);
                &&& final(self).has_party_spec(info.party_id)
                &&& p1.events_spec() == p0.events_spec()
                &&& p1.outbox_spec() == p0.outbox_spec()
                &&& (event_id < p0.events_spec().len() ==> r == Ok::<
                    WaitResult,
                    ManagerError,
                >(
                    WaitResult::Ready(
                        Event {
                            event: p0.events_spec()[event_id as int].relativize_spec(info.pos),
                            id: event_id,
                        },
                    ),
                ) && p1.observers_spec() == p0.observers_spec())
                &&& (event_id > p0.events_spec().len() ==> r == Err::<
                    WaitResult,
                    ManagerError,
                >(ManagerError::BadEventId) && p1.observers_spec() == p0.observers_spec())
                &&& (event_id == p0.events_spec().len() && info.pos == p0.next_player_spec()
                    ==> r == Ok::<WaitResult, ManagerError>(
                    WaitResult::Ready(
                        Event { event: EventType::YourTurn, id: (event_id - 1) as usize },
                    ),
                ) && p1.observers_spec() == p0.observers_spec())
                &&& (event_id == p0.events_spec().len() && info.pos != p0.next_player_spec()
                    ==> (r matches Ok(w) && w matches WaitResult::Waiting(t)
                    && p1.observers_spec() == p0.observers_spec().push((t, info.pos))))
                &&& p1.scores_spec() == p0.scores_spec()
                &&& p1.game_spec() == p0.game_spec()
                &&& touched_registry(*old(self), *final(self), player_id, now)
                &&& frame_except(*old(self), *final(self), info.party_id)
            },
    {
        let (pid, pos) = match self.touch(player_id, now) {
            None => {
                return Err(ManagerError::BadPlayerId);
            },
            Some(x) => x,
        };
        let token = self.next_token();
        let ghost mid = *self;
        let mut entry = match self.parties.remove(&pid) {
            Some(e) => e,
            None => {
                proof {
                    assert(false);
                }
                return Err(ManagerError::BadPlayerId);
            },
        };
        let res = entry.party.wait(pos, event_id, token);
        self.parties.insert(pid, entry);
        proof {
            assert(self.parties@.dom() =~= mid.parties@.dom());
            GameManager::lemma_wf_update(mid, *self, pid, player_id);
        }
        match res {
            Err(e) => Err(e),
            Ok(crate::party::WaitResult::Ready(ev)) => Ok(WaitResult::Ready(ev)),
            Ok(crate::party::WaitResult::Waiting) => Ok(WaitResult::Waiting(token)),
        }
    }

    /// Hands out the deliveries owed at the player's table and empties
    /// that table's outbox.
    pub fn take_deliveries(&mut self, player_id: u32) -> (r: Result<
        Vec<(u64, Event)>,
        ManagerError,
    >)
        requires
            old(self).wf(),
        ensures
            final(self).wf(),
            !old(self).player_map_spec().contains_key(player_id) ==> r == Err::<
                Vec<(u64, Event)>,
                ManagerError,
            >(ManagerError::BadPlayerId) && *final(self) == *old(self),
            old(self).player_map_spec().contains_key(player_id) ==> {
                let info = old(self).player_map_spec()[player_id];
                let p0 = old(self).party_at_spec(info.party_id);
                let p1 = final(self).party_at_spec(info.party_id);
                &&& (r matches Ok(out) && out@ == p0.outbox_spec())
                &&& p1.outbox_spec() == Seq::<(u64, Event)>::empty()
                &&& p1.events_spec() == p0.events_spec()
                &&& p1.observers_spec() == p0.observers_spec()
                &&& p1.game_spec() == p0.game_spec()
                &&& p1.scores_spec() == p0.scores_spec()
                &&& p1.first_spec() == p0.first_spec()
                &&& final(self).player_map_spec() == old(self).player_map_spec()
                &&& frame_except(*old(self), *final(self), info.party_id)
            },
    {
        let info = match self.player_list.player_map.get(&player_id) {
            None => {
                return Err(ManagerError::BadPlayerId);
            },
            Some(info) => *info,
        };
        let pid = info.party_id;
        let ghost mid = *self;
        let mut entry = match self.parties.remove(&pid) {
            Some(e) => e,
            None => {
                proof {
                    assert(false);
                }
                return Err(ManagerError::BadPlayerId);
            },
        };
        let out = entry.party.take_outbox();
        self.parties.insert(pid, entry);
        proof {
            assert(self.parties@.dom() =~= mid.parties@.dom());
            GameManager::lemma_wf_update(mid, *self, pid, player_id);
        }
        Ok(out)
    }

    /// Removes the player's whole table: the cancellation is logged and
    /// returned as deliveries for the registered waiters, and all four
    /// seats leave the registry.
    pub fn leave(&mut self, player_id: u32, now: u64) -> (r: Result<
        Vec<(u64, Event)>,
        ManagerError,
    >)
        requires
            old(self).wf(),
        ensures
            final(self).wf(),
            !old(self).player_map_spec().contains_key(player_id) ==> r == Err::<
                Vec<(u64, Event)>,
                ManagerError,
            >(ManagerError::BadPlayerId) && *final(self) == *old(self),
            old(self).player_map_spec().contains_key(player_id) ==> {
                let info = old(self).player_map_spec()[player_id];
                let p0 = old(self).party_at_spec(info.party_id);
                let members = old(self).party_members_spec(info.party_id);
                &&& r is Ok
                &&& !final(self).has_party_spec(info.party_id)
                &&& !final(self).player_map_spec().contains_key(player_id)
                &&& (forall|k: int|
                    0 <= k < 4 ==> !final(self).player_map_spec().contains_key(
                        #[trigger] members[k],
                    ))
                &&& (r matches Ok(out) ==> out@ == p0.outbox_spec()
                    + p0.observers_spec().map_values(
                    |o: (u64, PlayerPos)| (
                        o.0,
                        Event {
                            event: (EventType::PartyCancelled {
                                msg: CancelMsg::PlayerLeft(info.pos),
                            }).relativize_spec(o.1),
                            id: p0.events_spec().len() as usize,
                        },
                    ),
                ))
                &&& (forall|pid2: u64|
                    pid2 != info.party_id ==> #[trigger] final(self).has_party_spec(pid2)
                        == old(self).has_party_spec(pid2))
                &&& (forall|pid2: u64|
                    pid2 != info.party_id && old(self).has_party_spec(pid2)
                        ==> #[trigger] final(self).party_at_spec(pid2) == old(self).party_at_spec(pid2) && final(self).party_members_spec(pid2) == old(self).party_members_spec(pid2))
                &&& (forall|id2: u32|
                    #[trigger] final(self).player_map_spec().contains_key(id2) ==> old(self).player_map_spec().contains_key(id2) && final(self).player_map_spec()[id2] == old(self).player_map_spec()[id2])
                &&& final(self).waiting_spec() == old(self).waiting_spec()
                &&& final(self).join_outbox_spec() == old(self).join_outbox_spec()
            },
    {
        let (pid, pos) = match self.touch(player_id, now) {
            None => {
                return Err(ManagerError::BadPlayerId);
            },
            Some(x) => x,
        };
        let ghost mid = *self;
        let mut entry = match self.parties.remove(&pid) {
            Some(e) => e,
            None => {
                proof {
                    assert(false);
                }
                return Err(ManagerError::BadPlayerId);
            },
        };
        entry.party.cancel(CancelMsg::PlayerLeft(pos));
        let out = entry.party.take_outbox();
        let m = entry.members;
        self.player_list.player_map.remove(&m[0]);
        self.player_list.player_map.remove(&m[1]);
        self.player_list.player_map.remove(&m[2]);
        self.player_list.player_map.remove(&m[3]);
        proof {
            assert forall|id: u32| #[trigger] self.player_list.player_map@.contains_key(id)
                implies {
                let i2 = self.player_list.player_map@[id];
                &&& self.parties@.contains_key(i2.party_id)
                &&& exists|k: int|
                    0 <= k < 4 && #[trigger] self.parties@[i2.party_id].members[k] == id
                &&& self.party_ids@.contains(i2.party_id)
            } by {
                assert(mid.player_list.player_map@.contains_key(id));
                let i2 = mid.player_list.player_map@[id];
                let k0 = choose|k: int|
                    0 <= k < 4 && #[trigger] mid.parties@[i2.party_id].members[k] == id;
                if i2.party_id == pid {
                    assert(mid.parties@[pid].members[k0] == id);
                    assert(id == m[0] || id == m[1] || id == m[2] || id == m[3]);
                    assert(false);
                }
                assert(self.parties@.contains_key(i2.party_id));
                assert(self.parties@[i2.party_id].members[k0] == id);
            }
            assert forall|p2: u64| #[trigger] self.parties@.contains_key(p2)
                implies self.parties@[p2].party.wf() && p2 < self.next_party by {
                assert(mid.parties@.contains_key(p2));
            }
        }
        Ok(out)
    }

    /// Whether seat `k` of table `pid` is registered and stale.
    pub open spec fn stale_member(self, pid: u64, k: int, now: u64, threshold: u64) -> bool {
        let id = self.party_members_spec(pid)[k];
        &&& self.player_map_spec().contains_key(id)
        &&& idle_spec(self.player_map_spec()[id].last_time, now, threshold)
    }

    /// Whether `d` is one of the deliveries already owed at some table.
    pub open spec fn owed_delivery(self, d: (u64, Event)) -> bool {
        exists|pid: u64|
            #[trigger] self.has_party_spec(pid) && self.party_at_spec(pid).outbox_spec().contains(
                d,
            )
    }

    /// Sweeps the registry: every table where some seat has been silent
    /// for `threshold` or longer is cancelled and cleared, as if that
    /// seat had left.  Afterwards no registered player is stale;
    /// untouched tables and their players survive unchanged, only a
    /// table with a stale seat is removed, and the returned deliveries
    /// are the cancelled tables' pending ones plus their cancellations.
    pub fn evict_idle(&mut self, now: u64, threshold: u64) -> (out: Vec<(u64, Event)>)
        requires
            old(self).wf(),
        ensures
            final(self).wf(),
            forall|id: u32|
                #[trigger] final(self).player_map_spec().contains_key(id) ==> !idle_spec(
                    final(self).player_map_spec()[id].last_time,
                    now,
                    threshold,
                ),
            forall|pid: u64|
                #[trigger] final(self).has_party_spec(pid) ==> old(self).has_party_spec(pid)
                    && final(self).party_at_spec(pid) == old(self).party_at_spec(pid)
                    && final(self).party_members_spec(pid) == old(self).party_members_spec(
                    pid,
                ),
            forall|pid: u64|
                old(self).has_party_spec(pid) && !(#[trigger] final(self).has_party_spec(
                    pid,
                )) ==> exists|k: int|
                    0 <= k < 4 && #[trigger] old(self).stale_member(pid, k, now, threshold),
            forall|id: u32|
                #[trigger] final(self).player_map_spec().contains_key(id) ==> old(
                    self,
                ).player_map_spec().contains_key(id) && final(self).player_map_spec()[id]
                    == old(self).player_map_spec()[id],
            forall|k: int|
                0 <= k < out@.len() ==> (#[trigger] out@[k]).1.event is PartyCancelled || old(
                    self,
                ).owed_delivery(out@[k]),
            final(self).waiting_spec() == old(self).waiting_spec(),
            final(self).join_outbox_spec() == old(self).join_outbox_spec(),
    {
        let mut out: Vec<(u64, Event)> = Vec::new();
        if now < threshold {
            return out;
        }
        let cutoff = now - threshold;
        let ghost m0 = *old(self);
        let ghost ids0 = self.party_ids@;
        let n = self.party_ids.len();
        let mut k: usize = 0;
        while k < n
            invariant
                k <= n,
                self.wf(),
                self.party_ids@ == ids0,
                n == ids0.len(),
                now >= threshold,
                cutoff == now - threshold,
                forall|id: u32|
                    #[trigger] self.player_list.player_map@.contains_key(id) && (exists|j: int|
                        0 <= j < k && #[trigger] ids0[j]
                            == self.player_list.player_map@[id].party_id)
                        ==> self.player_list.player_map@[id].last_time > cutoff,
                forall|pid2: u64|
                    #[trigger] self.parties@.contains_key(pid2) ==> m0.parties@.contains_key(
                        pid2,
                    ) && self.parties@[pid2] == m0.parties@[pid2],
                forall|pid2: u64|
                    m0.parties@.contains_key(pid2) && !(#[trigger] self.parties@.contains_key(
                        pid2,
                    )) ==> exists|kk: int|
                        0 <= kk < 4 && #[trigger] m0.stale_member(pid2, kk, now, threshold),
                forall|id: u32|
                    #[trigger] self.player_list.player_map@.contains_key(id)
                        ==> m0.player_list.player_map@.contains_key(id)
                        && self.player_list.player_map@[id]
                        == m0.player_list.player_map@[id],
                forall|kk: int|
                    0 <= kk < out@.len() ==> (#[trigger] out@[kk]).1.event is PartyCancelled
                        || m0.owed_delivery(out@[kk]),
                self.waiting_list@ == m0.waiting_list@,
                self.join_outbox@ == m0.join_outbox@,
            decreases n - k,
        {
            let pid = self.party_ids[k];
            let members_opt = match self.parties.get(&pid) {
                Some(e) => Some(e.members),
                None => None,
            };
            match members_opt {
                None => {
                    proof {
                        assert forall|id: u32|
                            #[trigger] self.player_list.player_map@.contains_key(id)
                                && (exists|j: int|
                                0 <= j < k + 1 && #[trigger] ids0[j]
                                    == self.player_list.player_map@[id].party_id)
                            implies self.player_list.player_map@[id].last_time > cutoff by {
                            assert(self.parties@.contains_key(
                                self.player_list.player_map@[id].party_id,
                            ));
                        }
                    }
                },
                Some(m) => {
                    let mut idle = false;
                    let mut stale_pos = PlayerPos::P0;
                    let mut j: usize = 0;
                    while j < 4
                        invariant
                            j <= 4,
                            idle == exists|jj: int|
                                0 <= jj < j && self.player_list.player_map@.contains_key(
                                    #[trigger] m[jj],
                                ) && self.player_list.player_map@[m[jj]].last_time <= cutoff,
                        decreases 4 - j,
                    {
                        match self.player_list.player_map.get(&m[j]) {
                            Some(info) => {
                                if info.last_time <= cutoff {
                                    if !idle {
                                        stale_pos = info.pos;
                                    }
                                    idle = true;
                                    proof {
                                        assert(self.player_list.player_map@.contains_key(
                                            m[j as int],
                                        ) && self.player_list.player_map@[m[j as int]].last_time
                                            <= cutoff);
                                    }
                                }
                            },
                            None => {},
                        }
                        j = j + 1;
                    }
                    if idle {
                        let ghost mpre = *self;
                        proof {
                            // the table being removed really has a stale seat
                            let jj = choose|jj: int|
                                0 <= jj < 4 && self.player_list.player_map@.contains_key(
                                    #[trigger] m[jj],
                                ) && self.player_list.player_map@[m[jj]].last_time <= cutoff;
                            assert(m0.party_members_spec(pid) == m);
                            assert(m0.stale_member(pid, jj, now, threshold));
                        }
                        let mut entry = match self.parties.remove(&pid) {
                            Some(e) => e,
                            None => {
                                proof {
                                    assert(false);
                                }
                                return out;
                            },
                        };
                        let who = entry.members;
                        let ghost box0 = entry.party.outbox_spec();
                        let cancel_ev = entry.party.cancel(CancelMsg::PlayerIdle(stale_pos));
                        let mut deliv = entry.party.take_outbox();
                        let ghost deliv0 = deliv@;
                        let ghost out_pre = out@;
                        out.append(&mut deliv);
                        proof {
                            // every delivery handed out is either one the
                            // table already owed or its cancellation
                            assert forall|kk: int|
                                0 <= kk < out@.len() implies ((#[trigger] out@[kk]).1.event
                                is PartyCancelled || m0.owed_delivery(out@[kk])) by {
                                if kk < out_pre.len() {
                                    assert(out@[kk] == out_pre[kk]);
                                } else {
                                    let d = out@[kk];
                                    assert(d == deliv0[kk - out_pre.len()]);
                                    if kk - out_pre.len() < box0.len() {
                                        assert(d == box0[kk - out_pre.len()]);
                                        assert(m0.has_party_spec(pid));
                                        assert(m0.party_at_spec(pid).outbox_spec().contains(
                                            d,
                                        ));
                                        assert(m0.owed_delivery(d));
                                    } else {
                                        assert(d.1.event
                                            == cancel_ev.event.relativize_spec(
                                            mpre.parties@[pid].party.observers_spec()[kk
                                                - out_pre.len() - box0.len()].1,
                                        ));
                                    }
                                }
                            }
                        }
                        self.player_list.player_map.remove(&who[0]);
                        self.player_list.player_map.remove(&who[1]);
                        self.player_list.player_map.remove(&who[2]);
                        self.player_list.player_map.remove(&who[3]);
                        proof {
                            assert forall|id: u32|
                                #[trigger] self.player_list.player_map@.contains_key(id)
                                implies {
                                let i2 = self.player_list.player_map@[id];
                                &&& self.parties@.contains_key(i2.party_id)
                                &&& exists|kk: int|
                                    0 <= kk < 4
                                        && #[trigger] self.parties@[i2.party_id].members[kk]
                                        == id
                                &&& self.party_ids@.contains(i2.party_id)
                            } by {
                                assert(mpre.player_list.player_map@.contains_key(id));
                                let i2 = mpre.player_list.player_map@[id];
                                let kk = choose|kk: int|
                                    0 <= kk < 4
                                        && #[trigger] mpre.parties@[i2.party_id].members[kk]
                                        == id;
                                if i2.party_id == pid {
                                    assert(mpre.parties@[pid].members[kk] == id);
                                    assert(id == who[0] || id == who[1] || id == who[2] || id
                                        == who[3]);
                                    assert(false);
                                }
                                assert(self.parties@.contains_key(i2.party_id));
                                assert(self.parties@[i2.party_id].members[kk] == id);
                            }
                            assert forall|p2: u64| #[trigger] self.parties@.contains_key(p2)
                                implies self.parties@[p2].party.wf() && p2
                                < self.next_party by {
                                assert(mpre.parties@.contains_key(p2));
                            }
                            assert forall|id: u32|
                                #[trigger] self.player_list.player_map@.contains_key(id)
                                    && (exists|jq: int|
                                    0 <= jq < k + 1 && #[trigger] ids0[jq]
                                        == self.player_list.player_map@[id].party_id)
                                implies self.player_list.player_map@[id].last_time
                                > cutoff by {
                                assert(mpre.player_list.player_map@.contains_key(id));
                                assert(self.player_list.player_map@[id]
                                    == mpre.player_list.player_map@[id]);
                                if self.player_list.player_map@[id].party_id != pid {
                                    assert(exists|jq: int|
                                        0 <= jq < k && #[trigger] ids0[jq]
                                            == self.player_list.player_map@[id].party_id);
                                }
                            }
                        }
                    } else {
                        proof {
                            assert forall|id: u32|
                                #[trigger] self.player_list.player_map@.contains_key(id)
                                    && (exists|jq: int|
                                    0 <= jq < k + 1 && #[trigger] ids0[jq]
                                        == self.player_list.player_map@[id].party_id)
                                implies self.player_list.player_map@[id].last_time
                                > cutoff by {
                                let i2 = self.player_list.player_map@[id];
                                if i2.party_id == pid {
                                    let kk = choose|kk: int|
                                        0 <= kk < 4
                                            && #[trigger] self.parties@[pid].members[kk]
                                            == id;
                                    assert(m[kk] == id);
                                    assert(!(self.player_list.player_map@.contains_key(m[kk])
                                        && self.player_list.player_map@[m[kk]].last_time
                                        <= cutoff));
                                }
                            }
                        }
                    }
                },
            }
            k = k + 1;
        }
        proof {
            assert forall|id: u32|
                #[trigger] self.player_list.player_map@.contains_key(id) implies !idle_spec(
                self.player_list.player_map@[id].last_time,
                now,
                threshold,
            ) by {
                let i2 = self.player_list.player_map@[id];
                assert(self.party_ids@.contains(i2.party_id));
                let j = choose|j: int|
                    0 <= j < ids0.len() && #[trigger] ids0[j] == i2.party_id;
                assert(exists|jq: int| 0 <= jq < k && #[trigger] ids0[jq] == i2.party_id);
            }
        }
        out
    }

    /// Consistency survives replacing one table's game state, members
    /// and queues aside.
    proof fn lemma_wf_update(m0: GameManager, m1: GameManager, pid: u64, changed_id: u32)
        requires
            m0.wf(),
            m0.parties@.contains_key(pid),
            m1.parties@.dom() == m0.parties@.dom(),
            forall|p2: u64|
                #[trigger] m1.parties@.contains_key(p2) && p2 != pid ==> m1.parties@[p2]
                    == m0.parties@[p2],
            m1.parties@[pid].party.wf(),
            m1.parties@[pid].members == m0.parties@[pid].members,
            m1.party_ids@ == m0.party_ids@,
            m1.next_party == m0.next_party,
            m1.player_list.player_map@.dom() == m0.player_list.player_map@.dom(),
            forall|id: u32|
                #[trigger] m1.player_list.player_map@.contains_key(id) && id != changed_id
                    ==> m1.player_list.player_map@[id] == m0.player_list.player_map@[id],
            m1.player_list.player_map@.contains_key(changed_id)
                ==> m1.player_list.player_map@[changed_id].party_id
                == m0.player_list.player_map@[changed_id].party_id,
        ensures
            m1.wf(),
    {
        assert forall|p2: u64| #[trigger] m1.parties@.contains_key(p2)
            implies m1.parties@[p2].party.wf() && p2 < m1.next_party by {
            assert(m0.parties@.contains_key(p2));
        }
        assert forall|id: u32| #[trigger] m1.player_list.player_map@.contains_key(id)
            implies {
            let info = m1.player_list.player_map@[id];
            &&& m1.parties@.contains_key(info.party_id)
            &&& exists|k: int|
                0 <= k < 4 && #[trigger] m1.parties@[info.party_id].members[k] == id
            &&& m1.party_ids@.contains(info.party_id)
        } by {
            assert(m0.player_list.player_map@.contains_key(id));
            let info0 = m0.player_list.player_map@[id];
            assert(m1.player_list.player_map@[id].party_id == info0.party_id);
            let k0 = choose|k: int|
                0 <= k < 4 && #[trigger] m0.parties@[info0.party_id].members[k] == id;
            assert(m1.parties@.contains_key(info0.party_id));
            assert(m1.parties@[info0.party_id].members[k0] == id);
        }
    }

    /// Consistency does not depend on the queues and outboxes.
    proof fn lemma_wf_frame(m0: GameManager, m1: GameManager)
        requires
            m0.wf(),
            m1.parties@ == m0.parties@,
            m1.player_list.player_map@ == m0.player_list.player_map@,
            m1.party_ids@ == m0.party_ids@,
            m1.next_party == m0.next_party,
        ensures
            m1.wf(),
    {
        assert forall|pid: u64| #[trigger] m1.parties@.contains_key(pid)
            implies m1.parties@[pid].party.wf() && pid < m1.next_party by {
            assert(m0.parties@.contains_key(pid));
        }
        assert forall|id: u32| #[trigger] m1.player_list.player_map@.contains_key(id)
            implies {
            let info = m1.player_list.player_map@[id];
            &&& m1.parties@.contains_key(info.party_id)
            &&& exists|k: int|
                0 <= k < 4 && #[trigger] m1.parties@[info.party_id].members[k] == id
            &&& m1.party_ids@.contains(info.party_id)
        } by {
            assert(m0.player_list.player_map@.contains_key(id));
            let info = m0.player_list.player_map@[id];
            let k0 = choose|k: int|
                0 <= k < 4 && #[trigger] m0.parties@[info.party_id].members[k] == id;
            assert(m1.parties@[info.party_id].members[k0] == id);
        }
    }

    /// Withdraws a timed-out joiner from the queue: its token is gone
    /// and will never be seated; every other queued token, and all the
    /// rest of the state, stays as it was.
    pub fn cancel_join(&mut self, token: u64)
        requires
            old(self).wf(),
        ensures
            final(self).wf(),
            !final(self).waiting_spec().contains(token),
            forall|t: u64|
                t != token ==> (final(self).waiting_spec().contains(t) <==> old(
                    self,
                ).waiting_spec().contains(t)),
            final(self).player_map_spec() == old(self).player_map_spec(),
            final(self).join_outbox_spec() == old(self).join_outbox_spec(),
            forall|pid2: u64|
                #[trigger] final(self).has_party_spec(pid2) == old(self).has_party_spec(
                    pid2,
                ),
            forall|pid2: u64|
                old(self).has_party_spec(pid2) ==> #[trigger] final(self).party_at_spec(
                    pid2,
                ) == old(self).party_at_spec(pid2) && final(self).party_members_spec(pid2)
                    == old(self).party_members_spec(pid2),
    {
        let ghost w0 = self.waiting_list@;
        let mut kept: Vec<u64> = Vec::new();
        let mut i: usize = 0;
        while i < self.waiting_list.len()
            invariant
                i <= self.waiting_list@.len(),
                self.waiting_list@ == w0,
                forall|k: int| 0 <= k < kept@.len() ==> #[trigger] kept@[k] != token,
                forall|t: u64|
                    t != token ==> (kept@.contains(t) <==> w0.subrange(0, i as int).contains(
                        t,
                    )),
            decreases self.waiting_list@.len() - i,
        {
            let wv = self.waiting_list[i];
            let ghost kpre = kept@;
            if wv != token {
                kept.push(wv);
            }
            proof {
                assert(w0.subrange(0, i + 1) =~= w0.subrange(0, i as int).push(
                    w0[i as int],
                ));
                assert forall|t: u64|
                    t != token implies (kept@.contains(t) <==> w0.subrange(0, i + 1).contains(
                    t,
                )) by {
                    if kept@.contains(t) {
                        let k = choose|k: int| 0 <= k < kept@.len() && kept@[k] == t;
                        if k < kpre.len() {
                            assert(kpre[k] == t);
                            assert(kpre.contains(t));
                            let k2 = choose|k2: int|
                                0 <= k2 < i && #[trigger] w0.subrange(0, i as int)[k2] == t;
                            assert(w0.subrange(0, i + 1)[k2] == t);
                        } else {
                            assert(kept@[k] == wv && wv == w0[i as int]);
                            assert(w0.subrange(0, i + 1)[i as int] == t);
                        }
                    }
                    if w0.subrange(0, i + 1).contains(t) {
                        let k = choose|k: int|
                            0 <= k < i + 1 && #[trigger] w0.subrange(0, i + 1)[k] == t;
                        if k < i {
                            assert(w0.subrange(0, i as int)[k] == t);
                            assert(kpre.contains(t));
                            let k2 = choose|k2: int|
                                0 <= k2 < kpre.len() && #[trigger] kpre[k2] == t;
                            assert(kept@[k2] == t);
                        } else {
                            assert(t == w0[i as int] && t == wv);
                            assert(kept@[kept@.len() - 1] == t);
                        }
                    }
                }
            }
            i = i + 1;
        }
        proof {
            assert(w0.subrange(0, w0.len() as int) =~= w0);
        }
        self.waiting_list = kept;
        proof {
            GameManager::lemma_wf_frame(*old(self), *self);
            if self.waiting_list@.contains(token) {
                let k = choose|k: int|
                    0 <= k < self.waiting_list@.len() && #[trigger] self.waiting_list@[k]
                        == token;
                assert(false);
            }
        }
    }

    /// Hands out the seatings owed to queued joiners and empties the
    /// join outbox.
    pub fn take_join_outbox(&mut self) -> (out: Vec<(u64, NewPartyInfo)>)
        requires
            old(self).wf(),
        ensures
            final(self).wf(),
            out@ == old(self).join_outbox_spec(),
            final(self).join_outbox_spec() == Seq::<(u64, NewPartyInfo)>::empty(),
            final(self).player_map_spec() == old(self).player_map_spec(),
            final(self).waiting_spec() == old(self).waiting_spec(),
    {
        let mut out: Vec<(u64, NewPartyInfo)> = Vec::new();
        core::mem::swap(&mut out, &mut self.join_outbox);
        proof {
            GameManager::lemma_wf_frame(*old(self), *self);
        }
        out
    }
}

} // verus!

//! The connectivity manager: the state of the reconciliation engine and the
//! handlers of its events.
//!
//! The manager neither waits nor sends. The loop around it hands it one event
//! at a time, in the order of arrival, and performs the commands that come
//! back; what the gateway makes of them is reported by later events.

use vstd::prelude::*;
use crate::backoff::{BackoffCursor, BackoffPolicy};
use crate::identity::PeerId;
use crate::lookup::{distinct, first_index, lemma_distinct_push, lemma_first_index};
use crate::model::{
    dialing_count, record_ids, record_of, records_after_update, ticked, tick_commands,
    with_record_for, with_records_for, ManagerState,
};
use crate::records::{
    command_views, tick_record, Command, ConnectionRecord, ConnectionState, Event, Outcome,
};
use crate::registry::{
    desired_address, desired_address_of, eligible_ids, is_desired, seed_ids, Registry, SeedPeers,
};

verus! {

/// The state of the reconciliation engine.
#[derive(Debug, PartialEq, Eq)]
pub struct ConnectivityManager {
    peer_id: PeerId,
    eligible: Registry,
    seeds: SeedPeers,
    records: Vec<ConnectionRecord>,
    policy: BackoffPolicy,
}

impl View for ConnectivityManager {
    type V = ManagerState;

    closed spec fn view(&self) -> ManagerState {
        ManagerState {
            peer_id: self.peer_id,
            eligible: self.eligible@,
            seeds: self.seeds@,
            records: self.records@,
            policy: self.policy,
        }
    }
}

/// Records keep their peers through a reconciliation pass.
pub proof fn lemma_ticked_ids(state: ManagerState, records: Seq<ConnectionRecord>, now_ms: u64)
    ensures
        record_ids(ticked(records, state.eligible, state.seeds, state.policy, now_ms))
            == record_ids(records),
{
    assert(record_ids(ticked(records, state.eligible, state.seeds, state.policy, now_ms))
        =~= record_ids(records));
}

/// Adding the record that a desired peer lacks keeps the peers distinct.
pub proof fn lemma_with_record_for_distinct(state: ManagerState, peer: PeerId)
    requires
        state.wf(),
    ensures
        distinct(record_ids(with_record_for(state.records, peer, state.eligible, state.seeds))),
{
    lemma_first_index(record_ids(state.records), peer);
    let after = with_record_for(state.records, peer, state.eligible, state.seeds);
    assert forall|i: int, j: int| 0 <= i < j < record_ids(after).len() implies record_ids(after)[i]
        != record_ids(after)[j] by {
        if j < state.records.len() {
            assert(record_ids(state.records)[i] != record_ids(state.records)[j]);
        } else {
            assert(record_ids(state.records)[i] != peer);
        }
    }
}

/// A record of a peer that has none joins distinct records.
pub proof fn lemma_pushed_distinct(records: Seq<ConnectionRecord>, record: ConnectionRecord)
    requires
        distinct(record_ids(records)),
        first_index(record_ids(records), record.peer_id) is None,
    ensures
        distinct(record_ids(records.push(record))),
{
    lemma_distinct_push(record_ids(records), record.peer_id);
    assert(record_ids(records.push(record)) =~= record_ids(records).push(record.peer_id));
}

/// Distinct records stay distinct when one of them goes.
pub proof fn lemma_removed_distinct(records: Seq<ConnectionRecord>, at: int)
    requires
        distinct(record_ids(records)),
        0 <= at < records.len(),
    ensures
        distinct(record_ids(records.remove(at))),
{
    let before = record_ids(records);
    let after = record_ids(records.remove(at));
    assert forall|i: int, j: int| 0 <= i < j < after.len() implies after[i] != after[j] by {
        let from_i = if i < at {
            i
        } else {
            i + 1
        };
        let from_j = if j < at {
            j
        } else {
            j + 1
        };
        assert(after[i] == before[from_i]);
        assert(after[j] == before[from_j]);
    }
}

impl ConnectivityManager {
    /// Whether the manager's state is well formed.
    pub open spec fn wf(&self) -> bool {
        self@.wf()
    }

    /// A manager for the node of the given identity, which knows the given
    /// peers and has dealt with none yet.
    pub fn new(
        peer_id: PeerId,
        eligible: Registry,
        seeds: SeedPeers,
        policy: BackoffPolicy,
    ) -> (manager: ConnectivityManager)
        ensures
            manager.wf(),
            manager@ == (ManagerState {
                peer_id,
                eligible: eligible@,
                seeds: seeds@,
                records: Seq::empty(),
                policy,
            }),
    {
        ConnectivityManager { peer_id, eligible, seeds, records: Vec::new(), policy }
    }

    /// The identity of the node that the manager runs on.
    pub fn peer_id(&self) -> (peer_id: PeerId)
        ensures
            peer_id == self@.peer_id,
    {
        self.peer_id
    }

    /// The registry snapshot that reconciliation goes by.
    pub fn eligible(&self) -> (registry: &Registry)
        ensures
            registry@ == self@.eligible,
    {
        &self.eligible
    }

    /// The fixed address book.
    pub fn seeds(&self) -> (seeds: &SeedPeers)
        ensures
            seeds@ == self@.seeds,
    {
        &self.seeds
    }

    pub fn policy(&self) -> (policy: BackoffPolicy)
        ensures
            policy == self@.policy,
    {
        self.policy
    }

    /// Where the record of a peer is kept.
    fn find_record(&self, peer: PeerId) -> (found: Option<usize>)
        ensures
            match found {
                Some(i) => i < self.records@.len() && self.records@[i as int].peer_id == peer
                    && first_index(record_ids(self.records@), peer) == Some(i as int),
                None => first_index(record_ids(self.records@), peer) is None,
            },
    {
        let mut i: usize = 0;
        while i < self.records.len()
            invariant
                i <= self.records.len(),
                forall|j: int| 0 <= j < i ==> record_ids(self.records@)[j] != peer,
            decreases self.records.len() - i,
        {
            if self.records[i].peer_id == peer {
                proof {
                    assert(record_ids(self.records@)[i as int] == peer);
                    lemma_first_index(record_ids(self.records@), peer);
                }
                return Some(i);
            }
            i = i + 1;
        }
        proof {
            lemma_first_index(record_ids(self.records@), peer);
        }
        None
    }

    /// The record kept of a peer, if one is.
    pub fn record(&self, peer: PeerId) -> (record: Option<ConnectionRecord>)
        ensures
            record == record_of(self@.records, peer),
    {
        match self.find_record(peer) {
            Some(i) => Some(self.records[i]),
            None => None,
        }
    }

    /// The number of outstanding dials.
    pub fn dial_queue_depth(&self) -> (depth: usize)
        ensures
            depth == dialing_count(self@.records),
    {
        let mut depth: usize = 0;
        let mut i: usize = 0;
        while i < self.records.len()
            invariant
                i <= self.records.len(),
                depth <= i,
                depth == dialing_count(self.records@.take(i as int)),
            decreases self.records.len() - i,
        {
            proof {
                assert(self.records@.take(i as int + 1).drop_last() =~= self.records@.take(
                    i as int,
                ));
            }
            match self.records[i].state {
                ConnectionState::Dialing => {
                    depth = depth + 1;
                },
                _ => {},
            }
            i = i + 1;
        }
        proof {
            assert(self.records@.take(self.records.len() as int) =~= self.records@);
        }
        depth
    }

    /// Adds a fresh record for the peer if it is desired and has none.
    fn ensure_record(&mut self, peer: PeerId)
        requires
            old(self).wf(),
        ensures
            final(self).wf(),
            final(self)@ == old(self)@.with_records(
                with_record_for(old(self)@.records, peer, old(self)@.eligible, old(self)@.seeds),
            ),
    {
        proof {
            lemma_with_record_for_distinct(self@, peer);
        }
        if is_desired(&self.eligible, &self.seeds, peer) {
            if self.find_record(peer).is_none() {
                self.records.push(
                    ConnectionRecord {
                        peer_id: peer,
                        state: ConnectionState::NotConnected,
                        cursor: BackoffCursor::fresh(),
                        dial_seq: 0,
                    },
                );
            }
        }
    }

    /// Adds a fresh record for every desired peer that has none.
    fn ensure_records(&mut self)
        requires
            old(self).wf(),
        ensures
            final(self).wf(),
            final(self)@ == old(self)@.with_records(old(self)@.extended_records()),
    {
        let ghost start = self@;
        let listed_peers = self.eligible.ids();
        let booked_peers = self.seeds.ids();
        let ghost listed = listed_peers@;
        let ghost booked = booked_peers@;
        let mut i: usize = 0;
        while i < listed_peers.len()
            invariant
                self.wf(),
                i <= listed_peers.len(),
                listed == listed_peers@,
                listed == eligible_ids(start.eligible),
                self@ == start.with_records(
                    with_records_for(
                        start.records,
                        listed.take(i as int),
                        start.eligible,
                        start.seeds,
                    ),
                ),
            decreases listed_peers.len() - i,
        {
            let peer = listed_peers[i];
            proof {
                assert(listed.take(i as int + 1).drop_last() =~= listed.take(i as int));
                assert(listed.take(i as int + 1).last() == peer);
            }
            self.ensure_record(peer);
            i = i + 1;
        }
        proof {
            assert(listed.take(listed.len() as int) =~= listed);
            assert(listed + booked.take(0) =~= listed);
        }
        let mut j: usize = 0;
        while j < booked_peers.len()
            invariant
                self.wf(),
                j <= booked_peers.len(),
                booked == booked_peers@,
                listed == eligible_ids(start.eligible),
                booked == seed_ids(start.seeds),
                self@ == start.with_records(
                    with_records_for(
                        start.records,
                        listed + booked.take(j as int),
                        start.eligible,
                        start.seeds,
                    ),
                ),
            decreases booked_peers.len() - j,
        {
            let peer = booked_peers[j];
            proof {
                let next = listed + booked.take(j as int + 1);
                assert(next.drop_last() =~= listed + booked.take(j as int));
                assert(next.last() == peer);
            }
            self.ensure_record(peer);
            j = j + 1;
        }
        proof {
            assert(booked.take(booked.len() as int) =~= booked);
        }
    }

    /// One reconciliation pass at time `now_ms`: dials every desired peer
    /// that is not connected and whose backoff has elapsed, and disconnects
    /// every connected peer that is not desired. Returns the commands in the
    /// order of the records.
    pub fn check_connectivity(&mut self, now_ms: u64) -> (commands: Vec<Command>)
        requires
            old(self).wf(),
        ensures
            final(self).wf(),
            final(self)@ == old(self)@.after_tick(now_ms).state,
            command_views(commands@) == old(self)@.after_tick(now_ms).commands,
    {
        let ghost start = self@;
        self.ensure_records();
        let ghost extended = self.records@;
        let mut commands: Vec<Command> = Vec::new();
        let mut k: usize = 0;
        proof {
            assert(command_views(commands@) =~= Seq::<crate::records::CommandView>::empty());
        }
        while k < self.records.len()
            invariant
                k <= extended.len(),
                self.records@.len() == extended.len(),
                self.peer_id == start.peer_id,
                self.eligible@ == start.eligible,
                self.seeds@ == start.seeds,
                self.policy == start.policy,
                forall|j: int|
                    0 <= j < k ==> self.records@[j] == tick_record(
                        #[trigger] extended[j],
                        desired_address(start.eligible, start.seeds, extended[j].peer_id),
                        start.policy,
                        now_ms,
                    ),
                forall|j: int| k <= j < extended.len() ==> self.records@[j] == extended[j],
                command_views(commands@) == tick_commands(
                    extended.take(k as int),
                    start.eligible,
                    start.seeds,
                    now_ms,
                ),
            decreases extended.len() - k,
        {
            let record = self.records[k];
            let ghost issued = command_views(commands@);
            proof {
                assert(extended.take(k as int + 1).drop_last() =~= extended.take(k as int));
                assert(extended.take(k as int + 1).last() == record);
            }
            match record.state {
                ConnectionState::NotConnected => {
                    if record.cursor.is_due(now_ms) {
                        match desired_address_of(&self.eligible, &self.seeds, record.peer_id) {
                            Some(address) => {
                                let mut cursor = record.cursor;
                                cursor.advance(&self.policy, now_ms);
                                let dial_seq = if record.dial_seq < u64::MAX {
                                    record.dial_seq + 1
                                } else {
                                    u64::MAX
                                };
                                self.records.set(
                                    k,
                                    ConnectionRecord {
                                        peer_id: record.peer_id,
                                        state: ConnectionState::Dialing,
                                        cursor,
                                        dial_seq,
                                    },
                                );
                                let command = Command::Dial(record.peer_id, address);
                                commands.push(command);
                                proof {
                                    assert(command_views(commands@) =~= issued.push(
                                        commands@.last()@,
                                    ));
                                }
                            },
                            None => {},
                        }
                    }
                },
                ConnectionState::Connected => {
                    if !is_desired(&self.eligible, &self.seeds, record.peer_id) {
                        self.records.set(
                            k,
                            ConnectionRecord {
                                peer_id: record.peer_id,
                                state: ConnectionState::NotConnected,
                                cursor: record.cursor,
                                dial_seq: record.dial_seq,
                            },
                        );
                        commands.push(Command::Disconnect(record.peer_id));
                        proof {
                            assert(command_views(commands@) =~= issued.push(commands@.last()@));
                        }
                    }
                },
                ConnectionState::Dialing => {},
            }
            k = k + 1;
        }
        proof {
            assert(extended.take(extended.len() as int) =~= extended);
            assert(self.records@ =~= ticked(
                extended,
                start.eligible,
                start.seeds,
                start.policy,
                now_ms,
            ));
            lemma_ticked_ids(start, extended, now_ms);
        }
        commands
    }

    /// The gateway holds a connection with `peer`. A desired peer is
    /// connected from now on and its backoff starts over. A peer that is not
    /// desired is disconnected at once.
    pub fn handle_connected(&mut self, peer: PeerId) -> (commands: Vec<Command>)
        requires
            old(self).wf(),
        ensures
            final(self).wf(),
            final(self)@ == old(self)@.after_connected(peer).state,
            command_views(commands@) == old(self)@.after_connected(peer).commands,
    {
        let mut commands: Vec<Command> = Vec::new();
        let desired = is_desired(&self.eligible, &self.seeds, peer);
        let ghost before = self.records@;
        proof {
            lemma_first_index(record_ids(before), peer);
        }
        match self.find_record(peer) {
            Some(i) => {
                let record = self.records[i];
                if desired {
                    self.records.set(
                        i,
                        ConnectionRecord {
                            peer_id: record.peer_id,
                            state: ConnectionState::Connected,
                            cursor: BackoffCursor::fresh(),
                            dial_seq: record.dial_seq,
                        },
                    );
                } else {
                    self.records.set(
                        i,
                        ConnectionRecord {
                            peer_id: record.peer_id,
                            state: ConnectionState::NotConnected,
                            cursor: record.cursor,
                            dial_seq: record.dial_seq,
                        },
                    );
                }
                proof {
                    assert(record_ids(self.records@) =~= record_ids(before));
                }
            },
            None => {
                if desired {
                    self.records.push(
                        ConnectionRecord {
                            peer_id: peer,
                            state: ConnectionState::Connected,
                            cursor: BackoffCursor::fresh(),
                            dial_seq: 0,
                        },
                    );
                    proof {
                        lemma_pushed_distinct(before, self.records@.last());
                    }
                }
            },
        }
        if !desired {
            commands.push(Command::Disconnect(peer));
        }
        proof {
            assert(command_views(commands@) =~= old(self)@.after_connected(peer).commands);
        }
        commands
    }

    /// The gateway holds no connection with `peer`: one was lost, or a dial
    /// came to nothing. A desired peer keeps its record and its backoff; the
    /// record of a peer that is not desired is dropped.
    pub fn handle_disconnected(&mut self, peer: PeerId)
        requires
            old(self).wf(),
        ensures
            final(self).wf(),
            final(self)@ == old(self)@.after_disconnected(peer).state,
    {
        let desired = is_desired(&self.eligible, &self.seeds, peer);
        let ghost before = self.records@;
        match self.find_record(peer) {
            Some(i) => {
                if desired {
                    let record = self.records[i];
                    self.records.set(
                        i,
                        ConnectionRecord {
                            peer_id: record.peer_id,
                            state: ConnectionState::NotConnected,
                            cursor: record.cursor,
                            dial_seq: record.dial_seq,
                        },
                    );
                    proof {
                        assert(record_ids(self.records@) =~= record_ids(before));
                    }
                } else {
                    self.records.remove(i);
                    proof {
                        lemma_removed_distinct(before, i as int);
                    }
                }
            },
            None => {},
        }
    }

    /// Replaces the registry by `snapshot`, as a whole. The backoff of every
    /// peer that the snapshot newly lists starts over.
    pub fn update_eligible_nodes(&mut self, snapshot: Registry)
        requires
            old(self).wf(),
        ensures
            final(self).wf(),
            final(self)@ == old(self)@.after_update(snapshot@).state,
            final(self)@.eligible == snapshot@,
    {
        let ghost start = self@;
        let mut k: usize = 0;
        while k < self.records.len()
            invariant
                k <= start.records.len(),
                self.records@.len() == start.records.len(),
                self.peer_id == start.peer_id,
                self.eligible@ == start.eligible,
                self.seeds@ == start.seeds,
                self.policy == start.policy,
                forall|j: int|
                    0 <= j < k ==> self.records@[j] == records_after_update(
                        start.records,
                        start.eligible,
                        snapshot@,
                    )[j],
                forall|j: int| k <= j < start.records.len() ==> self.records@[j] == start.records[j],
            decreases start.records.len() - k,
        {
            let record = self.records[k];
            if snapshot.contains(record.peer_id) && !self.eligible.contains(record.peer_id) {
                self.records.set(
                    k,
                    ConnectionRecord {
                        peer_id: record.peer_id,
                        state: record.state,
                        cursor: BackoffCursor::fresh(),
                        dial_seq: record.dial_seq,
                    },
                );
            }
            k = k + 1;
        }
        proof {
            assert(self.records@ =~= records_after_update(
                start.records,
                start.eligible,
                snapshot@,
            ));
            assert(record_ids(self.records@) =~= record_ids(start.records));
        }
        self.eligible.replace(snapshot);
    }

    /// A command could not be handed to the gateway. A dial is due again at
    /// the next pass and does not count as an attempt; a peer whose
    /// disconnect was rejected counts as connected still.
    pub fn handle_rejected(&mut self, command: &Command)
        requires
            old(self).wf(),
        ensures
            final(self).wf(),
            final(self)@ == match command@ {
                crate::records::CommandView::Dial(peer, _) => old(self)@.after_dial_rejected(
                    peer,
                ).state,
                crate::records::CommandView::Disconnect(peer) => old(
                    self,
                )@.after_disconnect_rejected(peer).state,
            },
    {
        let ghost before = self.records@;
        match command {
            Command::Dial(peer, _) => {
                match self.find_record(*peer) {
                    Some(i) => {
                        let record = self.records[i];
                        match record.state {
                            ConnectionState::Dialing => {
                                let mut cursor = record.cursor;
                                cursor.withdraw();
                                self.records.set(
                                    i,
                                    ConnectionRecord {
                                        peer_id: record.peer_id,
                                        state: ConnectionState::NotConnected,
                                        cursor,
                                        dial_seq: record.dial_seq,
                                    },
                                );
                                proof {
                                    assert(record_ids(self.records@) =~= record_ids(before));
                                }
                            },
                            _ => {},
                        }
                    },
                    None => {},
                }
            },
            Command::Disconnect(peer) => {
                proof {
                    lemma_first_index(record_ids(before), *peer);
                }
                match self.find_record(*peer) {
                    Some(i) => {
                        let record = self.records[i];
                        match record.state {
                            ConnectionState::NotConnected => {
                                self.records.set(
                                    i,
                                    ConnectionRecord {
                                        peer_id: record.peer_id,
                                        state: ConnectionState::Connected,
                                        cursor: record.cursor,
                                        dial_seq: record.dial_seq,
                                    },
                                );
                                proof {
                                    assert(record_ids(self.records@) =~= record_ids(before));
                                }
                            },
                            _ => {},
                        }
                    },
                    None => {
                        self.records.push(
                            ConnectionRecord {
                                peer_id: *peer,
                                state: ConnectionState::Connected,
                                cursor: BackoffCursor::fresh(),
                                dial_seq: 0,
                            },
                        );
                        proof {
                            lemma_pushed_distinct(before, self.records@.last());
                        }
                    },
                }
            },
        }
    }

    /// Reacts to one event: the state moves on as [`ManagerState::step`]
    /// says, and the commands that it names come back, in its order.
    pub fn handle_event(&mut self, event: Event) -> (outcome: Outcome)
        requires
            old(self).wf(),
        ensures
            final(self).wf(),
            final(self)@ == old(self)@.step(event@).state,
            command_views(outcome.commands@) == old(self)@.step(event@).commands,
            match outcome.dial_queue_depth {
                Some(depth) => old(self)@.step(event@).dial_queue_depth == Some(depth as nat),
                None => old(self)@.step(event@).dial_queue_depth is None,
            },
    {
        match event {
            Event::Tick { now_ms } => {
                let commands = self.check_connectivity(now_ms);
                Outcome { commands, dial_queue_depth: None }
            },
            Event::Connected { peer, address: _ } => {
                let commands = self.handle_connected(peer);
                Outcome { commands, dial_queue_depth: None }
            },
            Event::Disconnected { peer } => {
                self.handle_disconnected(peer);
                let commands: Vec<Command> = Vec::new();
                proof {
                    assert(command_views(commands@) =~= Seq::empty());
                }
                Outcome { commands, dial_queue_depth: None }
            },
            Event::UpdateEligibleNodes(snapshot) => {
                self.update_eligible_nodes(snapshot);
                let commands: Vec<Command> = Vec::new();
                proof {
                    assert(command_views(commands@) =~= Seq::empty());
                }
                Outcome { commands, dial_queue_depth: None }
            },
            Event::CommandRejected(command) => {
                self.handle_rejected(&command);
                let commands: Vec<Command> = Vec::new();
                proof {
                    assert(command_views(commands@) =~= Seq::empty());
                }
                Outcome { commands, dial_queue_depth: None }
            },
            Event::QueryDialQueueDepth => {
                let depth = self.dial_queue_depth();
                let commands: Vec<Command> = Vec::new();
                proof {
                    assert(command_views(commands@) =~= Seq::empty());
                }
                Outcome { commands, dial_queue_depth: Some(depth) }
            },
        }
    }
}

} // verus!

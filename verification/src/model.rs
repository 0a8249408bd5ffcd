//! The reconciliation engine as a function from state and event to the next
//! state and the commands to issue.

use vstd::prelude::*;
use crate::address::Protocol;
use crate::backoff::{BackoffCursor, BackoffPolicy};
use crate::identity::PeerId;
use crate::lookup::{distinct, first_index};
use crate::records::{
    fresh_record, tick_command, tick_record, CommandView, ConnectionRecord, ConnectionState,
    EventView,
};
use crate::registry::{
    desired_address, eligible_ids, is_eligible, seed_ids, EligiblePeerView, SeedPeerView,
};

verus! {

/// All that the engine knows.
pub struct ManagerState {
    /// The identity of the node that the engine runs on.
    pub peer_id: PeerId,
    /// The registry snapshot that reconciliation goes by.
    pub eligible: Seq<EligiblePeerView>,
    /// The fixed address book.
    pub seeds: Seq<SeedPeerView>,
    /// One record for each peer that the engine has dealt with and not
    /// dropped, oldest first.
    pub records: Seq<ConnectionRecord>,
    pub policy: BackoffPolicy,
}

/// The next state with what goes out.
pub struct Step {
    pub state: ManagerState,
    pub commands: Seq<CommandView>,
    pub dial_queue_depth: Option<nat>,
}

/// The peers of the records, in order.
pub open spec fn record_ids(records: Seq<ConnectionRecord>) -> Seq<PeerId> {
    Seq::new(records.len(), |i: int| records[i].peer_id)
}

/// The record kept of a peer, if one is.
pub open spec fn record_of(records: Seq<ConnectionRecord>, peer: PeerId) -> Option<
    ConnectionRecord,
> {
    match first_index(record_ids(records), peer) {
        Some(i) => Some(records[i]),
        None => None,
    }
}

/// The records with a fresh one added for `peer` if the peer is desired and
/// has none.
pub open spec fn with_record_for(
    records: Seq<ConnectionRecord>,
    peer: PeerId,
    eligible: Seq<EligiblePeerView>,
    seeds: Seq<SeedPeerView>,
) -> Seq<ConnectionRecord> {
    if desired_address(eligible, seeds, peer) is Some && first_index(record_ids(records), peer)
        is None {
        records.push(fresh_record(peer))
    } else {
        records
    }
}

/// The records with a fresh one added, in the order of `peers`, for each of
/// them that is desired and has none.
pub open spec fn with_records_for(
    records: Seq<ConnectionRecord>,
    peers: Seq<PeerId>,
    eligible: Seq<EligiblePeerView>,
    seeds: Seq<SeedPeerView>,
) -> Seq<ConnectionRecord>
    decreases peers.len(),
{
    if peers.len() == 0 {
        records
    } else {
        with_record_for(
            with_records_for(records, peers.drop_last(), eligible, seeds),
            peers.last(),
            eligible,
            seeds,
        )
    }
}

/// Every record after a reconciliation pass at `now_ms`.
pub open spec fn ticked(
    records: Seq<ConnectionRecord>,
    eligible: Seq<EligiblePeerView>,
    seeds: Seq<SeedPeerView>,
    policy: BackoffPolicy,
    now_ms: u64,
) -> Seq<ConnectionRecord> {
    Seq::new(
        records.len(),
        |i: int|
            tick_record(
                records[i],
                desired_address(eligible, seeds, records[i].peer_id),
                policy,
                now_ms,
            ),
    )
}

/// The commands of a reconciliation pass at `now_ms`, in the order of the
/// records.
pub open spec fn tick_commands(
    records: Seq<ConnectionRecord>,
    eligible: Seq<EligiblePeerView>,
    seeds: Seq<SeedPeerView>,
    now_ms: u64,
) -> Seq<CommandView>
    decreases records.len(),
{
    if records.len() == 0 {
        Seq::empty()
    } else {
        let earlier = tick_commands(records.drop_last(), eligible, seeds, now_ms);
        let last = records.last();
        match tick_command(last, desired_address(eligible, seeds, last.peer_id), now_ms) {
            Some(command) => earlier.push(command),
            None => earlier,
        }
    }
}

/// How many of the records have a dial outstanding.
pub open spec fn dialing_count(records: Seq<ConnectionRecord>) -> nat
    decreases records.len(),
{
    if records.len() == 0 {
        0
    } else {
        dialing_count(records.drop_last()) + if records.last().state is Dialing {
            1nat
        } else {
            0nat
        }
    }
}

/// A record with another state.
pub open spec fn in_state(record: ConnectionRecord, state: ConnectionState) -> ConnectionRecord {
    ConnectionRecord {
        peer_id: record.peer_id,
        state,
        cursor: record.cursor,
        dial_seq: record.dial_seq,
    }
}

/// A record with another backoff cursor.
pub open spec fn with_cursor(record: ConnectionRecord, cursor: BackoffCursor) -> ConnectionRecord {
    ConnectionRecord {
        peer_id: record.peer_id,
        state: record.state,
        cursor,
        dial_seq: record.dial_seq,
    }
}

/// The records after the gateway reported a connection with `peer`. A
/// desired peer is connected from now on and its backoff starts over; a peer
/// that is not desired is about to be disconnected again.
pub open spec fn records_after_connected(
    records: Seq<ConnectionRecord>,
    peer: PeerId,
    target: Option<Seq<Protocol>>,
) -> Seq<ConnectionRecord> {
    match first_index(record_ids(records), peer) {
        Some(i) => if target is Some {
            records.update(
                i,
                with_cursor(
                    in_state(records[i], ConnectionState::Connected),
                    BackoffCursor::initial(),
                ),
            )
        } else {
            records.update(i, in_state(records[i], ConnectionState::NotConnected))
        },
        None => if target is Some {
            records.push(in_state(fresh_record(peer), ConnectionState::Connected))
        } else {
            records
        },
    }
}

/// The records after the gateway reported that no connection with `peer`
/// stands. A desired peer keeps its record, backoff and all; the record of a
/// peer that is not desired goes.
pub open spec fn records_after_disconnected(
    records: Seq<ConnectionRecord>,
    peer: PeerId,
    target: Option<Seq<Protocol>>,
) -> Seq<ConnectionRecord> {
    match first_index(record_ids(records), peer) {
        Some(i) => if target is Some {
            records.update(i, in_state(records[i], ConnectionState::NotConnected))
        } else {
            records.remove(i)
        },
        None => records,
    }
}

/// The records after the registry went from `before` to `snapshot`: the
/// backoff of every peer that the snapshot newly lists starts over.
pub open spec fn records_after_update(
    records: Seq<ConnectionRecord>,
    before: Seq<EligiblePeerView>,
    snapshot: Seq<EligiblePeerView>,
) -> Seq<ConnectionRecord> {
    Seq::new(
        records.len(),
        |i: int|
            if is_eligible(snapshot, records[i].peer_id) && !is_eligible(
                before,
                records[i].peer_id,
            ) {
                with_cursor(records[i], BackoffCursor::initial())
            } else {
                records[i]
            },
    )
}

/// The records after a dial of `peer` could not be handed to the gateway:
/// the dial is due again at the next pass.
pub open spec fn records_after_dial_rejected(
    records: Seq<ConnectionRecord>,
    peer: PeerId,
) -> Seq<ConnectionRecord> {
    match first_index(record_ids(records), peer) {
        Some(i) => if records[i].state is Dialing {
            records.update(
                i,
                with_cursor(
                    in_state(records[i], ConnectionState::NotConnected),
                    records[i].cursor.withdrawn(),
                ),
            )
        } else {
            records
        },
        None => records,
    }
}

/// The records after a disconnect of `peer` could not be handed to the
/// gateway: the peer counts as connected still, so that the next pass
/// disconnects it again unless it is desired by then.
pub open spec fn records_after_disconnect_rejected(
    records: Seq<ConnectionRecord>,
    peer: PeerId,
) -> Seq<ConnectionRecord> {
    match first_index(record_ids(records), peer) {
        Some(i) => if records[i].state is NotConnected {
            records.update(i, in_state(records[i], ConnectionState::Connected))
        } else {
            records
        },
        None => records.push(in_state(fresh_record(peer), ConnectionState::Connected)),
    }
}

impl ManagerState {
    /// No peer has two records.
    pub open spec fn wf(self) -> bool {
        distinct(record_ids(self.records))
    }

    /// The address under which the peer is desired, if it is.
    pub open spec fn desired(self, peer: PeerId) -> Option<Seq<Protocol>> {
        desired_address(self.eligible, self.seeds, peer)
    }

    /// The peers that a reconciliation pass looks at for new records: those
    /// of the registry, then those of the address book.
    pub open spec fn candidates(self) -> Seq<PeerId> {
        eligible_ids(self.eligible) + seed_ids(self.seeds)
    }

    /// The state with other records.
    pub open spec fn with_records(self, records: Seq<ConnectionRecord>) -> ManagerState {
        ManagerState {
            peer_id: self.peer_id,
            eligible: self.eligible,
            seeds: self.seeds,
            records,
            policy: self.policy,
        }
    }

    /// The records that a reconciliation pass works on: those there are, and
    /// a fresh one for every desired peer that has none.
    pub open spec fn extended_records(self) -> Seq<ConnectionRecord> {
        with_records_for(self.records, self.candidates(), self.eligible, self.seeds)
    }

    /// A reconciliation pass at `now_ms`. Every desired peer that is not
    /// connected and whose backoff has elapsed is dialled, and every
    /// connected peer that is not desired is disconnected. A peer with a dial
    /// outstanding is left alone.
    pub open spec fn after_tick(self, now_ms: u64) -> Step {
        let records = self.extended_records();
        Step {
            state: self.with_records(
                ticked(records, self.eligible, self.seeds, self.policy, now_ms),
            ),
            commands: tick_commands(records, self.eligible, self.seeds, now_ms),
            dial_queue_depth: None,
        }
    }

    /// The gateway reports a connection with `peer`.
    pub open spec fn after_connected(self, peer: PeerId) -> Step {
        Step {
            state: self.with_records(
                records_after_connected(self.records, peer, self.desired(peer)),
            ),
            commands: if self.desired(peer) is Some {
                Seq::empty()
            } else {
                seq![CommandView::Disconnect(peer)]
            },
            dial_queue_depth: None,
        }
    }

    /// The gateway reports that no connection with `peer` stands.
    pub open spec fn after_disconnected(self, peer: PeerId) -> Step {
        Step {
            state: self.with_records(
                records_after_disconnected(self.records, peer, self.desired(peer)),
            ),
            commands: Seq::empty(),
            dial_queue_depth: None,
        }
    }

    /// The registry is replaced by `snapshot`, as a whole.
    pub open spec fn after_update(self, snapshot: Seq<EligiblePeerView>) -> Step {
        Step {
            state: ManagerState {
                peer_id: self.peer_id,
                eligible: snapshot,
                seeds: self.seeds,
                records: records_after_update(self.records, self.eligible, snapshot),
                policy: self.policy,
            },
            commands: Seq::empty(),
            dial_queue_depth: None,
        }
    }

    /// A dial of `peer` could not be handed to the gateway.
    pub open spec fn after_dial_rejected(self, peer: PeerId) -> Step {
        Step {
            state: self.with_records(records_after_dial_rejected(self.records, peer)),
            commands: Seq::empty(),
            dial_queue_depth: None,
        }
    }

    /// A disconnect of `peer` could not be handed to the gateway.
    pub open spec fn after_disconnect_rejected(self, peer: PeerId) -> Step {
        Step {
            state: self.with_records(records_after_disconnect_rejected(self.records, peer)),
            commands: Seq::empty(),
            dial_queue_depth: None,
        }
    }

    /// The number of outstanding dials is asked for.
    pub open spec fn after_query(self) -> Step {
        Step {
            state: self,
            commands: Seq::empty(),
            dial_queue_depth: Some(dialing_count(self.records)),
        }
    }

    /// The engine's reaction to an event.
    pub open spec fn step(self, event: EventView) -> Step {
        match event {
            EventView::Tick { now_ms } => self.after_tick(now_ms),
            EventView::Connected { peer } => self.after_connected(peer),
            EventView::Disconnected { peer } => self.after_disconnected(peer),
            EventView::UpdateEligibleNodes { snapshot } => self.after_update(snapshot),
            EventView::DialRejected { peer } => self.after_dial_rejected(peer),
            EventView::DisconnectRejected { peer } => self.after_disconnect_rejected(peer),
            EventView::QueryDialQueueDepth => self.after_query(),
        }
    }
}

} // verus!

//! What holds of the reconciliation engine in every state.

use vstd::prelude::*;
use crate::address::Protocol;
use crate::backoff::{lemma_backoff_grows_to_cap, saturating_sum, BackoffCursor};
use crate::identity::PeerId;
use crate::lookup::{distinct, first_index, lemma_first_index};
use crate::manager::{lemma_pushed_distinct, lemma_removed_distinct, lemma_ticked_ids};
use crate::model::{
    record_ids, record_of, tick_commands, with_record_for, with_records_for, ManagerState,
};
use crate::records::{
    dial_due, fresh_record, tick_command, tick_record, CommandView, ConnectionRecord, EventView,
};
use crate::registry::{
    desired_address, eligible_ids, seed_ids, EligiblePeerView, SeedPeerView,
};

verus! {

/// A peer that is found in a sequence is found at the same place in every
/// sequence that the first opens.
pub proof fn lemma_first_index_prefix(ids: Seq<PeerId>, longer: Seq<PeerId>, peer: PeerId)
    requires
        ids.len() <= longer.len(),
        forall|i: int| 0 <= i < ids.len() ==> ids[i] == longer[i],
        first_index(ids, peer) is Some,
    ensures
        first_index(longer, peer) == first_index(ids, peer),
{
    lemma_first_index(ids, peer);
    lemma_first_index(longer, peer);
}

/// Among distinct records, the record of a peer is the one that bears its
/// name.
pub proof fn lemma_record_at(records: Seq<ConnectionRecord>, i: int)
    requires
        distinct(record_ids(records)),
        0 <= i < records.len(),
    ensures
        first_index(record_ids(records), records[i].peer_id) == Some(i),
        record_of(records, records[i].peer_id) == Some(records[i]),
{
    lemma_first_index(record_ids(records), records[i].peer_id);
    assert(record_ids(records)[i] == records[i].peer_id);
}

/// The record kept of a peer bears its name.
pub proof fn lemma_record_of(records: Seq<ConnectionRecord>, peer: PeerId)
    ensures
        match first_index(record_ids(records), peer) {
            Some(i) => 0 <= i < records.len() && records[i].peer_id == peer && record_of(
                records,
                peer,
            ) == Some(records[i]),
            None => record_of(records, peer) is None,
        },
{
    lemma_first_index(record_ids(records), peer);
}

/// What a reconciliation pass adds to the records: the records that were
/// there stay in front, and behind them stand fresh records of desired peers,
/// with no peer twice.
pub proof fn lemma_extended_records(
    records: Seq<ConnectionRecord>,
    peers: Seq<PeerId>,
    eligible: Seq<EligiblePeerView>,
    seeds: Seq<SeedPeerView>,
)
    requires
        distinct(record_ids(records)),
    ensures
        ({
            let extended = with_records_for(records, peers, eligible, seeds);
            &&& records.len() <= extended.len()
            &&& forall|i: int| 0 <= i < records.len() ==> extended[i] == records[i]
            &&& forall|i: int|
                records.len() <= i < extended.len() ==> extended[i] == fresh_record(
                    #[trigger] extended[i].peer_id,
                ) && desired_address(eligible, seeds, extended[i].peer_id) is Some
            &&& distinct(record_ids(extended))
        }),
    decreases peers.len(),
{
    if peers.len() > 0 {
        lemma_extended_records(records, peers.drop_last(), eligible, seeds);
        let earlier = with_records_for(records, peers.drop_last(), eligible, seeds);
        let extended = with_record_for(earlier, peers.last(), eligible, seeds);
        if extended.len() > earlier.len() {
            lemma_pushed_distinct(earlier, fresh_record(peers.last()));
        }
    }
}

/// Every command of a reconciliation pass is the command of one of the
/// records.
pub proof fn lemma_tick_command_source(
    records: Seq<ConnectionRecord>,
    eligible: Seq<EligiblePeerView>,
    seeds: Seq<SeedPeerView>,
    now_ms: u64,
    command: CommandView,
) -> (i: int)
    requires
        tick_commands(records, eligible, seeds, now_ms).contains(command),
    ensures
        0 <= i < records.len(),
        tick_command(records[i], desired_address(eligible, seeds, records[i].peer_id), now_ms)
            == Some(command),
    decreases records.len(),
{
    let commands = tick_commands(records, eligible, seeds, now_ms);
    if records.len() == 0 {
        0
    } else {
        let earlier = tick_commands(records.drop_last(), eligible, seeds, now_ms);
        let last = records.last();
        let own = tick_command(last, desired_address(eligible, seeds, last.peer_id), now_ms);
        if earlier.contains(command) {
            lemma_tick_command_source(records.drop_last(), eligible, seeds, now_ms, command)
        } else {
            let at = choose|k: int| 0 <= k < commands.len() && commands[k] == command;
            assert(own is Some);
            if at < earlier.len() {
                assert(earlier[at] == command);
            }
            records.len() - 1
        }
    }
}

/// The command of every record is among the commands of a reconciliation
/// pass.
pub proof fn lemma_tick_command_issued(
    records: Seq<ConnectionRecord>,
    eligible: Seq<EligiblePeerView>,
    seeds: Seq<SeedPeerView>,
    now_ms: u64,
    i: int,
)
    requires
        0 <= i < records.len(),
        tick_command(records[i], desired_address(eligible, seeds, records[i].peer_id), now_ms)
            is Some,
    ensures
        tick_commands(records, eligible, seeds, now_ms).contains(
            tick_command(
                records[i],
                desired_address(eligible, seeds, records[i].peer_id),
                now_ms,
            )->0,
        ),
    decreases records.len(),
{
    let commands = tick_commands(records, eligible, seeds, now_ms);
    let earlier = tick_commands(records.drop_last(), eligible, seeds, now_ms);
    let last = records.last();
    let own = tick_command(last, desired_address(eligible, seeds, last.peer_id), now_ms);
    let wanted = tick_command(
        records[i],
        desired_address(eligible, seeds, records[i].peer_id),
        now_ms,
    )->0;
    if i == records.len() - 1 {
        assert(commands == earlier.push(wanted));
        assert(commands[earlier.len() as int] == wanted);
    } else {
        lemma_tick_command_issued(records.drop_last(), eligible, seeds, now_ms, i);
        let at = choose|k: int| 0 <= k < earlier.len() && earlier[k] == wanted;
        assert(commands[at] == wanted);
    }
}

/// The record of a peer after a reconciliation pass, for a peer that had one
/// before.
pub proof fn lemma_record_after_tick(state: ManagerState, peer: PeerId, now_ms: u64)
    requires
        state.wf(),
        record_of(state.records, peer) is Some,
    ensures
        record_of(state.after_tick(now_ms).state.records, peer) == Some(
            tick_record(
                record_of(state.records, peer)->0,
                state.desired(peer),
                state.policy,
                now_ms,
            ),
        ),
{
    let extended = state.extended_records();
    lemma_extended_records(state.records, state.candidates(), state.eligible, state.seeds);
    lemma_record_of(state.records, peer);
    let i = first_index(record_ids(state.records), peer)->0;
    assert(extended[i] == state.records[i]);
    lemma_record_at(extended, i);
    lemma_ticked_ids(state, extended, now_ms);
    lemma_record_of(state.after_tick(now_ms).state.records, peer);
}

/// No duplicate dials: while a dial of a peer is outstanding, no event but
/// news of that dial (the peer connected, the peer disconnected, the dial
/// never left) makes the engine dial the peer again, and the dial stays
/// outstanding.
pub proof fn lemma_no_duplicate_dials(state: ManagerState, peer: PeerId, event: EventView)
    requires
        state.wf(),
        record_of(state.records, peer) matches Some(record) && record.state is Dialing,
        event != (EventView::Connected { peer }),
        event != (EventView::Disconnected { peer }),
        event != (EventView::DialRejected { peer }),
    ensures
        forall|address: Seq<Protocol>|
            !(#[trigger] state.step(event).commands.contains(CommandView::Dial(peer, address))),
        record_of(state.step(event).state.records, peer) matches Some(record)
            && record.state is Dialing,
{
    let ids = record_ids(state.records);
    lemma_record_of(state.records, peer);
    let i = first_index(ids, peer)->0;
    let after = state.step(event).state.records;
    match event {
        EventView::Tick { now_ms } => {
            lemma_record_after_tick(state, peer, now_ms);
            let extended = state.extended_records();
            lemma_extended_records(
                state.records,
                state.candidates(),
                state.eligible,
                state.seeds,
            );
            assert forall|address: Seq<Protocol>|
                !(#[trigger] state.step(event).commands.contains(
                    CommandView::Dial(peer, address),
                )) by {
                let command = CommandView::Dial(peer, address);
                if state.step(event).commands.contains(command) {
                    let k = lemma_tick_command_source(
                        extended,
                        state.eligible,
                        state.seeds,
                        now_ms,
                        command,
                    );
                    assert(extended[k].peer_id == peer);
                    assert(extended[i] == state.records[i]);
                    lemma_record_at(extended, k);
                    lemma_record_at(extended, i);
                }
            }
        },
        EventView::Connected { peer: other } => {
            lemma_record_of(state.records, other);
            lemma_other_record_kept(state.records, after, peer, i);
        },
        EventView::Disconnected { peer: other } => {
            lemma_record_of(state.records, other);
            let found = first_index(ids, other);
            if found is Some && state.desired(other) is None {
                let at = found->0;
                lemma_removed_distinct(state.records, at);
                let moved = if i < at {
                    i
                } else {
                    i - 1
                };
                assert(after[moved] == state.records[i]);
                lemma_record_at(after, moved);
            } else {
                lemma_other_record_kept(state.records, after, peer, i);
            }
        },
        EventView::UpdateEligibleNodes { snapshot } => {
            assert(record_ids(after) =~= ids);
            lemma_record_of(after, peer);
        },
        EventView::DialRejected { peer: other } => {
            lemma_record_of(state.records, other);
            lemma_other_record_kept(state.records, after, peer, i);
        },
        EventView::DisconnectRejected { peer: other } => {
            lemma_record_of(state.records, other);
            lemma_other_record_kept(state.records, after, peer, i);
        },
        EventView::QueryDialQueueDepth => {},
    }
}

/// The engine keeps its records distinct: whatever the event, a well-formed
/// state is followed by a well-formed state.
pub proof fn lemma_step_keeps_wf(state: ManagerState, event: EventView)
    requires
        state.wf(),
    ensures
        state.step(event).state.wf(),
{
    let ids = record_ids(state.records);
    let after = state.step(event).state.records;
    match event {
        EventView::Tick { now_ms } => {
            lemma_extended_records(
                state.records,
                state.candidates(),
                state.eligible,
                state.seeds,
            );
            lemma_ticked_ids(state, state.extended_records(), now_ms);
        },
        EventView::Connected { peer } => {
            lemma_record_of(state.records, peer);
            if first_index(ids, peer) is Some {
                assert(record_ids(after) =~= ids);
            } else if state.desired(peer) is Some {
                lemma_pushed_distinct(state.records, after.last());
            }
        },
        EventView::Disconnected { peer } => {
            lemma_record_of(state.records, peer);
            if first_index(ids, peer) is Some {
                if state.desired(peer) is Some {
                    assert(record_ids(after) =~= ids);
                } else {
                    lemma_removed_distinct(state.records, first_index(ids, peer)->0);
                }
            }
        },
        EventView::UpdateEligibleNodes { snapshot } => {
            assert(record_ids(after) =~= ids);
        },
        EventView::DialRejected { peer } => {
            lemma_record_of(state.records, peer);
            assert(record_ids(after) =~= ids);
        },
        EventView::DisconnectRejected { peer } => {
            lemma_record_of(state.records, peer);
            if first_index(ids, peer) is Some {
                assert(record_ids(after) =~= ids);
            } else {
                lemma_pushed_distinct(state.records, after.last());
            }
        },
        EventView::QueryDialQueueDepth => {},
    }
}

/// Every desired peer among those that a pass looks at has a record when the
/// pass sets to work.
pub proof fn lemma_extended_covers(
    records: Seq<ConnectionRecord>,
    peers: Seq<PeerId>,
    eligible: Seq<EligiblePeerView>,
    seeds: Seq<SeedPeerView>,
    k: int,
)
    requires
        distinct(record_ids(records)),
        0 <= k < peers.len(),
        desired_address(eligible, seeds, peers[k]) is Some,
    ensures
        first_index(record_ids(with_records_for(records, peers, eligible, seeds)), peers[k])
            is Some,
    decreases peers.len(),
{
    let earlier = with_records_for(records, peers.drop_last(), eligible, seeds);
    let extended = with_records_for(records, peers, eligible, seeds);
    if k == peers.len() - 1 {
        if first_index(record_ids(earlier), peers[k]) is None {
            lemma_first_index(record_ids(extended), peers[k]);
            assert(record_ids(extended)[earlier.len() as int] == peers[k]);
        }
    } else {
        lemma_extended_covers(records, peers.drop_last(), eligible, seeds, k);
        lemma_first_index_prefix(record_ids(earlier), record_ids(extended), peers[k]);
    }
}

/// A desired peer is listed by the registry or by the address book.
pub proof fn lemma_desired_is_candidate(state: ManagerState, peer: PeerId) -> (k: int)
    requires
        state.desired(peer) is Some,
    ensures
        0 <= k < state.candidates().len(),
        state.candidates()[k] == peer,
{
    let listed = eligible_ids(state.eligible);
    let booked = seed_ids(state.seeds);
    lemma_first_index(listed, peer);
    lemma_first_index(booked, peer);
    if first_index(listed, peer) is Some {
        first_index(listed, peer)->0
    } else {
        listed.len() + first_index(booked, peer)->0
    }
}

/// A pass dials whom it should: every desired peer that has no record yet,
/// or that is not connected and whose backoff has elapsed, is dialled at the
/// address under which it is desired, and has a dial outstanding afterwards.
pub proof fn lemma_desired_peer_is_dialled(state: ManagerState, peer: PeerId, now_ms: u64)
    requires
        state.wf(),
        state.desired(peer) is Some,
        match record_of(state.records, peer) {
            Some(record) => dial_due(record, state.desired(peer), now_ms),
            None => true,
        },
    ensures
        state.after_tick(now_ms).commands.contains(
            CommandView::Dial(peer, state.desired(peer)->0),
        ),
        record_of(state.after_tick(now_ms).state.records, peer) matches Some(record)
            && record.state is Dialing,
{
    let extended = state.extended_records();
    lemma_extended_records(state.records, state.candidates(), state.eligible, state.seeds);
    let k = lemma_desired_is_candidate(state, peer);
    lemma_extended_covers(state.records, state.candidates(), state.eligible, state.seeds, k);
    lemma_record_of(extended, peer);
    lemma_record_of(state.records, peer);
    let i = first_index(record_ids(extended), peer)->0;
    if i < state.records.len() {
        assert(state.records[i] == extended[i]);
        lemma_record_at(state.records, i);
    }
    assert(dial_due(extended[i], state.desired(peer), now_ms));
    lemma_tick_command_issued(extended, state.eligible, state.seeds, now_ms, i);
    lemma_ticked_ids(state, extended, now_ms);
    lemma_record_of(state.after_tick(now_ms).state.records, peer);
}

/// Backoff grows and is capped: when a dial comes to nothing, the peer is
/// not dialled again before the delay that was pending has passed, and the
/// delay pending from then on is at least as long, and no longer than the
/// maximum. Nothing but a connection shortens it. Where the pending delay is
/// not zero and the dial did not fall at the end of time, the next retry is
/// strictly later than the dial.
pub proof fn lemma_failed_dial_backs_off(state: ManagerState, peer: PeerId, now_ms: u64)
    requires
        state.wf(),
        record_of(state.records, peer) matches Some(record) && dial_due(
            record,
            state.desired(peer),
            now_ms,
        ),
    ensures
        ({
            let before = record_of(state.records, peer)->0;
            let dialled = state.step(EventView::Tick { now_ms }).state;
            let failed = dialled.step(EventView::Disconnected { peer }).state;
            &&& record_of(failed.records, peer) matches Some(after)
            &&& after.state is NotConnected
            &&& after.cursor == before.cursor.advanced(state.policy, now_ms)
            &&& after.cursor.next_retry_ms == saturating_sum(
                now_ms,
                before.cursor.pending_delay(state.policy),
            )
            &&& before.cursor.pending_delay(state.policy) <= after.cursor.pending_delay(
                state.policy,
            )
            &&& after.cursor.pending_delay(state.policy) <= state.policy.max_delay_ms
            &&& before.cursor.pending_delay(state.policy) > 0 && now_ms < u64::MAX
                ==> after.cursor.next_retry_ms > now_ms
            &&& forall|later_ms: u64|
                later_ms < after.cursor.next_retry_ms ==> !dial_due(
                    after,
                    failed.desired(peer),
                    later_ms,
                )
        }),
{
    let before = record_of(state.records, peer)->0;
    let dialled = state.step(EventView::Tick { now_ms }).state;
    lemma_record_after_tick(state, peer, now_ms);
    lemma_step_keeps_wf(state, EventView::Tick { now_ms });
    lemma_record_of(dialled.records, peer);
    let i = first_index(record_ids(dialled.records), peer)->0;
    let failed = dialled.step(EventView::Disconnected { peer }).state;
    assert(record_ids(failed.records) =~= record_ids(dialled.records));
    lemma_record_of(failed.records, peer);
    lemma_backoff_grows_to_cap(state.policy, before.cursor, now_ms);
}

/// Backoff starts over on success: once a desired peer is connected, the
/// delay pending for it is the base delay, whatever had accumulated, and so
/// it stays when the connection is lost.
pub proof fn lemma_connection_resets_backoff(state: ManagerState, peer: PeerId)
    requires
        state.wf(),
        state.desired(peer) is Some,
    ensures
        ({
            let connected = state.step(EventView::Connected { peer }).state;
            let lost = connected.step(EventView::Disconnected { peer }).state;
            &&& record_of(connected.records, peer) matches Some(record)
            &&& record.state is Connected
            &&& record.cursor == BackoffCursor::initial()
            &&& record_of(lost.records, peer) matches Some(after)
            &&& after.state is NotConnected
            &&& after.cursor == BackoffCursor::initial()
            &&& after.cursor.pending_delay(state.policy) == state.policy.base_delay()
        }),
{
    let connected = state.step(EventView::Connected { peer }).state;
    lemma_record_of(state.records, peer);
    lemma_record_of(connected.records, peer);
    lemma_first_index(record_ids(state.records), peer);
    lemma_first_index(record_ids(connected.records), peer);
    if first_index(record_ids(state.records), peer) is Some {
        assert(record_ids(connected.records) =~= record_ids(state.records));
    } else {
        assert(record_ids(connected.records).drop_last() =~= record_ids(state.records));
    }
    let lost = connected.step(EventView::Disconnected { peer }).state;
    assert(record_ids(lost.records) =~= record_ids(connected.records));
    lemma_record_of(lost.records, peer);
}

/// Every command of a pass goes by the registry and the address book as they
/// stand at the pass: a dial goes to a desired peer, at the address under
/// which it is desired, and a disconnect goes to a peer that is not desired.
pub proof fn lemma_pass_goes_by_its_state(state: ManagerState, now_ms: u64, command: CommandView)
    requires
        state.wf(),
        state.after_tick(now_ms).commands.contains(command),
    ensures
        match command {
            CommandView::Dial(peer, address) => state.desired(peer) == Some(address),
            CommandView::Disconnect(peer) => state.desired(peer) is None && (record_of(
                state.records,
                peer,
            ) matches Some(record) && record.state is Connected),
        },
{
    let extended = state.extended_records();
    lemma_extended_records(state.records, state.candidates(), state.eligible, state.seeds);
    let k = lemma_tick_command_source(extended, state.eligible, state.seeds, now_ms, command);
    if k < state.records.len() {
        assert(extended[k] == state.records[k]);
        lemma_record_at(state.records, k);
    }
}

/// A peer that is not desired is never dialled, whatever the event.
pub proof fn lemma_undesired_peer_is_not_dialled(
    state: ManagerState,
    peer: PeerId,
    event: EventView,
)
    requires
        state.wf(),
        state.desired(peer) is None,
    ensures
        forall|address: Seq<Protocol>|
            !(#[trigger] state.step(event).commands.contains(CommandView::Dial(peer, address))),
{
    assert forall|address: Seq<Protocol>|
        !(#[trigger] state.step(event).commands.contains(
            CommandView::Dial(peer, address),
        )) by {
        let command = CommandView::Dial(peer, address);
        if state.step(event).commands.contains(command) {
            match event {
                EventView::Tick { now_ms } => {
                    lemma_pass_goes_by_its_state(state, now_ms, command);
                },
                EventView::Connected { peer: other } => {
                    assert(state.step(event).commands[0] == command);
                },
                _ => {},
            }
        }
    }
}

/// Eviction: a connected peer that a new snapshot of the registry leaves
/// without an address, and that the address book does not know either, is
/// disconnected by the next pass, whenever that falls.
pub proof fn lemma_evicted_peer_is_disconnected(
    state: ManagerState,
    peer: PeerId,
    snapshot: Seq<EligiblePeerView>,
    now_ms: u64,
)
    requires
        state.wf(),
        record_of(state.records, peer) matches Some(record) && record.state is Connected,
        desired_address(snapshot, state.seeds, peer) is None,
    ensures
        ({
            let updated = state.step(EventView::UpdateEligibleNodes { snapshot }).state;
            let passed = updated.step(EventView::Tick { now_ms });
            &&& passed.commands.contains(CommandView::Disconnect(peer))
            &&& record_of(passed.state.records, peer) matches Some(record)
            &&& record.state is NotConnected
            &&& passed.state.desired(peer) is None
        }),
{
    let updated = state.step(EventView::UpdateEligibleNodes { snapshot }).state;
    lemma_step_keeps_wf(state, EventView::UpdateEligibleNodes { snapshot });
    assert(record_ids(updated.records) =~= record_ids(state.records));
    lemma_record_of(state.records, peer);
    lemma_record_of(updated.records, peer);
    let i = first_index(record_ids(updated.records), peer)->0;
    let extended = updated.extended_records();
    lemma_extended_records(
        updated.records,
        updated.candidates(),
        updated.eligible,
        updated.seeds,
    );
    assert(extended[i] == updated.records[i]);
    lemma_tick_command_issued(extended, updated.eligible, updated.seeds, now_ms, i);
    lemma_record_after_tick(updated, peer, now_ms);
}

/// Snapshot atomicity: a pass that follows an update goes by the new
/// snapshot alone. Each of its dials goes to the address that the new
/// snapshot gives, or else the address book; each of its disconnects goes to
/// a peer for which these two give none. The snapshot that was replaced has
/// no say.
pub proof fn lemma_pass_sees_one_snapshot(
    state: ManagerState,
    snapshot: Seq<EligiblePeerView>,
    now_ms: u64,
    command: CommandView,
)
    requires
        state.wf(),
        state.step(EventView::UpdateEligibleNodes { snapshot }).state.step(
            EventView::Tick { now_ms },
        ).commands.contains(command),
    ensures
        state.step(EventView::UpdateEligibleNodes { snapshot }).state.eligible == snapshot,
        match command {
            CommandView::Dial(peer, address) => desired_address(snapshot, state.seeds, peer)
                == Some(address),
            CommandView::Disconnect(peer) => desired_address(snapshot, state.seeds, peer)
                is None,
        },
{
    lemma_step_keeps_wf(state, EventView::UpdateEligibleNodes { snapshot });
    lemma_pass_goes_by_its_state(
        state.step(EventView::UpdateEligibleNodes { snapshot }).state,
        now_ms,
        command,
    );
}

/// A record that stays where it is, among records of which none before it
/// takes its peer's name, is still the record of its peer.
proof fn lemma_other_record_kept(
    before: Seq<ConnectionRecord>,
    after: Seq<ConnectionRecord>,
    peer: PeerId,
    i: int,
)
    requires
        first_index(record_ids(before), peer) == Some(i),
        0 <= i < before.len() <= after.len(),
        after[i] == before[i],
        forall|j: int| 0 <= j < i ==> after[j].peer_id == before[j].peer_id,
    ensures
        record_of(after, peer) == Some(before[i]),
{
    lemma_first_index(record_ids(before), peer);
    lemma_first_index(record_ids(after), peer);
    assert(record_ids(after)[i] == peer);
    assert forall|j: int| 0 <= j < i implies record_ids(after)[j] != peer by {
        assert(record_ids(before)[j] != peer);
    }
}

} // verus!

//! Connection records, the commands that go out to the connection gateway,
//! and the events that come in.

use vstd::prelude::*;
use crate::address::{NetworkAddress, Protocol};
use crate::backoff::{BackoffCursor, BackoffPolicy};
use crate::identity::PeerId;
use crate::registry::{EligiblePeerView, Registry};

verus! {

/// What is known of the connection to a peer.
#[derive(Clone, Copy, Debug, PartialEq, Eq, Structural)]
pub enum ConnectionState {
    NotConnected,
    /// A dial has gone out and nothing has been heard of it yet.
    Dialing,
    Connected,
}

/// What the engine remembers of one peer.
#[derive(Clone, Copy, Debug, PartialEq, Eq, Structural)]
pub struct ConnectionRecord {
    pub peer_id: PeerId,
    pub state: ConnectionState,
    pub cursor: BackoffCursor,
    /// How many dials have gone out for the peer since the record was made.
    pub dial_seq: u64,
}

/// A command to the connection gateway.
#[derive(Clone, Debug, PartialEq, Eq)]
pub enum Command {
    Dial(PeerId, NetworkAddress),
    Disconnect(PeerId),
}

/// A command with its address as a sequence of segments.
pub enum CommandView {
    Dial(PeerId, Seq<Protocol>),
    Disconnect(PeerId),
}

/// What the engine reacts to.
#[derive(Debug, PartialEq, Eq)]
pub enum Event {
    /// The periodic tick, with the time at which it fell.
    Tick { now_ms: u64 },
    /// The gateway holds a connection with the peer, at the given address.
    Connected { peer: PeerId, address: NetworkAddress },
    /// The gateway holds no connection with the peer: one was lost, or a
    /// dial came to nothing.
    Disconnected { peer: PeerId },
    /// The set of eligible peers is now the given one.
    UpdateEligibleNodes(Registry),
    /// The command could not be handed to the gateway, whose queue was full.
    CommandRejected(Command),
    /// How many dials are outstanding?
    QueryDialQueueDepth,
}

/// An event with its addresses left out or viewed.
pub enum EventView {
    Tick { now_ms: u64 },
    Connected { peer: PeerId },
    Disconnected { peer: PeerId },
    UpdateEligibleNodes { snapshot: Seq<EligiblePeerView> },
    DialRejected { peer: PeerId },
    DisconnectRejected { peer: PeerId },
    QueryDialQueueDepth,
}

/// What the engine answers to an event.
#[derive(Debug, PartialEq, Eq)]
pub struct Outcome {
    /// The commands to hand to the gateway, in order.
    pub commands: Vec<Command>,
    /// The number of outstanding dials, where the event asked for it.
    pub dial_queue_depth: Option<usize>,
}

impl View for Command {
    type V = CommandView;

    open spec fn view(&self) -> CommandView {
        match *self {
            Command::Dial(peer, address) => CommandView::Dial(peer, address@),
            Command::Disconnect(peer) => CommandView::Disconnect(peer),
        }
    }
}

impl View for Event {
    type V = EventView;

    open spec fn view(&self) -> EventView {
        match *self {
            Event::Tick { now_ms } => EventView::Tick { now_ms },
            Event::Connected { peer, address } => EventView::Connected { peer },
            Event::Disconnected { peer } => EventView::Disconnected { peer },
            Event::UpdateEligibleNodes(snapshot) => EventView::UpdateEligibleNodes {
                snapshot: snapshot@,
            },
            Event::CommandRejected(Command::Dial(peer, _)) => EventView::DialRejected { peer },
            Event::CommandRejected(Command::Disconnect(peer)) => EventView::DisconnectRejected {
                peer,
            },
            Event::QueryDialQueueDepth => EventView::QueryDialQueueDepth,
        }
    }
}

/// The views of a sequence of commands.
pub open spec fn command_views(commands: Seq<Command>) -> Seq<CommandView> {
    Seq::new(commands.len(), |i: int| commands[i]@)
}

/// The record of a peer that the engine has not dealt with before.
pub open spec fn fresh_record(peer: PeerId) -> ConnectionRecord {
    ConnectionRecord {
        peer_id: peer,
        state: ConnectionState::NotConnected,
        cursor: BackoffCursor::initial(),
        dial_seq: 0,
    }
}

/// Whether a reconciliation pass at `now_ms` dials the peer of the record,
/// given the address under which the peer is desired, if it is.
pub open spec fn dial_due(
    record: ConnectionRecord,
    target: Option<Seq<Protocol>>,
    now_ms: u64,
) -> bool {
    record.state is NotConnected && target is Some && record.cursor.due(now_ms)
}

/// Whether a reconciliation pass disconnects the peer of the record.
pub open spec fn eviction_due(record: ConnectionRecord, target: Option<Seq<Protocol>>) -> bool {
    record.state is Connected && target is None
}

/// The record after a reconciliation pass at `now_ms`.
pub open spec fn tick_record(
    record: ConnectionRecord,
    target: Option<Seq<Protocol>>,
    policy: BackoffPolicy,
    now_ms: u64,
) -> ConnectionRecord {
    if dial_due(record, target, now_ms) {
        ConnectionRecord {
            peer_id: record.peer_id,
            state: ConnectionState::Dialing,
            cursor: record.cursor.advanced(policy, now_ms),
            dial_seq: if record.dial_seq < u64::MAX {
                (record.dial_seq + 1) as u64
            } else {
                u64::MAX
            },
        }
    } else if eviction_due(record, target) {
        ConnectionRecord {
            peer_id: record.peer_id,
            state: ConnectionState::NotConnected,
            cursor: record.cursor,
            dial_seq: record.dial_seq,
        }
    } else {
        record
    }
}

/// The command that a reconciliation pass at `now_ms` issues for the record.
pub open spec fn tick_command(
    record: ConnectionRecord,
    target: Option<Seq<Protocol>>,
    now_ms: u64,
) -> Option<CommandView> {
    if dial_due(record, target, now_ms) {
        Some(CommandView::Dial(record.peer_id, target->0))
    } else if eviction_due(record, target) {
        Some(CommandView::Disconnect(record.peer_id))
    } else {
        None
    }
}

} // verus!

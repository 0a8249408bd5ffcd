//! The configuration of a node, gathered step by step and settled as a whole.
//!
//! A [`NetworkBuilder`] collects what a node is to run with. Nothing runs
//! while it is being filled: protocol handlers and listeners are entered, not
//! started, and every channel is described by its depth and overflow policy,
//! not created. [`NetworkBuilder::build`] consumes the builder, checks the
//! whole, and hands back the [`NetworkPlan`] from which the node is started;
//! after that nothing can be added or changed.

use vstd::prelude::*;
use std::collections::HashMap;
use crate::address::{
    address_text, transport_of, with_prod_protos, NetworkAddress, Protocol, TransportKind,
    HANDSHAKE_VERSION,
};
use crate::backoff::{BackoffPolicy, BACKOFF_BASE_MS, BACKOFF_FACTOR, MAX_CONNECTION_DELAY_MS};
use crate::identity::{
    identity_of, public_key_of, AuthenticationMode, PeerId, PublicKey, ResolvedIdentity,
};
use crate::manager::ConnectivityManager;
use crate::model::ManagerState;
use crate::registry::{EligiblePeerView, Registry, SeedPeerView, SeedPeers};

verus! {

pub const NETWORK_CHANNEL_SIZE: usize = 1024;

pub const DISCOVERY_INTERVAL_MS: u64 = 1000;

pub const PING_INTERVAL_MS: u64 = 1000;

pub const PING_TIMEOUT_MS: u64 = 10000;

pub const DISOVERY_MSG_TIMEOUT_MS: u64 = 10000;

pub const CONNECTIVITY_CHECK_INTERNAL_MS: u64 = 5000;

pub const INBOUND_RPC_TIMEOUT_MS: u64 = 10000;

pub const MAX_CONCURRENT_OUTBOUND_RPCS: u32 = 100;

pub const MAX_CONCURRENT_INBOUND_RPCS: u32 = 100;

pub const PING_FAILURES_TOLERATED: u64 = 10;

pub const MAX_CONCURRENT_NETWORK_REQS: usize = 100;

pub const MAX_CONCURRENT_NETWORK_NOTIFS: usize = 100;

/// The part that a node plays.
#[derive(Clone, Copy, Debug, PartialEq, Eq, Structural)]
pub enum RoleType {
    Validator,
    FullNode,
}

/// The network that a node belongs to.
#[derive(Clone, Debug, PartialEq, Eq)]
pub enum NetworkId {
    Validator,
    Public,
    Private(String),
}

/// An application-level protocol that rides on authenticated connections.
#[derive(Clone, Copy, Debug, PartialEq, Eq, Structural)]
pub enum ProtocolId {
    ConsensusRpc,
    ConsensusDirectSend,
    MempoolDirectSend,
    StateSynchronizerDirectSend,
    DiscoveryDirectSend,
    HealthCheckerRpc,
    IdentityDirectSend,
}

/// What a full queue does with a new message: `FIFO` turns the new message
/// away, `LIFO` drops the oldest to make room.
#[allow(clippy::upper_case_acronyms)]
#[derive(Clone, Copy, Debug, PartialEq, Eq, Structural)]
pub enum QueueStyle {
    FIFO,
    LIFO,
}

/// A channel as it will be created: its depth and what it does when full.
/// Both are settled when the channel is entered and stay as they are.
#[derive(Clone, Copy, Debug, PartialEq, Eq, Structural)]
pub struct ChannelConfig {
    pub capacity: usize,
    pub style: QueueStyle,
}

/// Who listens to connection events.
#[derive(Clone, Copy, Debug, PartialEq, Eq, Structural)]
pub enum Listener {
    /// The protocol handler with the given number.
    Handler(usize),
    /// The connectivity manager.
    ConnectivityManager,
    /// A listener entered on its own.
    Standalone,
}

/// What a protocol handler is given when it is entered: its number among
/// the handlers, and its number among the listeners to connection events.
#[derive(Clone, Copy, Debug, PartialEq, Eq, Structural)]
pub struct HandlerEndpoints {
    pub handler: usize,
    pub listener: usize,
}

/// Why a configuration cannot be started.
#[derive(Clone, Copy, Debug, PartialEq, Eq, Structural)]
pub enum ConfigError {
    AuthenticationModeNotSet,
    ConnectivityManagerNotEnabled,
    UnsupportedListenAddress,
}

/// What the connectivity manager is started with.
#[derive(Debug, PartialEq, Eq)]
pub struct ConnectivitySettings {
    pub peer_id: PeerId,
    pub seed_peers: SeedPeers,
    pub check_interval_ms: u64,
    pub policy: BackoffPolicy,
    /// The channel on which requests reach the manager.
    pub requests: ChannelConfig,
    /// The manager's number among the listeners to connection events.
    pub listener: usize,
}

/// What the gossip discovery protocol is started with.
#[derive(Debug, PartialEq, Eq)]
pub struct DiscoverySettings {
    pub peer_id: PeerId,
    pub role: RoleType,
    /// The addresses that the node advertises.
    pub addresses: Vec<NetworkAddress>,
    pub interval_ms: u64,
    pub endpoints: HandlerEndpoints,
}

/// What the health checker is started with.
#[derive(Clone, Copy, Debug, PartialEq, Eq, Structural)]
pub struct HealthCheckerSettings {
    pub ping_interval_ms: u64,
    pub ping_timeout_ms: u64,
    pub ping_failures_tolerated: u64,
    pub endpoints: HandlerEndpoints,
}

/// The configuration of a node while it is gathered.
#[derive(Debug, PartialEq, Eq)]
pub struct NetworkBuilder {
    pub network_id: NetworkId,
    pub peer_id: PeerId,
    pub role: RoleType,
    pub listen_address: NetworkAddress,
    pub advertised_address: Option<NetworkAddress>,
    pub seed_peers: SeedPeers,
    pub trusted_peers: Registry,
    pub authentication_mode: Option<AuthenticationMode>,
    pub channel_size: usize,
    pub direct_send_protocols: Vec<ProtocolId>,
    pub rpc_protocols: Vec<ProtocolId>,
    pub discovery_interval_ms: u64,
    pub ping_interval_ms: u64,
    pub ping_timeout_ms: u64,
    pub ping_failures_tolerated: u64,
    /// For the number of each protocol entered, the handler it goes to.
    /// Entering a protocol again replaces its handler.
    pub upstream_handlers: HashMap<u8, usize>,
    /// The notification channel of each handler, by the handler's number.
    pub handlers: Vec<ChannelConfig>,
    /// The listeners to connection events, by their number.
    pub connection_event_handlers: Vec<Listener>,
    /// The channel on which requests reach the gateway.
    pub pm_reqs: ChannelConfig,
    /// The channel on which dials and disconnects reach the gateway.
    pub connection_reqs: ChannelConfig,
    pub connectivity: Option<ConnectivitySettings>,
    pub discovery: Option<DiscoverySettings>,
    pub health_checker: Option<HealthCheckerSettings>,
    pub connectivity_check_interval_ms: u64,
    pub max_concurrent_network_reqs: usize,
    pub max_concurrent_network_notifs: usize,
    pub max_connection_delay_ms: u64,
}

/// A configuration that has been checked and settled. The node is started
/// from it, and nothing of it changes afterwards.
#[derive(Debug, PartialEq, Eq)]
pub struct NetworkPlan {
    /// The transport to listen with.
    pub transport: TransportKind,
    /// The key and the identity that the transport authenticates with.
    pub identity: ResolvedIdentity,
    pub handshake_version: u8,
    pub network_id: NetworkId,
    /// The protocols that the node speaks: direct-send first, then RPC.
    pub supported_protocols: Vec<ProtocolId>,
    /// The identity that the gateway was configured with.
    pub peer_id: PeerId,
    pub role: RoleType,
    pub listen_address: NetworkAddress,
    /// The eligible peers. The transport holds remote keys against them
    /// exactly when `identity.restrict_to_eligible` is set.
    pub trusted_peers: Registry,
    pub upstream_handlers: HashMap<u8, usize>,
    pub handlers: Vec<ChannelConfig>,
    pub connection_event_handlers: Vec<Listener>,
    pub pm_reqs: ChannelConfig,
    pub connection_reqs: ChannelConfig,
    pub max_concurrent_network_reqs: usize,
    pub max_concurrent_network_notifs: usize,
    pub channel_size: usize,
    pub connectivity: Option<ConnectivitySettings>,
    pub discovery: Option<DiscoverySettings>,
    pub health_checker: Option<HealthCheckerSettings>,
}

/// The number under which a protocol is entered.
pub open spec fn protocol_number(protocol: ProtocolId) -> u8 {
    match protocol {
        ProtocolId::ConsensusRpc => 0,
        ProtocolId::ConsensusDirectSend => 1,
        ProtocolId::MempoolDirectSend => 2,
        ProtocolId::StateSynchronizerDirectSend => 3,
        ProtocolId::DiscoveryDirectSend => 4,
        ProtocolId::HealthCheckerRpc => 5,
        ProtocolId::IdentityDirectSend => 6,
    }
}

/// The handler to which requests of a protocol go, if the protocol was
/// entered.
pub open spec fn handler_of(routes: Map<u8, usize>, protocol: ProtocolId) -> Option<usize> {
    if routes.dom().contains(protocol_number(protocol)) {
        Some(routes[protocol_number(protocol)])
    } else {
        None
    }
}

/// The routes after each of the protocols was entered for the handler, in
/// order.
pub open spec fn routes_to(routes: Map<u8, usize>, protocols: Seq<ProtocolId>, handler: usize) -> Map<
    u8,
    usize,
>
    decreases protocols.len(),
{
    if protocols.len() == 0 {
        routes
    } else {
        routes_to(routes, protocols.drop_last(), handler).insert(
            protocol_number(protocols.last()),
            handler,
        )
    }
}

/// Entering protocols in two goes is entering them in one.
proof fn lemma_routes_to_both(
    routes: Map<u8, usize>,
    first: Seq<ProtocolId>,
    second: Seq<ProtocolId>,
    handler: usize,
)
    ensures
        routes_to(routes_to(routes, first, handler), second, handler) == routes_to(
            routes,
            first + second,
            handler,
        ),
    decreases second.len(),
{
    if second.len() == 0 {
        assert(first + second =~= first);
    } else {
        lemma_routes_to_both(routes, first, second.drop_last(), handler);
        assert((first + second).drop_last() =~= first + second.drop_last());
    }
}

/// What stands in the way of starting a node with the given authentication
/// mode and listen address, if anything does. A missing mode is named before
/// an unsupported address.
pub open spec fn start_error(
    authentication_mode: Option<AuthenticationMode>,
    listen_address: Seq<Protocol>,
) -> Option<ConfigError> {
    if authentication_mode is None {
        Some(ConfigError::AuthenticationModeNotSet)
    } else if transport_of(listen_address) is None {
        Some(ConfigError::UnsupportedListenAddress)
    } else {
        None
    }
}

/// The address that a node advertises: the one configured for the purpose,
/// else the one it listens on, with the node's public key and the handshake
/// version appended.
pub open spec fn advertised(
    advertised_address: Option<NetworkAddress>,
    listen_address: NetworkAddress,
    public_key: PublicKey,
) -> Seq<Protocol> {
    with_prod_protos(
        match advertised_address {
            Some(address) => address@,
            None => listen_address@,
        },
        public_key,
        HANDSHAKE_VERSION,
    )
}

/// What entering a protocol handler changes in a builder: the handler takes
/// the next number among the handlers and among the listeners, its protocols
/// join those of the node, and inbound requests of each of them go to it from
/// now on.
pub open spec fn handler_entered(
    before: NetworkBuilder,
    after: NetworkBuilder,
    rpc_protocols: Seq<ProtocolId>,
    direct_send_protocols: Seq<ProtocolId>,
    notifications: ChannelConfig,
    endpoints: HandlerEndpoints,
) -> bool {
    &&& endpoints.handler == before.handlers@.len()
    &&& endpoints.listener == before.connection_event_handlers@.len()
    &&& after.direct_send_protocols@ == before.direct_send_protocols@ + direct_send_protocols
    &&& after.rpc_protocols@ == before.rpc_protocols@ + rpc_protocols
    &&& after.upstream_handlers@ == routes_to(
        before.upstream_handlers@,
        rpc_protocols + direct_send_protocols,
        endpoints.handler,
    )
    &&& after.handlers@ == before.handlers@.push(notifications)
    &&& after.connection_event_handlers@ == before.connection_event_handlers@.push(
        Listener::Handler(endpoints.handler),
    )
}

/// Whether two builders agree on everything but handlers, listeners,
/// protocols and the three optional components.
pub open spec fn same_settings(before: NetworkBuilder, after: NetworkBuilder) -> bool {
    after == (NetworkBuilder {
        direct_send_protocols: after.direct_send_protocols,
        rpc_protocols: after.rpc_protocols,
        upstream_handlers: after.upstream_handlers,
        handlers: after.handlers,
        connection_event_handlers: after.connection_event_handlers,
        connectivity: after.connectivity,
        discovery: after.discovery,
        health_checker: after.health_checker,
        ..before
    })
}

/// Whether a plan is what a builder settles to, given the authentication
/// mode, the transport and the node's public key.
pub open spec fn settled(
    builder: NetworkBuilder,
    plan: NetworkPlan,
    mode: AuthenticationMode,
    kind: TransportKind,
    public_key: PublicKey,
) -> bool {
    &&& plan.transport == kind
    &&& plan.identity == identity_of(mode, builder.peer_id, public_key)
    &&& plan.handshake_version == HANDSHAKE_VERSION
    &&& plan.network_id == builder.network_id
    &&& plan.supported_protocols@ == builder.direct_send_protocols@ + builder.rpc_protocols@
    &&& plan.peer_id == builder.peer_id
    &&& plan.role == builder.role
    &&& plan.listen_address == builder.listen_address
    &&& plan.trusted_peers == builder.trusted_peers
    &&& plan.upstream_handlers == builder.upstream_handlers
    &&& plan.handlers == builder.handlers
    &&& plan.connection_event_handlers == builder.connection_event_handlers
    &&& plan.pm_reqs == builder.pm_reqs
    &&& plan.connection_reqs == builder.connection_reqs
    &&& plan.max_concurrent_network_reqs == builder.max_concurrent_network_reqs
    &&& plan.max_concurrent_network_notifs == builder.max_concurrent_network_notifs
    &&& plan.channel_size == builder.channel_size
    &&& plan.connectivity == builder.connectivity
    &&& plan.discovery == builder.discovery
    &&& plan.health_checker == builder.health_checker
}

/// What stands in the way of adding gossip discovery, if anything does: it
/// needs the connectivity manager, and it needs the authentication mode. A
/// missing manager is named first.
pub open spec fn discovery_error(builder: NetworkBuilder) -> Option<ConfigError> {
    if builder.connectivity is None {
        Some(ConfigError::ConnectivityManagerNotEnabled)
    } else if builder.authentication_mode is None {
        Some(ConfigError::AuthenticationModeNotSet)
    } else {
        None
    }
}

/// Appends the protocols of `source` to `target`.
fn append_protocols(target: &mut Vec<ProtocolId>, source: &Vec<ProtocolId>)
    ensures
        final(target)@ == old(target)@ + source@,
{
    let mut i: usize = 0;
    while i < source.len()
        invariant
            i <= source.len(),
            target@ == old(target)@ + source@.take(i as int),
        decreases source.len() - i,
    {
        target.push(source[i]);
        assert(source@.take(i as int + 1) =~= source@.take(i as int).push(source@[i as int]));
        i = i + 1;
    }
    assert(source@.take(source.len() as int) =~= source@);
}

/// Enters each protocol of `source` for `handler`.
fn append_routes(target: &mut HashMap<u8, usize>, source: &Vec<ProtocolId>, handler: usize)
    ensures
        final(target)@ == routes_to(old(target)@, source@, handler),
{
    let mut i: usize = 0;
    while i < source.len()
        invariant
            i <= source.len(),
            target@ == routes_to(old(target)@, source@.take(i as int), handler),
        decreases source.len() - i,
    {
        proof {
            assert(source@.take(i as int + 1).drop_last() =~= source@.take(i as int));
        }
        target.insert(source[i].number(), handler);
        i = i + 1;
    }
    proof {
        assert(source@.take(source.len() as int) =~= source@);
    }
}

impl ProtocolId {
    /// The number under which the protocol is entered.
    pub fn number(&self) -> (number: u8)
        ensures
            number == protocol_number(*self),
    {
        match self {
            ProtocolId::ConsensusRpc => 0,
            ProtocolId::ConsensusDirectSend => 1,
            ProtocolId::MempoolDirectSend => 2,
            ProtocolId::StateSynchronizerDirectSend => 3,
            ProtocolId::DiscoveryDirectSend => 4,
            ProtocolId::HealthCheckerRpc => 5,
            ProtocolId::IdentityDirectSend => 6,
        }
    }
}

impl ConfigError {
    /// The words with which a failed start is reported.
    pub fn message(&self) -> (text: &'static str)
        ensures
            text@ == match *self {
                ConfigError::AuthenticationModeNotSet => "Authentication Mode not set"@,
                ConfigError::ConnectivityManagerNotEnabled => "ConnectivityManager not enabled"@,
                ConfigError::UnsupportedListenAddress => "Unsupported listen_address"@,
            },
    {
        match self {
            ConfigError::AuthenticationModeNotSet => "Authentication Mode not set",
            ConfigError::ConnectivityManagerNotEnabled => "ConnectivityManager not enabled",
            ConfigError::UnsupportedListenAddress => "Unsupported listen_address",
        }
    }
}

impl NetworkBuilder {
    /// A builder with the default configuration: no authentication mode, no
    /// eligible and no seed peers, no handlers and no listeners yet.
    pub fn new(
        network_id: NetworkId,
        peer_id: PeerId,
        role: RoleType,
        listen_address: NetworkAddress,
    ) -> (builder: NetworkBuilder)
        ensures
            builder.network_id == network_id,
            builder.peer_id == peer_id,
            builder.role == role,
            builder.listen_address == listen_address,
            builder.advertised_address is None,
            builder.seed_peers@ == Seq::<SeedPeerView>::empty(),
            builder.trusted_peers@ == Seq::<EligiblePeerView>::empty(),
            builder.authentication_mode is None,
            builder.channel_size == NETWORK_CHANNEL_SIZE,
            builder.direct_send_protocols@ == Seq::<ProtocolId>::empty(),
            builder.rpc_protocols@ == Seq::<ProtocolId>::empty(),
            builder.upstream_handlers@ == Map::<u8, usize>::empty(),
            builder.handlers@ == Seq::<ChannelConfig>::empty(),
            builder.connection_event_handlers@ == Seq::<Listener>::empty(),
            builder.pm_reqs == (ChannelConfig {
                capacity: NETWORK_CHANNEL_SIZE,
                style: QueueStyle::FIFO,
            }),
            builder.connection_reqs == (ChannelConfig {
                capacity: NETWORK_CHANNEL_SIZE,
                style: QueueStyle::FIFO,
            }),
            builder.connectivity is None,
            builder.discovery is None,
            builder.health_checker is None,
            builder.discovery_interval_ms == DISCOVERY_INTERVAL_MS,
            builder.ping_interval_ms == PING_INTERVAL_MS,
            builder.ping_timeout_ms == PING_TIMEOUT_MS,
            builder.ping_failures_tolerated == PING_FAILURES_TOLERATED,
            builder.connectivity_check_interval_ms == CONNECTIVITY_CHECK_INTERNAL_MS,
            builder.max_concurrent_network_reqs == MAX_CONCURRENT_NETWORK_REQS,
            builder.max_concurrent_network_notifs == MAX_CONCURRENT_NETWORK_NOTIFS,
            builder.max_connection_delay_ms == MAX_CONNECTION_DELAY_MS,
    {
        NetworkBuilder {
            network_id,
            peer_id,
            role,
            listen_address,
            advertised_address: None,
            seed_peers: SeedPeers::new(),
            trusted_peers: Registry::new(),
            authentication_mode: None,
            channel_size: NETWORK_CHANNEL_SIZE,
            direct_send_protocols: Vec::new(),
            rpc_protocols: Vec::new(),
            upstream_handlers: HashMap::new(),
            handlers: Vec::new(),
            connection_event_handlers: Vec::new(),
            pm_reqs: ChannelConfig { capacity: NETWORK_CHANNEL_SIZE, style: QueueStyle::FIFO },
            connection_reqs: ChannelConfig {
                capacity: NETWORK_CHANNEL_SIZE,
                style: QueueStyle::FIFO,
            },
            connectivity: None,
            discovery: None,
            health_checker: None,
            discovery_interval_ms: DISCOVERY_INTERVAL_MS,
            ping_interval_ms: PING_INTERVAL_MS,
            ping_timeout_ms: PING_TIMEOUT_MS,
            ping_failures_tolerated: PING_FAILURES_TOLERATED,
            connectivity_check_interval_ms: CONNECTIVITY_CHECK_INTERNAL_MS,
            max_concurrent_network_reqs: MAX_CONCURRENT_NETWORK_REQS,
            max_concurrent_network_notifs: MAX_CONCURRENT_NETWORK_NOTIFS,
            max_connection_delay_ms: MAX_CONNECTION_DELAY_MS,
        }
    }

    pub fn peer_id(&self) -> (peer_id: PeerId)
        ensures
            peer_id == self.peer_id,
    {
        self.peer_id
    }

    /// Sets the authentication mode.
    pub fn authentication_mode(&mut self, authentication_mode: AuthenticationMode) -> (this:
        &mut Self)
        ensures
            *this == (NetworkBuilder {
                authentication_mode: Some(authentication_mode),
                ..*old(self)
            }),
            *final(self) == *final(this),
    {
        self.authentication_mode = Some(authentication_mode);
        self
    }

    /// Sets the address to advertise, if it differs from the listen address.
    pub fn advertised_address(&mut self, advertised_address: NetworkAddress) -> (this: &mut Self)
        ensures
            *this == (NetworkBuilder {
                advertised_address: Some(advertised_address),
                ..*old(self)
            }),
            *final(self) == *final(this),
    {
        self.advertised_address = Some(advertised_address);
        self
    }

    /// Sets the eligible peers: the registry is replaced as a whole.
    pub fn trusted_peers(&mut self, trusted_peers: Registry) -> (this: &mut Self)
        ensures
            *this == (NetworkBuilder { trusted_peers, ..*old(self) }),
            *final(self) == *final(this),
    {
        self.trusted_peers = trusted_peers;
        self
    }

    /// Sets the seed peers.
    pub fn seed_peers(&mut self, seed_peers: SeedPeers) -> (this: &mut Self)
        ensures
            *this == (NetworkBuilder { seed_peers, ..*old(self) }),
            *final(self) == *final(this),
    {
        self.seed_peers = seed_peers;
        self
    }

    /// Sets the interval of the discovery ticker.
    pub fn discovery_interval_ms(&mut self, discovery_interval_ms: u64) -> (this: &mut Self)
        ensures
            *this == (NetworkBuilder { discovery_interval_ms, ..*old(self) }),
            *final(self) == *final(this),
    {
        self.discovery_interval_ms = discovery_interval_ms;
        self
    }

    /// Sets the interval of the connectivity check ticker.
    pub fn connectivity_check_interval_ms(&mut self, connectivity_check_interval_ms: u64) -> (this:
        &mut Self)
        ensures
            *this == (NetworkBuilder { connectivity_check_interval_ms, ..*old(self) }),
            *final(self) == *final(this),
    {
        self.connectivity_check_interval_ms = connectivity_check_interval_ms;
        self
    }

    /// The channel on which requests reach the connectivity manager, if one
    /// was added.
    pub fn conn_mgr_reqs_tx(&self) -> (requests: Option<ChannelConfig>)
        ensures
            requests == match self.connectivity {
                Some(settings) => Some(settings.requests),
                None => None,
            },
    {
        match &self.connectivity {
            Some(settings) => Some(settings.requests),
            None => None,
        }
    }
}

impl NetworkBuilder {
    /// The protocols that the node speaks: direct-send first, then RPC.
    pub fn supported_protocols(&self) -> (protocols: Vec<ProtocolId>)
        ensures
            protocols@ == self.direct_send_protocols@ + self.rpc_protocols@,
    {
        let mut protocols: Vec<ProtocolId> = Vec::new();
        append_protocols(&mut protocols, &self.direct_send_protocols);
        append_protocols(&mut protocols, &self.rpc_protocols);
        protocols
    }

    /// The handler to which inbound requests of a protocol go, if the
    /// protocol was entered.
    pub fn upstream_handler(&self, protocol: ProtocolId) -> (handler: Option<usize>)
        ensures
            handler == handler_of(self.upstream_handlers@, protocol),
    {
        match self.upstream_handlers.get(&protocol.number()) {
            Some(handler) => Some(*handler),
            None => None,
        }
    }

    /// Enters a handler for the given protocols. Its notifications will be
    /// queued `max_queue_size_per_peer` deep for each peer, and a full queue
    /// does what `queue_preference` says. The handler also listens to
    /// connection events.
    pub fn add_protocol_handler(
        &mut self,
        rpc_protocols: Vec<ProtocolId>,
        direct_send_protocols: Vec<ProtocolId>,
        queue_preference: QueueStyle,
        max_queue_size_per_peer: usize,
    ) -> (endpoints: HandlerEndpoints)
        requires
            max_queue_size_per_peer > 0,
        ensures
            handler_entered(
                *old(self),
                *final(self),
                rpc_protocols@,
                direct_send_protocols@,
                ChannelConfig { capacity: max_queue_size_per_peer, style: queue_preference },
                endpoints,
            ),
            same_settings(*old(self), *final(self)),
            final(self).connectivity == old(self).connectivity,
            final(self).discovery == old(self).discovery,
            final(self).health_checker == old(self).health_checker,
    {
        let handler = self.handlers.len();
        let listener = self.connection_event_handlers.len();
        append_protocols(&mut self.direct_send_protocols, &direct_send_protocols);
        append_protocols(&mut self.rpc_protocols, &rpc_protocols);
        self.handlers.push(
            ChannelConfig { capacity: max_queue_size_per_peer, style: queue_preference },
        );
        append_routes(&mut self.upstream_handlers, &rpc_protocols, handler);
        append_routes(&mut self.upstream_handlers, &direct_send_protocols, handler);
        self.connection_event_handlers.push(Listener::Handler(handler));
        proof {
            lemma_routes_to_both(
                old(self).upstream_handlers@,
                rpc_protocols@,
                direct_send_protocols@,
                handler,
            );
        }
        HandlerEndpoints { handler, listener }
    }

    /// Enters a listener to connection events and returns its number.
    pub fn add_connection_event_listener(&mut self) -> (listener: usize)
        ensures
            listener == old(self).connection_event_handlers@.len(),
            final(self).connection_event_handlers@ == old(self).connection_event_handlers@.push(
                Listener::Standalone,
            ),
            *final(self) == (NetworkBuilder {
                connection_event_handlers: final(self).connection_event_handlers,
                ..*old(self)
            }),
    {
        let listener = self.connection_event_handlers.len();
        self.connection_event_handlers.push(Listener::Standalone);
        listener
    }

    /// Adds the connectivity manager. It listens to connection events, is
    /// reached over a channel as deep as the builder's channel size, checks
    /// connectivity at the interval configured so far, and backs off from two
    /// seconds up to the maximum delay configured so far. The manager is
    /// given a copy of the seed peers as they are configured so far.
    pub fn add_connectivity_manager(&mut self) -> (this: &mut Self)
        ensures
            *final(self) == *final(this),
            this.connectivity matches Some(settings) && settings.peer_id == old(self).peer_id
                && settings.seed_peers@ == old(self).seed_peers@ && settings.check_interval_ms
                == old(self).connectivity_check_interval_ms && settings.policy == (BackoffPolicy {
                base_ms: BACKOFF_BASE_MS,
                factor: BACKOFF_FACTOR,
                max_delay_ms: old(self).max_connection_delay_ms,
            }) && settings.requests == (ChannelConfig {
                capacity: old(self).channel_size,
                style: QueueStyle::FIFO,
            }) && settings.listener == old(self).connection_event_handlers@.len(),
            this.connection_event_handlers@ == old(self).connection_event_handlers@.push(
                Listener::ConnectivityManager,
            ),
            *this == (NetworkBuilder {
                connectivity: this.connectivity,
                connection_event_handlers: this.connection_event_handlers,
                ..*old(self)
            }),
    {
        let listener = self.connection_event_handlers.len();
        self.connection_event_handlers.push(Listener::ConnectivityManager);
        let seed_peers = self.seed_peers.clone();
        self.connectivity = Some(
            ConnectivitySettings {
                peer_id: self.peer_id,
                seed_peers,
                check_interval_ms: self.connectivity_check_interval_ms,
                policy: BackoffPolicy::with_max_delay(self.max_connection_delay_ms),
                requests: ChannelConfig { capacity: self.channel_size, style: QueueStyle::FIFO },
                listener,
            },
        );
        self
    }

    /// Tells what stands in the way of adding gossip discovery, if anything
    /// does.
    pub fn discovery_check(&self) -> (error: Option<ConfigError>)
        ensures
            error == discovery_error(*self),
            error is None <==> self.connectivity is Some && self.authentication_mode is Some,
    {
        if self.connectivity.is_none() {
            Some(ConfigError::ConnectivityManagerNotEnabled)
        } else if self.authentication_mode.is_none() {
            Some(ConfigError::AuthenticationModeNotSet)
        } else {
            None
        }
    }

    /// Adds gossip discovery for a node whose public key is already known.
    /// Discovery needs the connectivity manager and the authentication mode.
    /// Its handler is entered for the discovery protocol, with one
    /// notification queued for each peer and the newest kept, and it
    /// advertises one address.
    pub fn add_gossip_discovery_with_key(&mut self, public_key: &PublicKey) -> (this: &mut Self)
        requires
            old(self).connectivity is Some,
            old(self).authentication_mode is Some,
        ensures
            *final(self) == *final(this),
            this.discovery matches Some(settings) && handler_entered(
                *old(self),
                *this,
                Seq::empty(),
                seq![ProtocolId::DiscoveryDirectSend],
                ChannelConfig { capacity: 1, style: QueueStyle::LIFO },
                settings.endpoints,
            ) && settings.peer_id == old(self).peer_id && settings.role == old(self).role
                && settings.interval_ms == old(self).discovery_interval_ms
                && settings.addresses@.len() == 1 && settings.addresses@[0]@ == advertised(
                old(self).advertised_address,
                old(self).listen_address,
                *public_key,
            ),
            same_settings(*old(self), *this),
            this.connectivity == old(self).connectivity,
            this.health_checker == old(self).health_checker,
    {
        let mut direct_send: Vec<ProtocolId> = Vec::new();
        direct_send.push(ProtocolId::DiscoveryDirectSend);
        proof {
            assert(direct_send@ =~= seq![ProtocolId::DiscoveryDirectSend]);
        }
        let endpoints = self.add_protocol_handler(Vec::new(), direct_send, QueueStyle::LIFO, 1);
        let address = match &self.advertised_address {
            Some(address) => address.clone(),
            None => self.listen_address.clone(),
        };
        let mut addresses: Vec<NetworkAddress> = Vec::new();
        addresses.push(address.append_prod_protos(*public_key, HANDSHAKE_VERSION));
        self.discovery = Some(
            DiscoverySettings {
                peer_id: self.peer_id,
                role: self.role,
                addresses,
                interval_ms: self.discovery_interval_ms,
                endpoints,
            },
        );
        self
    }

    /// Adds gossip discovery: derives the node's public key from its
    /// authentication mode and goes on as
    /// [`NetworkBuilder::add_gossip_discovery_with_key`] does.
    pub fn add_gossip_discovery(&mut self) -> (this: &mut Self)
        requires
            old(self).connectivity is Some,
            old(self).authentication_mode is Some,
        ensures
            *final(self) == *final(this),
            this.discovery matches Some(settings) && handler_entered(
                *old(self),
                *this,
                Seq::empty(),
                seq![ProtocolId::DiscoveryDirectSend],
                ChannelConfig { capacity: 1, style: QueueStyle::LIFO },
                settings.endpoints,
            ) && settings.peer_id == old(self).peer_id && settings.role == old(self).role
                && settings.interval_ms == old(self).discovery_interval_ms
                && settings.addresses@.len() == 1 && settings.addresses@[0]@ == advertised(
                old(self).advertised_address,
                old(self).listen_address,
                public_key_of(old(self).authentication_mode->0.private_key()),
            ),
            same_settings(*old(self), *this),
            this.connectivity == old(self).connectivity,
            this.health_checker == old(self).health_checker,
    {
        let mode = self.authentication_mode.unwrap();
        let public_key = mode.public_key();
        self.add_gossip_discovery_with_key(&public_key)
    }


    /// Adds the health checker: its handler is entered for the health
    /// checker's protocol, and it pings and tolerates failures as configured
    /// so far.
    pub fn add_connection_monitoring(&mut self) -> (this: &mut Self)
        ensures
            *final(self) == *final(this),
            this.health_checker matches Some(settings) && handler_entered(
                *old(self),
                *this,
                seq![ProtocolId::HealthCheckerRpc],
                Seq::empty(),
                ChannelConfig { capacity: NETWORK_CHANNEL_SIZE, style: QueueStyle::LIFO },
                settings.endpoints,
            ) && settings.ping_interval_ms == old(self).ping_interval_ms
                && settings.ping_timeout_ms == old(self).ping_timeout_ms
                && settings.ping_failures_tolerated == old(self).ping_failures_tolerated,
            same_settings(*old(self), *this),
            this.connectivity == old(self).connectivity,
            this.discovery == old(self).discovery,
    {
        let mut rpc: Vec<ProtocolId> = Vec::new();
        rpc.push(ProtocolId::HealthCheckerRpc);
        proof {
            assert(rpc@ =~= seq![ProtocolId::HealthCheckerRpc]);
        }
        let endpoints = self.add_protocol_handler(
            rpc,
            Vec::new(),
            QueueStyle::LIFO,
            NETWORK_CHANNEL_SIZE,
        );
        self.health_checker = Some(
            HealthCheckerSettings {
                ping_interval_ms: self.ping_interval_ms,
                ping_timeout_ms: self.ping_timeout_ms,
                ping_failures_tolerated: self.ping_failures_tolerated,
                endpoints,
            },
        );
        self
    }

    /// Tells what stands in the way of starting the node, if anything does.
    pub fn checked(&self) -> (error: Option<ConfigError>)
        ensures
            error == start_error(self.authentication_mode, self.listen_address@),
            error is None <==> self.authentication_mode is Some && transport_of(
                self.listen_address@,
            ) is Some,
    {
        if self.authentication_mode.is_none() {
            Some(ConfigError::AuthenticationModeNotSet)
        } else if self.listen_address.transport().is_none() {
            Some(ConfigError::UnsupportedListenAddress)
        } else {
            None
        }
    }

    /// Settles the configuration of a node whose public key is already
    /// known. The authentication mode must be set and the listen address
    /// must name a supported transport; the plan holds the builder's
    /// configuration with the node's identity resolved.
    pub fn build_with_key(self, public_key: &PublicKey) -> (plan: NetworkPlan)
        requires
            self.authentication_mode is Some,
            transport_of(self.listen_address@) is Some,
        ensures
            settled(
                self,
                plan,
                self.authentication_mode->0,
                transport_of(self.listen_address@)->0,
                *public_key,
            ),
    {
        let mode = self.authentication_mode.unwrap();
        let transport = self.listen_address.transport().unwrap();
        let supported_protocols = self.supported_protocols();
        let identity = mode.identity_with(self.peer_id, public_key);
        NetworkPlan {
            transport,
            identity,
            handshake_version: HANDSHAKE_VERSION,
            network_id: self.network_id,
            supported_protocols,
            peer_id: self.peer_id,
            role: self.role,
            listen_address: self.listen_address,
            trusted_peers: self.trusted_peers,
            upstream_handlers: self.upstream_handlers,
            handlers: self.handlers,
            connection_event_handlers: self.connection_event_handlers,
            pm_reqs: self.pm_reqs,
            connection_reqs: self.connection_reqs,
            max_concurrent_network_reqs: self.max_concurrent_network_reqs,
            max_concurrent_network_notifs: self.max_concurrent_network_notifs,
            channel_size: self.channel_size,
            connectivity: self.connectivity,
            discovery: self.discovery,
            health_checker: self.health_checker,
        }
    }

    /// Settles the configuration: derives the node's public key from its
    /// authentication mode and goes on as [`NetworkBuilder::build_with_key`]
    /// does. The builder is used up, so nothing can be entered afterwards.
    pub fn build(self) -> (plan: NetworkPlan)
        requires
            self.authentication_mode is Some,
            transport_of(self.listen_address@) is Some,
        ensures
            settled(
                self,
                plan,
                self.authentication_mode->0,
                transport_of(self.listen_address@)->0,
                public_key_of(self.authentication_mode->0.private_key()),
            ),
    {
        let mode = self.authentication_mode.unwrap();
        let public_key = mode.public_key();
        self.build_with_key(&public_key)
    }
}


impl ConfigError {
    /// The full report of a failed start. An unsupported listen address is
    /// named, together with the shapes that are supported.
    pub fn describe(&self, listen_address: &NetworkAddress) -> (text: String)
        ensures
            text@ == match *self {
                ConfigError::UnsupportedListenAddress => "Unsupported listen_address: '"@
                    + address_text(listen_address@)
                    + "', expected '/memory/<port>', '/ip4/<addr>/tcp/<port>', or '/ip6/<addr>/tcp/<port>'."@,
                ConfigError::AuthenticationModeNotSet => "Authentication Mode not set"@,
                ConfigError::ConnectivityManagerNotEnabled => "ConnectivityManager not enabled"@,
            },
    {
        let mut text = String::new();
        match self {
            ConfigError::UnsupportedListenAddress => {
                text.append("Unsupported listen_address: '");
                let address = listen_address.to_text();
                text.append(address.as_str());
                text.append(
                    "', expected '/memory/<port>', '/ip4/<addr>/tcp/<port>', or '/ip6/<addr>/tcp/<port>'.",
                );
            },
            ConfigError::AuthenticationModeNotSet => {
                text.append("Authentication Mode not set");
            },
            ConfigError::ConnectivityManagerNotEnabled => {
                text.append("ConnectivityManager not enabled");
            },
        }
        text
    }
}

impl ConnectivitySettings {
    /// The connectivity manager in its first state: it runs on the node of
    /// the settled identity, goes by the given registry snapshot and the
    /// settled address book and backoff, and has dealt with no peer yet.
    pub fn into_manager(self, eligible: Registry) -> (manager: ConnectivityManager)
        ensures
            manager.wf(),
            manager@ == (ManagerState {
                peer_id: self.peer_id,
                eligible: eligible@,
                seeds: self.seed_peers@,
                records: Seq::empty(),
                policy: self.policy,
            }),
    {
        ConnectivityManager::new(self.peer_id, eligible, self.seed_peers, self.policy)
    }
}

} // verus!

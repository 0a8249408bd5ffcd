use std::collections::HashMap;

use validator_network::address::{NetworkAddress, Protocol, TransportKind};
use validator_network::backoff::BackoffPolicy;
use validator_network::builder::{
    ChannelConfig, ConfigError, ConnectivitySettings, HandlerEndpoints, HealthCheckerSettings,
    Listener, NetworkBuilder, NetworkId, ProtocolId, QueueStyle, RoleType,
    CONNECTIVITY_CHECK_INTERNAL_MS, DISCOVERY_INTERVAL_MS, MAX_CONCURRENT_NETWORK_NOTIFS,
    MAX_CONCURRENT_NETWORK_REQS, NETWORK_CHANNEL_SIZE, PING_FAILURES_TOLERATED, PING_INTERVAL_MS,
    PING_TIMEOUT_MS,
};
use validator_network::identity::{AuthenticationMode, PeerId, PrivateKey, PublicKey};
use validator_network::records::{Command, Event};
use validator_network::registry::{
    EligiblePeer, NetworkPublicKeys, Registry, SeedPeer, SeedPeers,
};

fn tcp4(port: u16) -> NetworkAddress {
    NetworkAddress::new(vec![Protocol::Ip4([127, 0, 0, 1]), Protocol::Tcp(port)])
}

fn memory(port: u16) -> NetworkAddress {
    NetworkAddress::new(vec![Protocol::Memory(port)])
}

fn builder(listen: NetworkAddress) -> NetworkBuilder {
    NetworkBuilder::new(NetworkId::Validator, PeerId::new(7), RoleType::Validator, listen)
}

fn private_key() -> PrivateKey {
    PrivateKey::new([
        0x77, 0x07, 0x6d, 0x0a, 0x73, 0x18, 0xa5, 0x7d, 0x3c, 0x16, 0xc1, 0x72, 0x51, 0xb2, 0x66,
        0x45, 0xdf, 0x4c, 0x2f, 0x87, 0xeb, 0xc0, 0x99, 0x2a, 0xb1, 0x77, 0xfb, 0xa5, 0x1d, 0xb9,
        0x2c, 0x2a,
    ])
}

fn public_key() -> PublicKey {
    PublicKey::new([
        0x85, 0x20, 0xf0, 0x09, 0x89, 0x30, 0xa7, 0x54, 0x74, 0x8b, 0x7d, 0xdc, 0xb4, 0x3e, 0xf7,
        0x5a, 0x0d, 0xbf, 0x3a, 0x0d, 0x26, 0x38, 0x1a, 0xf4, 0xeb, 0xa4, 0xa9, 0x8e, 0xaa, 0x9b,
        0x4e, 0x6a,
    ])
}

fn eligible(n: u128) -> EligiblePeer {
    EligiblePeer::new(
        PeerId::new(n),
        NetworkPublicKeys { identity_public_key: PublicKey::new([n as u8; 32]) },
        vec![tcp4(n as u16)],
    )
}

#[test]
fn new_builder_has_the_default_configuration() {
    let b = NetworkBuilder::new(
        NetworkId::Private("vfn".to_string()),
        PeerId::new(7),
        RoleType::FullNode,
        tcp4(6180),
    );
    assert_eq!(b.network_id, NetworkId::Private("vfn".to_string()));
    assert_eq!(b.peer_id(), PeerId::new(7));
    assert_eq!(b.role, RoleType::FullNode);
    assert_eq!(b.listen_address, tcp4(6180));
    assert_eq!(b.advertised_address, None);
    assert_eq!(b.seed_peers, SeedPeers::new());
    assert_eq!(b.trusted_peers, Registry::new());
    assert_eq!(b.authentication_mode, None);
    assert_eq!(b.channel_size, 1024);
    assert_eq!(b.direct_send_protocols, vec![]);
    assert_eq!(b.rpc_protocols, vec![]);
    assert_eq!(b.upstream_handlers, HashMap::new());
    assert_eq!(b.handlers, vec![]);
    assert_eq!(b.connection_event_handlers, vec![]);
    assert_eq!(b.pm_reqs, ChannelConfig { capacity: 1024, style: QueueStyle::FIFO });
    assert_eq!(b.connection_reqs, ChannelConfig { capacity: 1024, style: QueueStyle::FIFO });
    assert_eq!(b.connectivity, None);
    assert_eq!(b.discovery, None);
    assert_eq!(b.health_checker, None);
    assert_eq!(b.discovery_interval_ms, 1000);
    assert_eq!(b.ping_interval_ms, 1000);
    assert_eq!(b.ping_timeout_ms, 10_000);
    assert_eq!(b.ping_failures_tolerated, 10);
    assert_eq!(b.connectivity_check_interval_ms, 5000);
    assert_eq!(b.max_concurrent_network_reqs, 100);
    assert_eq!(b.max_concurrent_network_notifs, 100);
    assert_eq!(b.max_connection_delay_ms, 600_000);
    assert_eq!(b.conn_mgr_reqs_tx(), None);
}

#[test]
fn default_constants_have_their_documented_values() {
    assert_eq!(NETWORK_CHANNEL_SIZE, 1024);
    assert_eq!(DISCOVERY_INTERVAL_MS, 1000);
    assert_eq!(PING_INTERVAL_MS, 1000);
    assert_eq!(PING_TIMEOUT_MS, 10_000);
    assert_eq!(CONNECTIVITY_CHECK_INTERNAL_MS, 5000);
    assert_eq!(PING_FAILURES_TOLERATED, 10);
    assert_eq!(MAX_CONCURRENT_NETWORK_REQS, 100);
    assert_eq!(MAX_CONCURRENT_NETWORK_NOTIFS, 100);
}

#[test]
fn setters_change_their_field_and_nothing_else() {
    let mut b = builder(tcp4(1));
    b.authentication_mode(AuthenticationMode::Mutual(private_key()))
        .advertised_address(tcp4(2))
        .trusted_peers(Registry::from_entries(vec![eligible(1), eligible(2)]))
        .seed_peers(SeedPeers::from_entries(vec![SeedPeer::new(PeerId::new(3), vec![tcp4(3)])]))
        .discovery_interval_ms(11)
        .connectivity_check_interval_ms(12);
    let mut expected = builder(tcp4(1));
    expected.authentication_mode = Some(AuthenticationMode::Mutual(private_key()));
    expected.advertised_address = Some(tcp4(2));
    expected.trusted_peers = Registry::from_entries(vec![eligible(1), eligible(2)]);
    expected.seed_peers =
        SeedPeers::from_entries(vec![SeedPeer::new(PeerId::new(3), vec![tcp4(3)])]);
    expected.discovery_interval_ms = 11;
    expected.connectivity_check_interval_ms = 12;
    assert_eq!(b, expected);
}

#[test]
fn trusted_peers_are_replaced_not_merged() {
    let mut b = builder(tcp4(1));
    b.trusted_peers(Registry::from_entries(vec![eligible(1), eligible(2)]));
    b.trusted_peers(Registry::from_entries(vec![eligible(3)]));
    assert_eq!(b.trusted_peers, Registry::from_entries(vec![eligible(3)]));
    assert!(!b.trusted_peers.contains(PeerId::new(1)));
}

#[test]
fn protocol_handlers_are_numbered_and_routed() {
    let mut b = builder(tcp4(1));
    let first = b.add_protocol_handler(
        vec![ProtocolId::ConsensusRpc],
        vec![ProtocolId::ConsensusDirectSend, ProtocolId::MempoolDirectSend],
        QueueStyle::FIFO,
        8,
    );
    assert_eq!(first, HandlerEndpoints { handler: 0, listener: 0 });
    let second = b.add_protocol_handler(
        vec![],
        vec![ProtocolId::MempoolDirectSend],
        QueueStyle::LIFO,
        1,
    );
    assert_eq!(second, HandlerEndpoints { handler: 1, listener: 1 });
    assert_eq!(b.rpc_protocols, vec![ProtocolId::ConsensusRpc]);
    assert_eq!(
        b.direct_send_protocols,
        vec![
            ProtocolId::ConsensusDirectSend,
            ProtocolId::MempoolDirectSend,
            ProtocolId::MempoolDirectSend,
        ]
    );
    assert_eq!(
        b.upstream_handlers,
        HashMap::from([
            (ProtocolId::ConsensusRpc.number(), 0),
            (ProtocolId::ConsensusDirectSend.number(), 0),
            (ProtocolId::MempoolDirectSend.number(), 1),
        ])
    );
    assert_eq!(
        b.handlers,
        vec![
            ChannelConfig { capacity: 8, style: QueueStyle::FIFO },
            ChannelConfig { capacity: 1, style: QueueStyle::LIFO },
        ]
    );
    assert_eq!(b.connection_event_handlers, vec![Listener::Handler(0), Listener::Handler(1)]);
    assert_eq!(b.upstream_handler(ProtocolId::ConsensusRpc), Some(0));
    assert_eq!(b.upstream_handler(ProtocolId::ConsensusDirectSend), Some(0));
    assert_eq!(b.upstream_handler(ProtocolId::MempoolDirectSend), Some(1));
    assert_eq!(b.upstream_handler(ProtocolId::HealthCheckerRpc), None);
    assert_eq!(
        b.supported_protocols(),
        vec![
            ProtocolId::ConsensusDirectSend,
            ProtocolId::MempoolDirectSend,
            ProtocolId::MempoolDirectSend,
            ProtocolId::ConsensusRpc,
        ]
    );
}

#[test]
fn listeners_are_numbered_in_order() {
    let mut b = builder(tcp4(1));
    assert_eq!(b.add_connection_event_listener(), 0);
    b.add_protocol_handler(vec![ProtocolId::ConsensusRpc], vec![], QueueStyle::FIFO, 8);
    assert_eq!(b.add_connection_event_listener(), 2);
    assert_eq!(
        b.connection_event_handlers,
        vec![Listener::Standalone, Listener::Handler(0), Listener::Standalone]
    );
    assert_eq!(b.handlers.len(), 1);
}

#[test]
fn connectivity_manager_takes_settings_as_configured_so_far() {
    let seeds = vec![SeedPeer::new(PeerId::new(3), vec![tcp4(3)])];
    let mut b = builder(tcp4(1));
    b.seed_peers(SeedPeers::from_entries(vec![SeedPeer::new(PeerId::new(3), vec![tcp4(3)])]))
        .connectivity_check_interval_ms(250);
    b.add_connection_event_listener();
    b.add_connectivity_manager().connectivity_check_interval_ms(9);
    assert_eq!(
        b.connectivity,
        Some(ConnectivitySettings {
            peer_id: PeerId::new(7),
            seed_peers: SeedPeers::from_entries(seeds),
            check_interval_ms: 250,
            policy: BackoffPolicy::new(2, 1000, 600_000),
            requests: ChannelConfig { capacity: 1024, style: QueueStyle::FIFO },
            listener: 1,
        })
    );
    assert_eq!(
        b.seed_peers,
        SeedPeers::from_entries(vec![SeedPeer::new(PeerId::new(3), vec![tcp4(3)])])
    );
    assert_eq!(
        b.connection_event_handlers,
        vec![Listener::Standalone, Listener::ConnectivityManager]
    );
    assert_eq!(
        b.conn_mgr_reqs_tx(),
        Some(ChannelConfig { capacity: 1024, style: QueueStyle::FIFO })
    );
    assert_eq!(b.connectivity_check_interval_ms, 9);
}

#[test]
fn settled_manager_starts_with_the_registry_and_the_seeds() {
    let mut b = builder(memory(1));
    b.seed_peers(SeedPeers::from_entries(vec![SeedPeer::new(PeerId::new(3), vec![tcp4(3)])]))
        .trusted_peers(Registry::from_entries(vec![eligible(1)]))
        .authentication_mode(AuthenticationMode::Mutual(private_key()))
        .add_connectivity_manager();
    let plan = b.build();
    let mut manager = plan.connectivity.unwrap().into_manager(plan.trusted_peers);
    assert_eq!(manager.policy(), BackoffPolicy::new(2, 1000, 600_000));
    let out = manager.handle_event(Event::Tick { now_ms: 0 });
    assert_eq!(
        out.commands,
        vec![Command::Dial(PeerId::new(1), tcp4(1)), Command::Dial(PeerId::new(3), tcp4(3))]
    );
}

#[test]
fn a_second_connectivity_manager_gets_the_seed_peers_too() {
    let mut b = builder(tcp4(1));
    b.seed_peers(SeedPeers::from_entries(vec![SeedPeer::new(PeerId::new(3), vec![tcp4(3)])]));
    b.add_connectivity_manager();
    let first = b.connectivity.as_ref().unwrap().seed_peers.clone();
    b.add_connectivity_manager();
    let second = b.connectivity.as_ref().unwrap();
    assert_eq!(second.seed_peers, first);
    assert_eq!(second.seed_peers.len(), 1);
    assert_eq!(second.listener, 1);
    assert_eq!(
        b.connection_event_handlers,
        vec![Listener::ConnectivityManager, Listener::ConnectivityManager]
    );
}

#[test]
fn gossip_discovery_needs_the_connectivity_manager() {
    let mut b = builder(tcp4(1));
    assert_eq!(b.discovery_check(), Some(ConfigError::ConnectivityManagerNotEnabled));
    b.authentication_mode(AuthenticationMode::Mutual(private_key()));
    assert_eq!(b.discovery_check(), Some(ConfigError::ConnectivityManagerNotEnabled));
    assert_eq!(b.discovery_check().unwrap().message(), "ConnectivityManager not enabled");
    assert_eq!(b.discovery, None);
    assert_eq!(b.handlers, vec![]);
}

#[test]
fn gossip_discovery_needs_the_authentication_mode() {
    let mut b = builder(tcp4(1));
    b.add_connectivity_manager();
    assert_eq!(b.discovery_check(), Some(ConfigError::AuthenticationModeNotSet));
    assert_eq!(b.discovery_check().unwrap().message(), "Authentication Mode not set");
    b.authentication_mode(AuthenticationMode::ServerOnly(private_key()));
    assert_eq!(b.discovery_check(), None);
}

#[test]
fn gossip_discovery_advertises_the_listen_address_with_key_and_version() {
    let mut b = builder(tcp4(6180));
    b.authentication_mode(AuthenticationMode::ServerOnly(private_key()))
        .discovery_interval_ms(300)
        .add_connectivity_manager();
    assert_eq!(b.discovery_check(), None);
    b.add_gossip_discovery().discovery_interval_ms(301);
    assert_eq!(b.discovery_interval_ms, 301);
    let endpoints = b.discovery.as_ref().unwrap().endpoints;
    assert_eq!(endpoints, HandlerEndpoints { handler: 0, listener: 1 });
    let settings = b.discovery.as_ref().unwrap();
    assert_eq!(settings.peer_id, PeerId::new(7));
    assert_eq!(settings.role, RoleType::Validator);
    assert_eq!(settings.interval_ms, 300);
    assert_eq!(settings.endpoints, endpoints);
    assert_eq!(
        settings.addresses,
        vec![NetworkAddress::new(vec![
            Protocol::Ip4([127, 0, 0, 1]),
            Protocol::Tcp(6180),
            Protocol::NoiseIk(public_key()),
            Protocol::Handshake(0),
        ])]
    );
    assert_eq!(b.direct_send_protocols, vec![ProtocolId::DiscoveryDirectSend]);
    assert_eq!(b.rpc_protocols, vec![]);
    assert_eq!(b.handlers, vec![ChannelConfig { capacity: 1, style: QueueStyle::LIFO }]);
    assert_eq!(b.upstream_handler(ProtocolId::DiscoveryDirectSend), Some(0));
    assert_eq!(
        b.connection_event_handlers,
        vec![Listener::ConnectivityManager, Listener::Handler(0)]
    );
    assert_eq!(b.listen_address, tcp4(6180));
}

#[test]
fn gossip_discovery_prefers_the_advertised_address() {
    let mut b = builder(tcp4(6180));
    b.authentication_mode(AuthenticationMode::Mutual(PrivateKey::new([4; 32])))
        .advertised_address(tcp4(7000))
        .add_connectivity_manager();
    let key = PublicKey::new([8; 32]);
    b.add_gossip_discovery_with_key(&key);
    assert_eq!(
        b.discovery.as_ref().unwrap().addresses,
        vec![tcp4(7000).append_prod_protos(key, 0)]
    );
    assert_eq!(b.advertised_address, Some(tcp4(7000)));
}

#[test]
fn connection_monitoring_enters_the_health_checker() {
    let mut b = builder(tcp4(1));
    b.add_connection_event_listener();
    b.add_connection_monitoring().discovery_interval_ms(1);
    assert_eq!(
        b.health_checker,
        Some(HealthCheckerSettings {
            ping_interval_ms: 1000,
            ping_timeout_ms: 10_000,
            ping_failures_tolerated: 10,
            endpoints: HandlerEndpoints { handler: 0, listener: 1 },
        })
    );
    assert_eq!(b.rpc_protocols, vec![ProtocolId::HealthCheckerRpc]);
    assert_eq!(b.direct_send_protocols, vec![]);
    assert_eq!(b.handlers, vec![ChannelConfig { capacity: 1024, style: QueueStyle::LIFO }]);
    assert_eq!(b.upstream_handler(ProtocolId::HealthCheckerRpc), Some(0));
    assert_eq!(b.discovery_interval_ms, 1);
}

#[test]
fn a_builder_without_authentication_mode_cannot_be_started() {
    assert_eq!(builder(tcp4(1)).checked(), Some(ConfigError::AuthenticationModeNotSet));
    assert_eq!(builder(memory(0)).checked(), Some(ConfigError::AuthenticationModeNotSet));
    let unsupported = NetworkAddress::new(vec![Protocol::Tcp(1)]);
    let b = builder(unsupported);
    assert_eq!(b.checked(), Some(ConfigError::AuthenticationModeNotSet));
    assert_eq!(
        b.checked().unwrap().describe(&b.listen_address),
        "Authentication Mode not set"
    );
}

#[test]
fn a_builder_with_an_unsupported_listen_address_cannot_be_started() {
    for protocols in [
        vec![],
        vec![Protocol::Tcp(1)],
        vec![Protocol::Ip4([1, 2, 3, 4])],
        vec![Protocol::Memory(1), Protocol::Tcp(1)],
        vec![Protocol::Ip4([1, 2, 3, 4]), Protocol::Tcp(1), Protocol::Handshake(0)],
        vec![Protocol::Dns4("example.com".to_string()), Protocol::Tcp(6180)],
        vec![Protocol::Dns("example.com".to_string()), Protocol::Tcp(6180)],
        vec![Protocol::Dns6("example.com".to_string()), Protocol::Tcp(6180)],
    ] {
        let mut b = builder(NetworkAddress::new(protocols));
        b.authentication_mode(AuthenticationMode::Mutual(private_key()));
        assert_eq!(b.checked(), Some(ConfigError::UnsupportedListenAddress));
    }
}

#[test]
fn a_builder_with_mode_and_supported_address_can_be_started() {
    for listen in [
        tcp4(1),
        NetworkAddress::new(vec![Protocol::Ip6([0; 16]), Protocol::Tcp(1)]),
        memory(0),
    ] {
        let mut b = builder(listen);
        b.authentication_mode(AuthenticationMode::ServerOnly(private_key()));
        assert_eq!(b.checked(), None);
    }
}

#[test]
fn build_selects_the_transport_of_the_listen_address() {
    let cases = vec![
        (tcp4(1), TransportKind::Tcp),
        (
            NetworkAddress::new(vec![Protocol::Ip6([0; 16]), Protocol::Tcp(1)]),
            TransportKind::Tcp,
        ),
        (memory(9), TransportKind::Memory),
    ];
    for (listen, kind) in cases {
        let mut b = builder(listen.clone());
        b.authentication_mode(AuthenticationMode::Mutual(private_key()));
        let plan = b.build();
        assert_eq!(plan.transport, kind);
        assert_eq!(plan.listen_address, listen);
        assert_eq!(plan.handshake_version, 0);
    }
}

#[test]
fn build_names_a_server_only_node_without_identity_after_its_key() {
    let mut b =
        NetworkBuilder::new(NetworkId::Public, PeerId::unset(), RoleType::FullNode, memory(1));
    b.authentication_mode(AuthenticationMode::ServerOnly(private_key()));
    let plan = b.build();
    assert_eq!(plan.identity.peer_id, PeerId::new(0x0dbf3a0d26381af4eba4a98eaa9b4e6a));
    assert_eq!(plan.identity.key, private_key());
    assert!(!plan.identity.restrict_to_eligible);
    assert_eq!(plan.peer_id, PeerId::unset());
    assert_eq!(plan.network_id, NetworkId::Public);
    assert_eq!(plan.role, RoleType::FullNode);
}

#[test]
fn build_keeps_a_configured_identity() {
    let mut b = builder(memory(1));
    b.authentication_mode(AuthenticationMode::ServerOnly(private_key()));
    let plan = b.build();
    assert_eq!(plan.identity.peer_id, PeerId::new(7));
    assert!(!plan.identity.restrict_to_eligible);

    let mut b =
        NetworkBuilder::new(NetworkId::Validator, PeerId::unset(), RoleType::Validator, memory(1));
    b.authentication_mode(AuthenticationMode::Mutual(private_key()));
    let plan = b.build_with_key(&public_key());
    assert_eq!(plan.identity.peer_id, PeerId::unset());
    assert!(plan.identity.restrict_to_eligible);
}

#[test]
fn build_hands_the_whole_configuration_over() {
    let mut b = builder(tcp4(6180));
    b.authentication_mode(AuthenticationMode::Mutual(private_key()))
        .trusted_peers(Registry::from_entries(vec![eligible(1)]))
        .add_connectivity_manager()
        .add_connection_monitoring();
    b.add_protocol_handler(
        vec![ProtocolId::ConsensusRpc],
        vec![ProtocolId::ConsensusDirectSend],
        QueueStyle::FIFO,
        4,
    );
    b.add_gossip_discovery();
    let upstream_handlers = b.upstream_handlers.clone();
    let handlers = b.handlers.clone();
    let listeners = b.connection_event_handlers.clone();
    let health_checker = b.health_checker;
    let plan = b.build();
    assert_eq!(
        plan.supported_protocols,
        vec![
            ProtocolId::ConsensusDirectSend,
            ProtocolId::DiscoveryDirectSend,
            ProtocolId::HealthCheckerRpc,
            ProtocolId::ConsensusRpc,
        ]
    );
    assert_eq!(plan.upstream_handlers, upstream_handlers);
    assert_eq!(plan.handlers, handlers);
    assert_eq!(handlers.len(), 3);
    assert_eq!(plan.connection_event_handlers, listeners);
    assert_eq!(
        listeners,
        vec![
            Listener::ConnectivityManager,
            Listener::Handler(0),
            Listener::Handler(1),
            Listener::Handler(2),
        ]
    );
    assert_eq!(plan.trusted_peers, Registry::from_entries(vec![eligible(1)]));
    assert_eq!(plan.pm_reqs, ChannelConfig { capacity: 1024, style: QueueStyle::FIFO });
    assert_eq!(plan.connection_reqs, ChannelConfig { capacity: 1024, style: QueueStyle::FIFO });
    assert_eq!(plan.max_concurrent_network_reqs, 100);
    assert_eq!(plan.max_concurrent_network_notifs, 100);
    assert_eq!(plan.channel_size, 1024);
    assert_eq!(plan.health_checker, health_checker);
    assert!(plan.connectivity.is_some());
    assert_eq!(plan.discovery.unwrap().endpoints, HandlerEndpoints { handler: 2, listener: 3 });
    assert_eq!(plan.peer_id, PeerId::new(7));
}

#[test]
fn errors_have_their_messages() {
    assert_eq!(ConfigError::AuthenticationModeNotSet.message(), "Authentication Mode not set");
    assert_eq!(
        ConfigError::ConnectivityManagerNotEnabled.message(),
        "ConnectivityManager not enabled"
    );
    assert_eq!(ConfigError::UnsupportedListenAddress.message(), "Unsupported listen_address");
}

#[test]
fn unsupported_listen_address_is_named_in_the_report() {
    let listen = NetworkAddress::new(vec![Protocol::Ip4([10, 0, 0, 1]), Protocol::Memory(3)]);
    let mut b = builder(listen.clone());
    b.authentication_mode(AuthenticationMode::Mutual(private_key()));
    let error = b.checked().unwrap();
    assert_eq!(
        error.describe(&listen),
        "Unsupported listen_address: '/ip4/10.0.0.1/memory/3', expected '/memory/<port>', \
         '/ip4/<addr>/tcp/<port>', or '/ip6/<addr>/tcp/<port>'."
    );
}

#[test]
fn a_lone_ip4_segment_is_named_as_unsupported() {
    let mut b = NetworkBuilder::new(
        NetworkId::Validator,
        PeerId::unset(),
        RoleType::FullNode,
        NetworkAddress::new(vec![Protocol::Ip4([127, 0, 0, 1])]),
    );
    b.authentication_mode(AuthenticationMode::ServerOnly(private_key()));
    let error = b.checked().unwrap();
    assert_eq!(error, ConfigError::UnsupportedListenAddress);
    assert!(error
        .describe(&b.listen_address)
        .starts_with("Unsupported listen_address: '/ip4/127.0.0.1'"));
}

#[test]
fn a_host_name_is_named_as_unsupported() {
    let mut b = builder(NetworkAddress::new(vec![
        Protocol::Dns4("example.com".to_string()),
        Protocol::Tcp(6180),
    ]));
    b.authentication_mode(AuthenticationMode::Mutual(private_key()));
    let error = b.checked().unwrap();
    assert_eq!(error, ConfigError::UnsupportedListenAddress);
    assert!(error
        .describe(&b.listen_address)
        .starts_with("Unsupported listen_address: '/dns4/example.com/tcp/6180'"));
}

#[test]
fn other_errors_are_reported_without_the_address() {
    let listen = tcp4(1);
    assert_eq!(
        ConfigError::AuthenticationModeNotSet.describe(&listen),
        "Authentication Mode not set"
    );
    assert_eq!(
        ConfigError::ConnectivityManagerNotEnabled.describe(&listen),
        "ConnectivityManager not enabled"
    );
}

#[test]
fn protocols_are_entered_under_their_numbers() {
    let numbers: Vec<u8> = [
        ProtocolId::ConsensusRpc,
        ProtocolId::ConsensusDirectSend,
        ProtocolId::MempoolDirectSend,
        ProtocolId::StateSynchronizerDirectSend,
        ProtocolId::DiscoveryDirectSend,
        ProtocolId::HealthCheckerRpc,
        ProtocolId::IdentityDirectSend,
    ]
    .iter()
    .map(|protocol| protocol.number())
    .collect();
    assert_eq!(numbers, vec![0, 1, 2, 3, 4, 5, 6]);
}

use validator_network::identity::{AuthenticationMode, PeerId, PrivateKey, PublicKey};

fn key_bytes(hex: &str) -> [u8; 32] {
    let digits: Vec<u8> = hex
        .bytes()
        .map(|c| match c {
            b'0'..=b'9' => c - b'0',
            b'a'..=b'f' => c - b'a' + 10,
            _ => panic!("not a hex digit"),
        })
        .collect();
    assert_eq!(digits.len(), 64);
    let mut bytes = [0u8; 32];
    for i in 0..32 {
        bytes[i] = digits[2 * i] * 16 + digits[2 * i + 1];
    }
    bytes
}

const ALICE_PRIVATE: &str = "77076d0a7318a57d3c16c17251b26645df4c2f87ebc0992ab177fba51db92c2a";
const ALICE_PUBLIC: &str = "8520f0098930a754748b7ddcb43ef75a0dbf3a0d26381af4eba4a98eaa9b4e6a";
const BOB_PRIVATE: &str = "5dab087e624a8a4b79e17f8b83800ee66f3bb1292618b6fd1c2f8b27ff88e0eb";
const BOB_PUBLIC: &str = "de9edb7d7b7dc1b4d35b61c2ece435373f8343c85b78674dadfc7e146f882b4f";

#[test]
fn public_key_matches_known_vectors() {
    let alice = PrivateKey::new(key_bytes(ALICE_PRIVATE));
    assert_eq!(alice.public_key().bytes, key_bytes(ALICE_PUBLIC));
    let bob = PrivateKey::new(key_bytes(BOB_PRIVATE));
    assert_eq!(bob.public_key().bytes, key_bytes(BOB_PUBLIC));
}

#[test]
fn public_key_is_not_the_private_key() {
    let alice = PrivateKey::new(key_bytes(ALICE_PRIVATE));
    assert_ne!(alice.public_key().bytes, alice.bytes);
}

#[test]
fn both_modes_expose_the_public_key_of_their_private_key() {
    let key = PrivateKey::new(key_bytes(ALICE_PRIVATE));
    let expected = PublicKey::new(key_bytes(ALICE_PUBLIC));
    assert_eq!(AuthenticationMode::ServerOnly(key).public_key(), expected);
    assert_eq!(AuthenticationMode::Mutual(key).public_key(), expected);
}

#[test]
fn peer_id_is_the_last_sixteen_bytes_of_the_key() {
    let public = PublicKey::new(key_bytes(ALICE_PUBLIC));
    assert_eq!(
        PeerId::from_identity_public_key(&public),
        PeerId::new(0x0dbf3a0d26381af4eba4a98eaa9b4e6a)
    );
}

#[test]
fn peer_id_reads_bytes_most_significant_first() {
    let mut bytes = [0xffu8; 32];
    for i in 16..32 {
        bytes[i] = 0;
    }
    bytes[31] = 1;
    assert_eq!(PeerId::from_identity_public_key(&PublicKey::new(bytes)), PeerId::new(1));
    bytes[31] = 0;
    bytes[16] = 1;
    assert_eq!(PeerId::from_identity_public_key(&PublicKey::new(bytes)), PeerId::new(1u128 << 120));
    assert_eq!(
        PeerId::from_identity_public_key(&PublicKey::new([0xff; 32])),
        PeerId::new(u128::MAX)
    );
}

#[test]
fn unset_peer_id_is_zero() {
    assert_eq!(PeerId::unset(), PeerId::new(0));
    assert_eq!(PeerId::unset().id, 0);
}

#[test]
fn server_only_without_identity_is_named_after_its_key() {
    let key = PrivateKey::new(key_bytes(ALICE_PRIVATE));
    let identity = AuthenticationMode::ServerOnly(key).identity(PeerId::unset());
    assert_eq!(identity.peer_id, PeerId::new(0x0dbf3a0d26381af4eba4a98eaa9b4e6a));
    assert_eq!(identity.key, key);
    assert!(!identity.restrict_to_eligible);
}

#[test]
fn server_only_with_identity_keeps_it() {
    let key = PrivateKey::new(key_bytes(ALICE_PRIVATE));
    let identity = AuthenticationMode::ServerOnly(key).identity(PeerId::new(42));
    assert_eq!(identity.peer_id, PeerId::new(42));
    assert!(!identity.restrict_to_eligible);
}

#[test]
fn mutual_keeps_the_configured_identity() {
    let key = PrivateKey::new(key_bytes(BOB_PRIVATE));
    let identity = AuthenticationMode::Mutual(key).identity(PeerId::new(42));
    assert_eq!(identity.peer_id, PeerId::new(42));
    assert_eq!(identity.key, key);
    assert!(identity.restrict_to_eligible);
    let unset = AuthenticationMode::Mutual(key).identity(PeerId::unset());
    assert_eq!(unset.peer_id, PeerId::unset());
}

#[test]
fn identity_derivation_is_repeatable() {
    let key = PrivateKey::new(key_bytes(BOB_PRIVATE));
    let mode = AuthenticationMode::ServerOnly(key);
    let first = mode.identity(PeerId::unset());
    let second = AuthenticationMode::ServerOnly(PrivateKey::new(key_bytes(BOB_PRIVATE)))
        .identity(PeerId::unset());
    assert_eq!(first, second);
    assert_eq!(first.peer_id, PeerId::new(0x3f8343c85b78674dadfc7e146f882b4f));
}

#[test]
fn identity_with_goes_by_the_given_public_key() {
    let key = PrivateKey::new([3; 32]);
    let public = PublicKey::new(key_bytes(ALICE_PUBLIC));
    let identity = AuthenticationMode::ServerOnly(key).identity_with(PeerId::unset(), &public);
    assert_eq!(identity.peer_id, PeerId::new(0x0dbf3a0d26381af4eba4a98eaa9b4e6a));
    let other = AuthenticationMode::ServerOnly(PrivateKey::new([9; 32]))
        .identity_with(PeerId::unset(), &public);
    assert_eq!(other.peer_id, identity.peer_id);
}

#[test]
fn same_as_compares_bytes() {
    let a = PublicKey::new([1; 32]);
    let mut bytes = [1u8; 32];
    assert!(a.same_as(&PublicKey::new(bytes)));
    bytes[31] = 2;
    assert!(!a.same_as(&PublicKey::new(bytes)));
    bytes[31] = 1;
    bytes[0] = 0;
    assert!(!a.same_as(&PublicKey::new(bytes)));
}

#[test]
fn mutual_admits_eligible_keys_only() {
    let mode = AuthenticationMode::Mutual(PrivateKey::new([1; 32]));
    let remote = PublicKey::new([2; 32]);
    assert!(mode.admits(&remote, true, true, None));
    assert!(mode.admits(&remote, true, false, None));
    assert!(!mode.admits(&remote, false, true, Some(remote)));
    assert!(!mode.admits(&remote, false, false, None));
}

#[test]
fn server_only_listener_admits_any_key_and_dialer_pins() {
    let mode = AuthenticationMode::ServerOnly(PrivateKey::new([1; 32]));
    let remote = PublicKey::new([2; 32]);
    let other = PublicKey::new([3; 32]);
    assert!(mode.admits(&remote, false, false, None));
    assert!(mode.admits(&remote, false, false, Some(other)));
    assert!(mode.admits(&remote, false, true, Some(remote)));
    assert!(!mode.admits(&remote, false, true, Some(other)));
    assert!(mode.admits(&remote, false, true, None));
}

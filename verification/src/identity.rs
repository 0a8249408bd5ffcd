//! Key material, peer identities and the authentication mode of a node.

use vstd::prelude::*;

verus! {

/// Length in bytes of an x25519 key.
pub const KEY_SIZE: usize = 32;

/// Length in bytes of a peer identity.
pub const PEER_ID_SIZE: usize = 16;

/// The public key that x25519 derives from a private key: the private key,
/// clamped, multiplied with the curve's base point.
pub uninterp spec fn x25519_public_key(private: Seq<u8>) -> Seq<u8>;

/// Calls `x25519_dalek::x25519` on the private key and the crate's base
/// point, `X25519_BASEPOINT_BYTES`. The result is taken to be a function of
/// the private key alone; nothing else is claimed of it.
#[verifier::external_body]
fn x25519_base_mult(private: &[u8; 32]) -> (public: [u8; 32])
    ensures
        public@ == x25519_public_key(private@),
{
    x25519_dalek::x25519(*private, x25519_dalek::X25519_BASEPOINT_BYTES)
}

/// `256^n`.
pub open spec fn pow256(n: nat) -> nat
    decreases n,
{
    if n == 0 {
        1
    } else {
        256 * pow256((n - 1) as nat)
    }
}

/// The number that a byte string denotes when read most significant byte
/// first.
pub open spec fn be_value(bytes: Seq<u8>) -> nat
    decreases bytes.len(),
{
    if bytes.len() == 0 {
        0
    } else {
        256 * be_value(bytes.drop_last()) + bytes.last() as nat
    }
}

/// The identity that a public key stands for: its last sixteen bytes, read
/// most significant byte first.
pub open spec fn derived_peer_id(public_key: Seq<u8>) -> nat {
    be_value(public_key.subrange(KEY_SIZE - PEER_ID_SIZE, KEY_SIZE as int))
}

/// Powers of 256 grow with the exponent.
proof fn lemma_pow256_monotonic(i: nat, j: nat)
    requires
        i <= j,
    ensures
        pow256(i) <= pow256(j),
    decreases j,
{
    if i < j {
        lemma_pow256_monotonic(i, (j - 1) as nat);
    }
}

/// A string of `n` bytes denotes a number below `256^n`.
proof fn lemma_be_value_bound(bytes: Seq<u8>)
    ensures
        be_value(bytes) < pow256(bytes.len()),
    decreases bytes.len(),
{
    if bytes.len() > 0 {
        lemma_be_value_bound(bytes.drop_last());
    }
}

/// The public key of a private key, as a key: the one whose bytes x25519
/// derives.
pub open spec fn public_key_of(private: PrivateKey) -> PublicKey {
    choose|public: PublicKey| public.bytes@ == x25519_public_key(private.bytes@)
}

/// An x25519 public key.
#[derive(Clone, Copy, Debug, PartialEq, Eq)]
pub struct PublicKey {
    pub bytes: [u8; 32],
}

/// An x25519 private key.
#[derive(Clone, Copy, Debug, PartialEq, Eq)]
pub struct PrivateKey {
    pub bytes: [u8; 32],
}

/// Unique identifier of a network participant. Two identities are the same
/// participant exactly when their sixteen identity bytes agree; the bytes are
/// held as one number, most significant byte first.
#[derive(Clone, Copy, Debug, PartialEq, Eq, Structural, Hash)]
pub struct PeerId {
    pub id: u128,
}

impl PublicKey {
    pub fn new(bytes: [u8; 32]) -> (key: PublicKey)
        ensures
            key.bytes == bytes,
    {
        PublicKey { bytes }
    }

    /// Whether two keys hold the same bytes.
    pub fn same_as(&self, other: &PublicKey) -> (same: bool)
        ensures
            same <==> self.bytes@ == other.bytes@,
    {
        let mut i: usize = 0;
        while i < 32
            invariant
                i <= 32,
                forall|j: int| 0 <= j < i ==> self.bytes@[j] == other.bytes@[j],
            decreases 32 - i,
        {
            if self.bytes[i] != other.bytes[i] {
                return false;
            }
            i = i + 1;
        }
        assert(self.bytes@ =~= other.bytes@);
        true
    }
}

impl PrivateKey {
    pub fn new(bytes: [u8; 32]) -> (key: PrivateKey)
        ensures
            key.bytes == bytes,
    {
        PrivateKey { bytes }
    }

    /// The public half of the key pair.
    pub fn public_key(&self) -> (public: PublicKey)
        ensures
            public.bytes@ == x25519_public_key(self.bytes@),
            public == public_key_of(*self),
    {
        let public = PublicKey { bytes: x25519_base_mult(&self.bytes) };
        proof {
            let chosen = public_key_of(*self);
            assert(chosen.bytes@ == public.bytes@);
            assert(chosen.bytes =~= public.bytes);
        }
        public
    }
}

impl PeerId {
    pub fn new(id: u128) -> (peer: PeerId)
        ensures
            peer.id == id,
    {
        PeerId { id }
    }

    /// The identity that stands for "none configured": all bytes zero.
    pub fn unset() -> (peer: PeerId)
        ensures
            peer.id == 0,
    {
        PeerId { id: 0 }
    }

    /// Derives the identity of a self-identifying node from its public key.
    /// The result depends on the key's bytes alone.
    pub fn from_identity_public_key(public_key: &PublicKey) -> (peer: PeerId)
        ensures
            peer.id as nat == derived_peer_id(public_key.bytes@),
    {
        let ghost tail = public_key.bytes@.subrange(16, 32);
        let mut acc: u128 = 0;
        let mut i: usize = 0;
        while i < 16
            invariant
                i <= 16,
                tail == public_key.bytes@.subrange(16, 32),
                acc as nat == be_value(tail.take(i as int)),
            decreases 16 - i,
        {
            let byte: u8 = public_key.bytes[16 + i];
            proof {
                let next = tail.take(i as int + 1);
                assert(next.drop_last() =~= tail.take(i as int));
                assert(next.last() == byte);
                lemma_be_value_bound(next);
                lemma_pow256_monotonic(next.len(), 16);
                assert(pow256(16) == 0x1_0000_0000_0000_0000_0000_0000_0000_0000) by {
                    reveal_with_fuel(pow256, 17);
                }
            }
            acc = acc * 256 + byte as u128;
            i = i + 1;
        }
        assert(tail.take(16) =~= tail);
        PeerId { id: acc }
    }
}

/// How a node authenticates the connections it makes and accepts. A node
/// holds one mode from start to stop.
#[derive(Clone, Copy, Debug, PartialEq, Eq)]
pub enum AuthenticationMode {
    /// Only dialers authenticate listeners: a dialer pins the connection to
    /// the key it expects, a listener accepts any dialer's key.
    ServerOnly(PrivateKey),
    /// Dialer and listener both accept only keys of eligible peers.
    Mutual(PrivateKey),
}

/// The identity under which a node runs, once its mode is settled.
#[derive(Clone, Copy, Debug, PartialEq, Eq)]
pub struct ResolvedIdentity {
    /// The node's own private key.
    pub key: PrivateKey,
    /// The identity that the node presents.
    pub peer_id: PeerId,
    /// Whether remote keys are held against the eligible peers.
    pub restrict_to_eligible: bool,
}

/// The identity of a node with the given mode, configured identity and
/// public key. A node that only authenticates as a server and has no identity
/// configured is named after its public key; every other node keeps the
/// identity it was configured with.
pub open spec fn identity_of(
    mode: AuthenticationMode,
    configured: PeerId,
    public_key: PublicKey,
) -> ResolvedIdentity {
    match mode {
        AuthenticationMode::ServerOnly(key) => ResolvedIdentity {
            key,
            peer_id: if configured.id == 0 {
                PeerId { id: derived_peer_id(public_key.bytes@) as u128 }
            } else {
                configured
            },
            restrict_to_eligible: false,
        },
        AuthenticationMode::Mutual(key) => ResolvedIdentity {
            key,
            peer_id: configured,
            restrict_to_eligible: true,
        },
    }
}

impl AuthenticationMode {
    /// The private key that the mode authenticates with.
    pub open spec fn private_key(self) -> PrivateKey {
        match self {
            AuthenticationMode::ServerOnly(key) => key,
            AuthenticationMode::Mutual(key) => key,
        }
    }

    /// The public key of the mode's network identity key.
    pub fn public_key(&self) -> (public: PublicKey)
        ensures
            public.bytes@ == x25519_public_key(self.private_key().bytes@),
            public == public_key_of(self.private_key()),
    {
        match self {
            AuthenticationMode::ServerOnly(key) => key.public_key(),
            AuthenticationMode::Mutual(key) => key.public_key(),
        }
    }

    /// Settles the identity of a node whose public key is already known.
    pub fn identity_with(&self, configured: PeerId, public_key: &PublicKey) -> (identity:
        ResolvedIdentity)
        ensures
            identity == identity_of(*self, configured, *public_key),
    {
        match self {
            AuthenticationMode::ServerOnly(key) => {
                let peer_id = if configured.id == 0 {
                    PeerId::from_identity_public_key(public_key)
                } else {
                    configured
                };
                ResolvedIdentity { key: *key, peer_id, restrict_to_eligible: false }
            },
            AuthenticationMode::Mutual(key) => ResolvedIdentity {
                key: *key,
                peer_id: configured,
                restrict_to_eligible: true,
            },
        }
    }

    /// Settles the identity of a node: derives the public key and names the
    /// node as [`identity_of`] says.
    pub fn identity(&self, configured: PeerId) -> (identity: ResolvedIdentity)
        ensures
            identity == identity_of(*self, configured, public_key_of(self.private_key())),
    {
        let public_key = self.public_key();
        self.identity_with(configured, &public_key)
    }

    /// Whether a connection with a peer that presents `remote` may stand.
    /// Under mutual authentication the key must belong to an eligible peer,
    /// dialled or accepted; otherwise a listener accepts any key, and a dialer
    /// accepts the key it expects, or any key where it expects none.
    pub open spec fn admitted(
        self,
        remote: PublicKey,
        remote_is_eligible: bool,
        dialled: bool,
        expected: Option<PublicKey>,
    ) -> bool {
        match self {
            AuthenticationMode::Mutual(_) => remote_is_eligible,
            AuthenticationMode::ServerOnly(_) => match expected {
                Some(key) => dialled ==> key.bytes@ == remote.bytes@,
                None => true,
            },
        }
    }

    /// Decides whether a connection with a peer that presents `remote` may
    /// stand, given whether the key belongs to an eligible peer.
    pub fn admits(
        &self,
        remote: &PublicKey,
        remote_is_eligible: bool,
        dialled: bool,
        expected: Option<PublicKey>,
    ) -> (admitted: bool)
        ensures
            admitted == self.admitted(*remote, remote_is_eligible, dialled, expected),
    {
        match self {
            AuthenticationMode::Mutual(_) => remote_is_eligible,
            AuthenticationMode::ServerOnly(_) => match expected {
                Some(key) => !dialled || key.same_as(remote),
                None => true,
            },
        }
    }
}

/// The identity derived for a node that only authenticates as a server and
/// has none configured depends on the bytes of its public key and on nothing
/// else: two derivations from the same bytes agree, whenever and wherever
/// they are made, and whatever the private keys are.
pub proof fn lemma_identity_derivation_deterministic(
    first_key: PrivateKey,
    second_key: PrivateKey,
    first_public: PublicKey,
    second_public: PublicKey,
)
    requires
        first_public.bytes@ == second_public.bytes@,
    ensures
        identity_of(AuthenticationMode::ServerOnly(first_key), PeerId { id: 0 }, first_public).peer_id
            == identity_of(
            AuthenticationMode::ServerOnly(second_key),
            PeerId { id: 0 },
            second_public,
        ).peer_id,
        identity_of(AuthenticationMode::ServerOnly(first_key), PeerId { id: 0 }, first_public).peer_id.id
            == derived_peer_id(first_public.bytes@),
{
    lemma_be_value_bound(first_public.bytes@.subrange(16, 32));
    assert(pow256(16) == 0x1_0000_0000_0000_0000_0000_0000_0000_0000) by {
        reveal_with_fuel(pow256, 17);
    }
}

} // verus!

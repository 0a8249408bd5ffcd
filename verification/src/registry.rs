//! The eligible-peer registry and the seed-peer address book.
//!
//! The registry says which peers may connect and where they are known to
//! listen. It is only ever replaced as a whole, so a reader sees one snapshot
//! or the next, never parts of both. The seed peers are a fixed address book
//! that serves where the registry knows no address. Both are maps from a
//! peer's identity: no peer is entered twice, and entering a peer again
//! replaces what was entered of it. Both keep the order in which peers were
//! first entered, so that whoever walks them walks them the same way.

use vstd::prelude::*;
use crate::address::{NetworkAddress, Protocol};
use crate::identity::{AuthenticationMode, PeerId, PublicKey};
use crate::lookup::{distinct, first_index, lemma_distinct_push, lemma_first_index};

verus! {

/// The keys that authenticate a peer.
#[derive(Clone, Copy, Debug, PartialEq, Eq)]
pub struct NetworkPublicKeys {
    pub identity_public_key: PublicKey,
}

/// A peer that may connect, with the addresses it is known under.
#[derive(Debug, PartialEq, Eq)]
pub struct EligiblePeer {
    pub peer_id: PeerId,
    pub keys: NetworkPublicKeys,
    pub addresses: Vec<NetworkAddress>,
}

/// A peer of the fixed address book.
#[derive(Debug, PartialEq, Eq)]
pub struct SeedPeer {
    pub peer_id: PeerId,
    pub addresses: Vec<NetworkAddress>,
}

/// An eligible peer with its addresses as sequences of segments.
pub struct EligiblePeerView {
    pub peer_id: PeerId,
    pub keys: NetworkPublicKeys,
    pub addresses: Seq<Seq<Protocol>>,
}

/// A seed peer with its addresses as sequences of segments.
pub struct SeedPeerView {
    pub peer_id: PeerId,
    pub addresses: Seq<Seq<Protocol>>,
}

/// The peers that may connect, each entered once.
#[derive(Debug, PartialEq, Eq)]
pub struct Registry {
    entries: Vec<EligiblePeer>,
}

/// The fixed address book, each peer entered once.
#[derive(Debug, PartialEq, Eq)]
pub struct SeedPeers {
    entries: Vec<SeedPeer>,
}

/// Addresses as sequences of segments.
pub open spec fn address_views(addresses: Seq<NetworkAddress>) -> Seq<Seq<Protocol>> {
    Seq::new(addresses.len(), |i: int| addresses[i]@)
}

/// Eligible peers with their addresses as sequences of segments.
pub open spec fn eligible_views(entries: Seq<EligiblePeer>) -> Seq<EligiblePeerView> {
    Seq::new(entries.len(), |i: int| entries[i]@)
}

/// Seed peers with their addresses as sequences of segments.
pub open spec fn seed_views(entries: Seq<SeedPeer>) -> Seq<SeedPeerView> {
    Seq::new(entries.len(), |i: int| entries[i]@)
}

/// The identities of a registry's entries, in order.
pub open spec fn eligible_ids(entries: Seq<EligiblePeerView>) -> Seq<PeerId> {
    Seq::new(entries.len(), |i: int| entries[i].peer_id)
}

/// The identities of an address book's entries, in order.
pub open spec fn seed_ids(entries: Seq<SeedPeerView>) -> Seq<PeerId> {
    Seq::new(entries.len(), |i: int| entries[i].peer_id)
}

/// The address to dial among those known of a peer: the first, if any.
pub open spec fn best_address(addresses: Seq<Seq<Protocol>>) -> Option<Seq<Protocol>> {
    if addresses.len() > 0 {
        Some(addresses[0])
    } else {
        None
    }
}

/// Whether the registry lists the peer.
pub open spec fn is_eligible(entries: Seq<EligiblePeerView>, peer: PeerId) -> bool {
    first_index(eligible_ids(entries), peer) is Some
}

/// Whether the key authenticates a peer that the registry lists.
pub open spec fn key_is_eligible(entries: Seq<EligiblePeerView>, key: PublicKey) -> bool {
    exists|i: int|
        0 <= i < entries.len() && (#[trigger] entries[i]).keys.identity_public_key.bytes@
            == key.bytes@
}

/// The keys under which the registry lists the peer.
pub open spec fn eligible_keys(entries: Seq<EligiblePeerView>, peer: PeerId) -> Option<
    NetworkPublicKeys,
> {
    match first_index(eligible_ids(entries), peer) {
        Some(i) => Some(entries[i].keys),
        None => None,
    }
}

/// The address that the registry gives for the peer.
pub open spec fn eligible_address(entries: Seq<EligiblePeerView>, peer: PeerId) -> Option<
    Seq<Protocol>,
> {
    match first_index(eligible_ids(entries), peer) {
        Some(i) => best_address(entries[i].addresses),
        None => None,
    }
}

/// The address that the address book gives for the peer.
pub open spec fn seed_address(entries: Seq<SeedPeerView>, peer: PeerId) -> Option<Seq<Protocol>> {
    match first_index(seed_ids(entries), peer) {
        Some(i) => best_address(entries[i].addresses),
        None => None,
    }
}

/// The address under which a peer is to be reached: the one the registry
/// gives, else the one the address book gives. A peer is desired exactly when
/// there is such an address.
pub open spec fn desired_address(
    eligible: Seq<EligiblePeerView>,
    seeds: Seq<SeedPeerView>,
    peer: PeerId,
) -> Option<Seq<Protocol>> {
    match eligible_address(eligible, peer) {
        Some(address) => Some(address),
        None => seed_address(seeds, peer),
    }
}

/// The registry after a peer was entered: what was entered of the peer
/// before is replaced where it stood; a peer not entered before comes last.
pub open spec fn with_eligible(
    entries: Seq<EligiblePeerView>,
    peer: EligiblePeerView,
) -> Seq<EligiblePeerView> {
    match first_index(eligible_ids(entries), peer.peer_id) {
        Some(i) => entries.update(i, peer),
        None => entries.push(peer),
    }
}

/// The registry after the peers were entered into an empty one, in order.
pub open spec fn eligible_entered(peers: Seq<EligiblePeerView>) -> Seq<EligiblePeerView>
    decreases peers.len(),
{
    if peers.len() == 0 {
        Seq::empty()
    } else {
        with_eligible(eligible_entered(peers.drop_last()), peers.last())
    }
}

/// The address book after a peer was entered: what was entered of the peer
/// before is replaced where it stood; a peer not entered before comes last.
pub open spec fn with_seed(entries: Seq<SeedPeerView>, peer: SeedPeerView) -> Seq<SeedPeerView> {
    match first_index(seed_ids(entries), peer.peer_id) {
        Some(i) => entries.update(i, peer),
        None => entries.push(peer),
    }
}

/// The address book after the peers were entered into an empty one, in
/// order.
pub open spec fn seeds_entered(peers: Seq<SeedPeerView>) -> Seq<SeedPeerView>
    decreases peers.len(),
{
    if peers.len() == 0 {
        Seq::empty()
    } else {
        with_seed(seeds_entered(peers.drop_last()), peers.last())
    }
}

/// Copies addresses.
fn clone_addresses(addresses: &Vec<NetworkAddress>) -> (copy: Vec<NetworkAddress>)
    ensures
        address_views(copy@) == address_views(addresses@),
{
    let mut copy: Vec<NetworkAddress> = Vec::new();
    let mut i: usize = 0;
    while i < addresses.len()
        invariant
            i <= addresses.len(),
            copy@.len() == i,
            address_views(copy@) == address_views(addresses@).take(i as int),
        decreases addresses.len() - i,
    {
        let ghost before = copy@;
        copy.push(addresses[i].clone());
        proof {
            assert forall|j: int| 0 <= j < i implies address_views(copy@)[j] == address_views(
                addresses@,
            )[j] by {
                assert(address_views(before)[j] == address_views(addresses@).take(i as int)[j]);
            }
            assert(address_views(copy@) =~= address_views(addresses@).take(i as int + 1));
        }
        i = i + 1;
    }
    proof {
        assert(address_views(copy@) =~= address_views(addresses@));
    }
    copy
}

/// The first of a peer's addresses, copied.
fn first_address(addresses: &Vec<NetworkAddress>) -> (address: Option<NetworkAddress>)
    ensures
        match address {
            Some(a) => best_address(address_views(addresses@)) == Some(a@),
            None => best_address(address_views(addresses@)) is None,
        },
{
    if addresses.len() > 0 {
        Some(addresses[0].clone())
    } else {
        None
    }
}

impl View for EligiblePeer {
    type V = EligiblePeerView;

    open spec fn view(&self) -> EligiblePeerView {
        EligiblePeerView {
            peer_id: self.peer_id,
            keys: self.keys,
            addresses: address_views(self.addresses@),
        }
    }
}

impl View for SeedPeer {
    type V = SeedPeerView;

    open spec fn view(&self) -> SeedPeerView {
        SeedPeerView { peer_id: self.peer_id, addresses: address_views(self.addresses@) }
    }
}

impl Clone for EligiblePeer {
    fn clone(&self) -> (copy: EligiblePeer)
        ensures
            copy@ == self@,
    {
        EligiblePeer {
            peer_id: self.peer_id,
            keys: self.keys,
            addresses: clone_addresses(&self.addresses),
        }
    }
}

impl Clone for SeedPeer {
    fn clone(&self) -> (copy: SeedPeer)
        ensures
            copy@ == self@,
    {
        SeedPeer { peer_id: self.peer_id, addresses: clone_addresses(&self.addresses) }
    }
}

impl EligiblePeer {
    pub fn new(peer_id: PeerId, keys: NetworkPublicKeys, addresses: Vec<NetworkAddress>) -> (peer:
        EligiblePeer)
        ensures
            peer.peer_id == peer_id,
            peer.keys == keys,
            peer.addresses == addresses,
    {
        EligiblePeer { peer_id, keys, addresses }
    }
}

impl SeedPeer {
    pub fn new(peer_id: PeerId, addresses: Vec<NetworkAddress>) -> (peer: SeedPeer)
        ensures
            peer.peer_id == peer_id,
            peer.addresses == addresses,
    {
        SeedPeer { peer_id, addresses }
    }
}

impl View for Registry {
    type V = Seq<EligiblePeerView>;

    closed spec fn view(&self) -> Seq<EligiblePeerView> {
        eligible_views(self.entries@)
    }
}

/// Where the entries list the peer.
fn eligible_position(entries: &Vec<EligiblePeer>, peer: PeerId) -> (found: Option<usize>)
    ensures
        match found {
            Some(i) => i < entries@.len() && entries@[i as int].peer_id == peer && first_index(
                eligible_ids(eligible_views(entries@)),
                peer,
            ) == Some(i as int),
            None => first_index(eligible_ids(eligible_views(entries@)), peer) is None,
        },
{
    let ghost ids = eligible_ids(eligible_views(entries@));
    let mut i: usize = 0;
    while i < entries.len()
        invariant
            i <= entries.len(),
            ids == eligible_ids(eligible_views(entries@)),
            forall|j: int| 0 <= j < i ==> ids[j] != peer,
        decreases entries.len() - i,
    {
        if entries[i].peer_id == peer {
            proof {
                assert(ids[i as int] == peer);
                lemma_first_index(ids, peer);
            }
            return Some(i);
        }
        i = i + 1;
    }
    proof {
        lemma_first_index(ids, peer);
    }
    None
}

impl Clone for Registry {
    fn clone(&self) -> (copy: Registry)
        ensures
            copy@ == self@,
    {
        proof {
            use_type_invariant(self);
        }
        let mut entries: Vec<EligiblePeer> = Vec::new();
        let mut i: usize = 0;
        while i < self.entries.len()
            invariant
                i <= self.entries.len(),
                entries@.len() == i,
                eligible_views(entries@) == eligible_views(self.entries@).take(i as int),
            decreases self.entries.len() - i,
        {
            let ghost before = entries@;
            entries.push(self.entries[i].clone());
            proof {
                assert forall|j: int| 0 <= j < i implies eligible_views(entries@)[j] == eligible_views(
                    self.entries@,
                )[j] by {
                    assert(eligible_views(before)[j] == eligible_views(self.entries@).take(i as int)[j]);
                }
                assert(eligible_views(entries@) =~= eligible_views(self.entries@).take(
                    i as int + 1,
                ));
            }
            i = i + 1;
        }
        proof {
            assert(eligible_views(entries@) =~= eligible_views(self.entries@));
        }
        Registry { entries }
    }
}

impl Registry {
    /// No peer is entered twice.
    #[verifier::type_invariant]
    spec fn unique(self) -> bool {
        distinct(eligible_ids(eligible_views(self.entries@)))
    }

    /// A registry that lists nobody.
    pub fn new() -> (registry: Registry)
        ensures
            registry@ == Seq::<EligiblePeerView>::empty(),
    {
        let entries: Vec<EligiblePeer> = Vec::new();
        proof {
            assert(eligible_views(entries@) =~= Seq::<EligiblePeerView>::empty());
        }
        Registry { entries }
    }

    /// Enters a peer. What was entered of the peer before is replaced.
    pub fn with_peer(self, peer: EligiblePeer) -> (registry: Registry)
        ensures
            registry@ == with_eligible(self@, peer@),
            distinct(eligible_ids(registry@)),
    {
        proof {
            use_type_invariant(&self);
        }
        let ghost before = eligible_views(self.entries@);
        let ghost entered = peer@;
        let mut entries = self.entries;
        match eligible_position(&entries, peer.peer_id) {
            Some(i) => {
                entries.set(i, peer);
                proof {
                    assert(eligible_views(entries@) =~= before.update(i as int, entered));
                    assert(eligible_ids(eligible_views(entries@)) =~= eligible_ids(before));
                }
            },
            None => {
                entries.push(peer);
                proof {
                    assert(eligible_views(entries@) =~= before.push(entered));
                    lemma_distinct_push(eligible_ids(before), entered.peer_id);
                    assert(eligible_ids(eligible_views(entries@)) =~= eligible_ids(before).push(
                        entered.peer_id,
                    ));
                }
            },
        }
        Registry { entries }
    }

    /// The registry in which the given peers are entered, in order.
    pub fn from_entries(peers: Vec<EligiblePeer>) -> (registry: Registry)
        ensures
            registry@ == eligible_entered(eligible_views(peers@)),
            distinct(eligible_ids(registry@)),
    {
        let mut registry = Registry::new();
        let ghost views = eligible_views(peers@);
        let mut i: usize = 0;
        while i < peers.len()
            invariant
                i <= peers.len(),
                views == eligible_views(peers@),
                registry@ == eligible_entered(views.take(i as int)),
                distinct(eligible_ids(registry@)),
            decreases peers.len() - i,
        {
            proof {
                assert(views.take(i as int + 1).drop_last() =~= views.take(i as int));
                assert(views.take(i as int + 1).last() == peers@[i as int]@);
            }
            registry = registry.with_peer(peers[i].clone());
            i = i + 1;
        }
        proof {
            assert(views.take(peers.len() as int) =~= views);
        }
        registry
    }

    /// Replaces the whole registry. Nothing of the old snapshot stays.
    pub fn replace(&mut self, snapshot: Registry)
        ensures
            final(self)@ == snapshot@,
    {
        *self = snapshot;
    }

    /// How many peers are listed.
    pub fn len(&self) -> (len: usize)
        ensures
            len == self@.len(),
    {
        self.entries.len()
    }

    /// The peers as they are entered, in order.
    pub fn entries(&self) -> (entries: &Vec<EligiblePeer>)
        ensures
            eligible_views(entries@) == self@,
            distinct(eligible_ids(self@)),
    {
        proof {
            use_type_invariant(self);
        }
        &self.entries
    }

    /// The identities of the peers, in order. None occurs twice.
    pub fn ids(&self) -> (ids: Vec<PeerId>)
        ensures
            ids@ == eligible_ids(self@),
            distinct(ids@),
    {
        proof {
            use_type_invariant(self);
        }
        let mut ids: Vec<PeerId> = Vec::new();
        let mut i: usize = 0;
        while i < self.entries.len()
            invariant
                i <= self.entries.len(),
                ids@ == eligible_ids(self@).take(i as int),
            decreases self.entries.len() - i,
        {
            ids.push(self.entries[i].peer_id);
            proof {
                assert(ids@ =~= eligible_ids(self@).take(i as int + 1));
            }
            i = i + 1;
        }
        proof {
            assert(ids@ =~= eligible_ids(self@));
        }
        ids
    }

    /// Where the registry lists the peer.
    pub fn position(&self, peer: PeerId) -> (found: Option<usize>)
        ensures
            match found {
                Some(i) => i < self@.len() && self@[i as int].peer_id == peer && first_index(
                    eligible_ids(self@),
                    peer,
                ) == Some(i as int),
                None => first_index(eligible_ids(self@), peer) is None,
            },
    {
        eligible_position(&self.entries, peer)
    }

    /// Whether the registry knows an address of the peer.
    pub fn has_address(&self, peer: PeerId) -> (known: bool)
        ensures
            known == (eligible_address(self@, peer) is Some),
    {
        match eligible_position(&self.entries, peer) {
            Some(i) => self.entries[i].addresses.len() > 0,
            None => false,
        }
    }

    /// The address under which the registry knows the peer.
    pub fn address_of(&self, peer: PeerId) -> (address: Option<NetworkAddress>)
        ensures
            match address {
                Some(a) => eligible_address(self@, peer) == Some(a@),
                None => eligible_address(self@, peer) is None,
            },
    {
        match eligible_position(&self.entries, peer) {
            Some(i) => first_address(&self.entries[i].addresses),
            None => None,
        }
    }
}

impl Registry {
    /// Whether the peer may connect.
    pub fn contains(&self, peer: PeerId) -> (listed: bool)
        ensures
            listed == is_eligible(self@, peer),
    {
        self.position(peer).is_some()
    }

    /// Whether the key authenticates a peer that may connect.
    pub fn lists_key(&self, key: &PublicKey) -> (listed: bool)
        ensures
            listed == key_is_eligible(self@, *key),
    {
        let mut i: usize = 0;
        while i < self.entries.len()
            invariant
                i <= self.entries.len(),
                forall|j: int|
                    0 <= j < i ==> (#[trigger] self@[j]).keys.identity_public_key.bytes@
                        != key.bytes@,
            decreases self.entries.len() - i,
        {
            if self.entries[i].keys.identity_public_key.same_as(key) {
                proof {
                    assert(self@[i as int].keys.identity_public_key.bytes@ == key.bytes@);
                }
                return true;
            }
            i = i + 1;
        }
        false
    }

    /// Decides at the time of a handshake whether the connection with a
    /// peer that presents `remote` may stand, with the registry as it is at
    /// that time.
    pub fn admits(
        &self,
        mode: &AuthenticationMode,
        remote: &PublicKey,
        dialled: bool,
        expected: Option<PublicKey>,
    ) -> (admitted: bool)
        ensures
            admitted == mode.admitted(
                *remote,
                key_is_eligible(self@, *remote),
                dialled,
                expected,
            ),
    {
        let listed = self.lists_key(remote);
        mode.admits(remote, listed, dialled, expected)
    }

    /// The keys that authenticate the peer, if it may connect.
    pub fn keys_of(&self, peer: PeerId) -> (keys: Option<NetworkPublicKeys>)
        ensures
            keys == eligible_keys(self@, peer),
    {
        match eligible_position(&self.entries, peer) {
            Some(i) => Some(self.entries[i].keys),
            None => None,
        }
    }
}

impl View for SeedPeers {
    type V = Seq<SeedPeerView>;

    closed spec fn view(&self) -> Seq<SeedPeerView> {
        seed_views(self.entries@)
    }
}

/// Where the entries list the peer.
fn seed_position(entries: &Vec<SeedPeer>, peer: PeerId) -> (found: Option<usize>)
    ensures
        match found {
            Some(i) => i < entries@.len() && entries@[i as int].peer_id == peer && first_index(
                seed_ids(seed_views(entries@)),
                peer,
            ) == Some(i as int),
            None => first_index(seed_ids(seed_views(entries@)), peer) is None,
        },
{
    let ghost ids = seed_ids(seed_views(entries@));
    let mut i: usize = 0;
    while i < entries.len()
        invariant
            i <= entries.len(),
            ids == seed_ids(seed_views(entries@)),
            forall|j: int| 0 <= j < i ==> ids[j] != peer,
        decreases entries.len() - i,
    {
        if entries[i].peer_id == peer {
            proof {
                assert(ids[i as int] == peer);
                lemma_first_index(ids, peer);
            }
            return Some(i);
        }
        i = i + 1;
    }
    proof {
        lemma_first_index(ids, peer);
    }
    None
}

impl Clone for SeedPeers {
    fn clone(&self) -> (copy: SeedPeers)
        ensures
            copy@ == self@,
    {
        proof {
            use_type_invariant(self);
        }
        let mut entries: Vec<SeedPeer> = Vec::new();
        let mut i: usize = 0;
        while i < self.entries.len()
            invariant
                i <= self.entries.len(),
                entries@.len() == i,
                seed_views(entries@) == seed_views(self.entries@).take(i as int),
            decreases self.entries.len() - i,
        {
            let ghost before = entries@;
            entries.push(self.entries[i].clone());
            proof {
                assert forall|j: int| 0 <= j < i implies seed_views(entries@)[j] == seed_views(
                    self.entries@,
                )[j] by {
                    assert(seed_views(before)[j] == seed_views(self.entries@).take(i as int)[j]);
                }
                assert(seed_views(entries@) =~= seed_views(self.entries@).take(
                    i as int + 1,
                ));
            }
            i = i + 1;
        }
        proof {
            assert(seed_views(entries@) =~= seed_views(self.entries@));
        }
        SeedPeers { entries }
    }
}

impl SeedPeers {
    /// No peer is entered twice.
    #[verifier::type_invariant]
    spec fn unique(self) -> bool {
        distinct(seed_ids(seed_views(self.entries@)))
    }

    /// An empty address book.
    pub fn new() -> (seeds: SeedPeers)
        ensures
            seeds@ == Seq::<SeedPeerView>::empty(),
    {
        let entries: Vec<SeedPeer> = Vec::new();
        proof {
            assert(seed_views(entries@) =~= Seq::<SeedPeerView>::empty());
        }
        SeedPeers { entries }
    }

    /// Enters a peer. What was entered of the peer before is replaced.
    pub fn with_peer(self, peer: SeedPeer) -> (seeds: SeedPeers)
        ensures
            seeds@ == with_seed(self@, peer@),
            distinct(seed_ids(seeds@)),
    {
        proof {
            use_type_invariant(&self);
        }
        let ghost before = seed_views(self.entries@);
        let ghost entered = peer@;
        let mut entries = self.entries;
        match seed_position(&entries, peer.peer_id) {
            Some(i) => {
                entries.set(i, peer);
                proof {
                    assert(seed_views(entries@) =~= before.update(i as int, entered));
                    assert(seed_ids(seed_views(entries@)) =~= seed_ids(before));
                }
            },
            None => {
                entries.push(peer);
                proof {
                    assert(seed_views(entries@) =~= before.push(entered));
                    lemma_distinct_push(seed_ids(before), entered.peer_id);
                    assert(seed_ids(seed_views(entries@)) =~= seed_ids(before).push(
                        entered.peer_id,
                    ));
                }
            },
        }
        SeedPeers { entries }
    }

    /// The address book in which the given peers are entered, in order.
    pub fn from_entries(peers: Vec<SeedPeer>) -> (seeds: SeedPeers)
        ensures
            seeds@ == seeds_entered(seed_views(peers@)),
            distinct(seed_ids(seeds@)),
    {
        let mut seeds = SeedPeers::new();
        let ghost views = seed_views(peers@);
        let mut i: usize = 0;
        while i < peers.len()
            invariant
                i <= peers.len(),
                views == seed_views(peers@),
                seeds@ == seeds_entered(views.take(i as int)),
                distinct(seed_ids(seeds@)),
            decreases peers.len() - i,
        {
            proof {
                assert(views.take(i as int + 1).drop_last() =~= views.take(i as int));
                assert(views.take(i as int + 1).last() == peers@[i as int]@);
            }
            seeds = seeds.with_peer(peers[i].clone());
            i = i + 1;
        }
        proof {
            assert(views.take(peers.len() as int) =~= views);
        }
        seeds
    }

    /// Replaces the whole address book.
    pub fn replace(&mut self, snapshot: SeedPeers)
        ensures
            final(self)@ == snapshot@,
    {
        *self = snapshot;
    }

    /// How many peers are listed.
    pub fn len(&self) -> (len: usize)
        ensures
            len == self@.len(),
    {
        self.entries.len()
    }

    /// The peers as they are entered, in order.
    pub fn entries(&self) -> (entries: &Vec<SeedPeer>)
        ensures
            seed_views(entries@) == self@,
            distinct(seed_ids(self@)),
    {
        proof {
            use_type_invariant(self);
        }
        &self.entries
    }

    /// The identities of the peers, in order. None occurs twice.
    pub fn ids(&self) -> (ids: Vec<PeerId>)
        ensures
            ids@ == seed_ids(self@),
            distinct(ids@),
    {
        proof {
            use_type_invariant(self);
        }
        let mut ids: Vec<PeerId> = Vec::new();
        let mut i: usize = 0;
        while i < self.entries.len()
            invariant
                i <= self.entries.len(),
                ids@ == seed_ids(self@).take(i as int),
            decreases self.entries.len() - i,
        {
            ids.push(self.entries[i].peer_id);
            proof {
                assert(ids@ =~= seed_ids(self@).take(i as int + 1));
            }
            i = i + 1;
        }
        proof {
            assert(ids@ =~= seed_ids(self@));
        }
        ids
    }

    /// Where the address book lists the peer.
    pub fn position(&self, peer: PeerId) -> (found: Option<usize>)
        ensures
            match found {
                Some(i) => i < self@.len() && self@[i as int].peer_id == peer && first_index(
                    seed_ids(self@),
                    peer,
                ) == Some(i as int),
                None => first_index(seed_ids(self@), peer) is None,
            },
    {
        seed_position(&self.entries, peer)
    }

    /// Whether the address book knows an address of the peer.
    pub fn has_address(&self, peer: PeerId) -> (known: bool)
        ensures
            known == (seed_address(self@, peer) is Some),
    {
        match seed_position(&self.entries, peer) {
            Some(i) => self.entries[i].addresses.len() > 0,
            None => false,
        }
    }

    /// The address under which the address book knows the peer.
    pub fn address_of(&self, peer: PeerId) -> (address: Option<NetworkAddress>)
        ensures
            match address {
                Some(a) => seed_address(self@, peer) == Some(a@),
                None => seed_address(self@, peer) is None,
            },
    {
        match seed_position(&self.entries, peer) {
            Some(i) => first_address(&self.entries[i].addresses),
            None => None,
        }
    }
}

/// Whether a peer is desired: whether an address is known under which to
/// reach it.
pub fn is_desired(eligible: &Registry, seeds: &SeedPeers, peer: PeerId) -> (desired: bool)
    ensures
        desired == (desired_address(eligible@, seeds@, peer) is Some),
{
    eligible.has_address(peer) || seeds.has_address(peer)
}

/// The address under which a peer is to be reached, if it is desired.
pub fn desired_address_of(eligible: &Registry, seeds: &SeedPeers, peer: PeerId) -> (address:
    Option<NetworkAddress>)
    ensures
        match address {
            Some(a) => desired_address(eligible@, seeds@, peer) == Some(a@),
            None => desired_address(eligible@, seeds@, peer) is None,
        },
{
    match eligible.address_of(peer) {
        Some(address) => Some(address),
        None => seeds.address_of(peer),
    }
}

} // verus!

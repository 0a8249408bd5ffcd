//! Finding a peer in a sequence of identities.

use vstd::prelude::*;
use crate::identity::PeerId;

verus! {

/// The first position at which `peer` occurs in `ids`, if it occurs at all.
pub open spec fn first_index(ids: Seq<PeerId>, peer: PeerId) -> Option<int>
    decreases ids.len(),
{
    if ids.len() == 0 {
        None
    } else {
        match first_index(ids.drop_last(), peer) {
            Some(i) => Some(i),
            None => if ids.last() == peer {
                Some(ids.len() - 1)
            } else {
                None
            },
        }
    }
}

/// Whether no identity occurs twice.
pub open spec fn distinct(ids: Seq<PeerId>) -> bool {
    forall|i: int, j: int| 0 <= i < j < ids.len() ==> ids[i] != ids[j]
}

/// `first_index` finds the first occurrence, and finds none only where there
/// is none.
pub proof fn lemma_first_index(ids: Seq<PeerId>, peer: PeerId)
    ensures
        match first_index(ids, peer) {
            Some(i) => 0 <= i < ids.len() && ids[i] == peer && forall|j: int|
                0 <= j < i ==> ids[j] != peer,
            None => forall|j: int| 0 <= j < ids.len() ==> ids[j] != peer,
        },
    decreases ids.len(),
{
    if ids.len() > 0 {
        let prefix = ids.drop_last();
        lemma_first_index(prefix, peer);
        assert forall|j: int| 0 <= j < prefix.len() implies #[trigger] ids[j] == prefix[j] by {}
    }
}

/// An identity that does not occur among distinct ones joins them without
/// occurring twice.
pub proof fn lemma_distinct_push(ids: Seq<PeerId>, peer: PeerId)
    requires
        distinct(ids),
        first_index(ids, peer) is None,
    ensures
        distinct(ids.push(peer)),
{
    lemma_first_index(ids, peer);
}

} // verus!

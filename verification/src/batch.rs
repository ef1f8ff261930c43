//! Closing a batch: collect the unbatched attestations of a period in
//! commit order, commit to their hashes with a merkle root, and record the
//! batch with its membership rows. Empty periods produce no batch.

use vstd::prelude::*;

use crate::federation::AttestationBatch;
use crate::merkle::MerkleTree;
use crate::merkle::hashes_view;
use crate::merkle::spec_root_from;
use crate::store::Storage;
use crate::store::StoredAttestation;
use crate::store::lemma_rec_index_range;
use crate::store::spec_has_hash;
use crate::store::spec_rec_index;
use crate::store::spec_batch_hashes_rows;
use crate::store::spec_unbatched;

verus! {

/// The leaf hashes of the unbatched records at or after `since`, in commit
/// (and so leaf) order.
pub open spec fn spec_unbatched_leaves(recs: Seq<StoredAttestation>, since: u64) -> Seq<Seq<u8>> {
    spec_unbatched(recs, since).map_values(|r: StoredAttestation| r.attestation.hash@)
}

/// The unbatched records are records: each appears in the store, is
/// unbatched and recent enough, and their hashes are pairwise distinct when
/// the store's are.
proof fn lemma_unbatched_props(recs: Seq<StoredAttestation>, since: u64)
    requires
        forall|i: int, j: int|
            0 <= i < j < recs.len() ==> (#[trigger] recs[i]).attestation.hash@ != (
            #[trigger] recs[j]).attestation.hash@,
    ensures
        forall|i: int|
            0 <= i < spec_unbatched(recs, since).len() ==> (#[trigger] spec_unbatched(
                recs,
                since,
            )[i]).batch_id is None,
        forall|i: int|
            0 <= i < spec_unbatched(recs, since).len() ==> exists|k: int|
                0 <= k < recs.len() && recs[k] == #[trigger] spec_unbatched(recs, since)[i],
        forall|i: int, j: int|
            0 <= i < j < spec_unbatched(recs, since).len() ==> (#[trigger] spec_unbatched(
                recs,
                since,
            )[i]).attestation.hash@ != (#[trigger] spec_unbatched(recs, since)[j]).attestation.hash@,
    decreases recs.len(),
{
    let ub = spec_unbatched(recs, since);
    if recs.len() == 0 {
    } else {
        let rest = recs.drop_first();
        assert forall|i: int, j: int|
            0 <= i < j < rest.len() implies (#[trigger] rest[i]).attestation.hash@ != (
            #[trigger] rest[j]).attestation.hash@ by {
            assert(rest[i] == recs[i + 1]);
            assert(rest[j] == recs[j + 1]);
        }
        lemma_unbatched_props(rest, since);
        let ubr = spec_unbatched(rest, since);
        if recs[0].batch_id is None && recs[0].attestation.timestamp >= since {
            assert(ub =~= seq![recs[0]] + ubr);
            assert forall|i: int|
                0 <= i < ub.len() implies exists|k: int|
                0 <= k < recs.len() && recs[k] == #[trigger] ub[i] by {
                if i == 0 {
                    assert(recs[0] == ub[0]);
                } else {
                    assert(ub[i] == ubr[i - 1]);
                    let k0 = choose|k: int| 0 <= k < rest.len() && rest[k] == ubr[i - 1];
                    assert(recs[k0 + 1] == ub[i]);
                }
            }
            assert forall|i: int, j: int|
                0 <= i < j < ub.len() implies (#[trigger] ub[i]).attestation.hash@ != (
                #[trigger] ub[j]).attestation.hash@ by {
                if i == 0 {
                    let k0 = choose|k: int| 0 <= k < rest.len() && rest[k] == ubr[j - 1];
                    assert(ub[j] == ubr[j - 1]);
                    assert(recs[k0 + 1] == ub[j]);
                    assert(recs[0].attestation.hash@ != recs[k0 + 1].attestation.hash@);
                } else {
                    assert(ub[i] == ubr[i - 1]);
                    assert(ub[j] == ubr[j - 1]);
                }
            }
        } else {
            assert(ub =~= ubr);
            assert forall|i: int|
                0 <= i < ub.len() implies exists|k: int|
                0 <= k < recs.len() && recs[k] == #[trigger] ub[i] by {
                let k0 = choose|k: int| 0 <= k < rest.len() && rest[k] == ubr[i];
                assert(recs[k0 + 1] == ub[i]);
            }
        }
    }
}

/// Closes the batch for the period from `last_batch_time` to `now`: loads
/// the unbatched attestations in commit order, commits to their hashes with
/// a merkle root, and stores the batch with one membership row per leaf.
/// Returns `None`, leaving the store untouched, when the period is empty.
#[verifier::rlimit(50)]
pub fn close_batch(
    storage: &mut Storage,
    network_id: &String,
    last_batch_time: u64,
    now: u64,
) -> (r: Option<AttestationBatch>)
    requires
        old(storage).wf(),
        old(storage).spec_batches().len() < usize::MAX,
    ensures
        final(storage).wf(),
        r is Some <==> spec_unbatched(old(storage).records(), last_batch_time).len() > 0,
        r is None ==> *final(storage) == *old(storage),
        r matches Some(b) ==> {
            let leaves = spec_unbatched_leaves(old(storage).records(), last_batch_time);
            &&& b.id == old(storage).spec_batches().len() + 1
            &&& b.network_id@ == network_id@
            &&& b.merkle_root@ == spec_root_from(leaves)
            &&& b.period_start == last_batch_time
            &&& b.period_end == now
            &&& b.attestation_count == leaves.len()
            &&& final(storage).spec_batches().len() == old(storage).spec_batches().len() + 1
            &&& final(storage).spec_batches().last().id == b.id
            &&& final(storage).spec_batches().last().merkle_root@ == spec_root_from(leaves)
            &&& final(storage).spec_memberships().len() == old(
                storage,
            ).spec_memberships().len() + leaves.len()
            &&& (forall|i: int|
                0 <= i < leaves.len() ==> {
                    let m = #[trigger] final(storage).spec_memberships()[old(
                        storage,
                    ).spec_memberships().len() + i];
                    &&& m.batch_id == b.id
                    &&& m.hash@ == leaves[i]
                    &&& m.merkle_index == i
                })
            &&& hashes_view(spec_batch_hashes_rows(final(storage).spec_memberships(), b.id))
                == leaves
        },
{
    let attestations = storage.get_unbatched_attestations(last_batch_time);
    if attestations.len() == 0 {
        return None;
    }
    let ghost recs = storage.records();
    let ghost ub = spec_unbatched(recs, last_batch_time);
    let n = attestations.len();
    let mut leaves: Vec<[u8; 32]> = Vec::new();
    let mut tree_leaves: Vec<[u8; 32]> = Vec::new();
    let mut i: usize = 0;
    while i < n
        invariant
            n == attestations@.len(),
            n == ub.len(),
            ub == spec_unbatched(recs, last_batch_time),
            forall|j: int|
                0 <= j < n ==> crate::types::attestation_equiv(
                    (#[trigger] attestations@[j]).attestation,
                    ub[j].attestation,
                ),
            i <= n,
            leaves@.len() == i,
            tree_leaves@ == leaves@,
            forall|j: int| 0 <= j < i ==> (#[trigger] leaves@[j])@ == ub[j].attestation.hash@,
        decreases n - i,
    {
        leaves.push(attestations[i].attestation.hash);
        tree_leaves.push(attestations[i].attestation.hash);
        i = i + 1;
    }
    let tree = MerkleTree::new(tree_leaves);
    let merkle_root = tree.root();
    proof {
        assert(hashes_view(leaves@) =~= spec_unbatched_leaves(recs, last_batch_time));
    }
    let batch = AttestationBatch {
        id: 0,
        network_id: network_id.clone(),
        merkle_root,
        period_start: last_batch_time,
        period_end: now,
        attestation_count: n as u64,
    };
    proof {
        lemma_unbatched_props(recs, last_batch_time);
        assert forall|a: int, b2: int|
            0 <= a < b2 < leaves@.len() implies (#[trigger] leaves@[a])@ != (
            #[trigger] leaves@[b2])@ by {
            assert(ub[a].attestation.hash@ != ub[b2].attestation.hash@);
        }
        assert forall|j: int|
            0 <= j < leaves@.len() implies spec_has_hash(recs, (#[trigger] leaves@[j])@) && recs[
            spec_rec_index(recs, leaves@[j]@)].batch_id is None by {
            let h = leaves@[j]@;
            let k = choose|k: int| 0 <= k < recs.len() && recs[k] == ub[j];
            assert(recs[k].attestation.hash@ == h);
            lemma_rec_index_range(recs, h);
            if spec_rec_index(recs, h) < 0 {
                assert(recs[k].attestation.hash@ != h);
            }
            let idx = spec_rec_index(recs, h);
            if idx != k {
                assert(recs[idx].attestation.hash@ != recs[k].attestation.hash@);
            }
            assert(recs[idx].batch_id is None);
        }
    }
    let batch_id = storage.store_batch(&batch, &leaves);
    let closed = AttestationBatch {
        id: batch_id,
        network_id: batch.network_id,
        merkle_root: batch.merkle_root,
        period_start: batch.period_start,
        period_end: batch.period_end,
        attestation_count: batch.attestation_count,
    };
    proof {
        assert forall|j: int|
            0 <= j < leaves@.len() implies (#[trigger] final(storage).spec_memberships()[old(
            storage,
        ).spec_memberships().len() + j]).hash@ == spec_unbatched_leaves(
            recs,
            last_batch_time,
        )[j] by {
            assert(final(storage).spec_memberships()[old(storage).spec_memberships().len() + j].hash
                == leaves@[j]);
        }
        assert(hashes_view(spec_batch_hashes_rows(final(storage).spec_memberships(), batch_id))
            =~= spec_unbatched_leaves(recs, last_batch_time));
    }
    Some(closed)
}

} // verus!

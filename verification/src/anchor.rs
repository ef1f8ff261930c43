//! Processing the anchor providers' replies: count the successful proofs
//! and persist them only when the configured minimum is met. Below the
//! minimum nothing is persisted: anchoring is all-or-nothing per batch.

use vstd::prelude::*;

use crate::encoding::copy_bytes;
use crate::error::WitnessError;
use crate::external_anchors::AnchorResponse;
use crate::external_anchors::ExternalAnchorProof;
use crate::store::Storage;
use crate::store::proof_equiv;

verus! {

/// The proofs of the successful replies, in arrival order.
pub open spec fn spec_successful(rs: Seq<AnchorResponse>) -> Seq<ExternalAnchorProof>
    decreases rs.len(),
{
    if rs.len() == 0 {
        Seq::empty()
    } else {
        (if rs[0].success {
            match rs[0].proof {
                Some(p) => seq![p],
                None => Seq::<ExternalAnchorProof>::empty(),
            }
        } else {
            Seq::<ExternalAnchorProof>::empty()
        }) + spec_successful(rs.drop_first())
    }
}

/// View-level equality of two anchor proofs.
pub open spec fn anchor_proof_equiv(a: ExternalAnchorProof, b: ExternalAnchorProof) -> bool {
    &&& a.provider == b.provider
    &&& a.timestamp == b.timestamp
    &&& a.proof@ == b.proof@
    &&& (a.anchored_data is Some <==> b.anchored_data is Some)
    &&& (a.anchored_data matches Some(d) ==> b.anchored_data matches Some(d2) && d@ == d2@)
}

/// Processes the providers' replies for a batch. When fewer proofs
/// succeeded than the required minimum, nothing is persisted and the call
/// fails; otherwise every successful proof is persisted against the batch,
/// in arrival order. Attestations, batches and memberships never change.
pub fn process_anchor_results(
    storage: &mut Storage,
    batch_id: u64,
    responses: &Vec<AnchorResponse>,
    minimum_required: usize,
) -> (r: Result<usize, WitnessError>)
    requires
        old(storage).wf(),
    ensures
        final(storage).wf(),
        final(storage).records() == old(storage).records(),
        final(storage).spec_batches() == old(storage).spec_batches(),
        final(storage).spec_memberships() == old(storage).spec_memberships(),
        spec_successful(responses@).len() < minimum_required ==> {
            &&& r == Err::<usize, WitnessError>(WitnessError::InsufficientSignatures {
                got: spec_successful(responses@).len() as usize,
                required: minimum_required,
            })
            &&& final(storage).spec_anchor_proofs() == old(storage).spec_anchor_proofs()
        },
        spec_successful(responses@).len() >= minimum_required ==> {
            let succ = spec_successful(responses@);
            &&& r == Ok::<usize, WitnessError>(succ.len() as usize)
            &&& final(storage).spec_anchor_proofs().len() == old(
                storage,
            ).spec_anchor_proofs().len() + succ.len()
            &&& final(storage).spec_anchor_proofs().subrange(
                0,
                old(storage).spec_anchor_proofs().len() as int,
            ) == old(storage).spec_anchor_proofs()
            &&& (forall|i: int|
                0 <= i < succ.len() ==> {
                    let row = #[trigger] final(storage).spec_anchor_proofs()[old(
                        storage,
                    ).spec_anchor_proofs().len() + i];
                    &&& row.batch_id == batch_id
                    &&& proof_equiv(succ[i], row)
                })
        },
{
    let ghost rs = responses@;
    let ghost succ = spec_successful(rs);
    let n = responses.len();
    let mut collected: Vec<ExternalAnchorProof> = Vec::new();
    let ghost mut sel: Seq<ExternalAnchorProof> = Seq::empty();
    let mut i: usize = 0;
    assert(rs.skip(0) =~= rs);
    while i < n
        invariant
            n == rs.len(),
            rs == responses@,
            i <= n,
            succ == spec_successful(rs),
            succ =~= sel + spec_successful(rs.skip(i as int)),
            collected@.len() == sel.len(),
            forall|j: int|
                0 <= j < sel.len() ==> anchor_proof_equiv(sel[j], #[trigger] collected@[j]),
        decreases n - i,
    {
        let ghost tail = rs.skip(i as int);
        assert(tail[0] == rs[i as int]);
        assert(tail.drop_first() =~= rs.skip(i + 1));
        let response = &responses[i];
        if response.success {
            match &response.proof {
                Option::Some(p) => {
                    let anchored_data = match &p.anchored_data {
                        Option::Some(d) => Some(copy_bytes(d)),
                        Option::None => None,
                    };
                    let ghost before = sel;
                    collected.push(ExternalAnchorProof {
                        provider: p.provider,
                        timestamp: p.timestamp,
                        proof: p.proof.clone(),
                        anchored_data,
                    });
                    proof {
                        sel = sel.push(rs[i as int].proof->0);
                        assert(sel + spec_successful(rs.skip(i + 1)) =~= before
                            + spec_successful(tail));
                    }
                },
                Option::None => {},
            }
        }
        i = i + 1;
    }
    assert(rs.skip(n as int) =~= Seq::<AnchorResponse>::empty());
    assert(sel =~= succ);
    let got = collected.len();
    if got < minimum_required {
        return Err(WitnessError::InsufficientSignatures {
            got,
            required: minimum_required,
        });
    }
    let ghost proofs0 = storage.spec_anchor_proofs();
    let mut k: usize = 0;
    while k < got
        invariant
            got == collected@.len(),
            got == succ.len(),
            k <= got,
            storage.wf(),
            storage.records() == old(storage).records(),
            storage.spec_batches() == old(storage).spec_batches(),
            storage.spec_memberships() == old(storage).spec_memberships(),
            proofs0 == old(storage).spec_anchor_proofs(),
            storage.spec_anchor_proofs().len() == proofs0.len() + k,
            storage.spec_anchor_proofs().subrange(0, proofs0.len() as int) == proofs0,
            forall|j: int|
                0 <= j < collected@.len() ==> anchor_proof_equiv(
                    succ[j],
                    #[trigger] collected@[j],
                ),
            forall|j2: int|
                0 <= j2 < k ==> {
                    let row = #[trigger] storage.spec_anchor_proofs()[proofs0.len() + j2];
                    &&& row.batch_id == batch_id
                    &&& proof_equiv(succ[j2], row)
                },
        decreases got - k,
    {
        let ghost before = storage.spec_anchor_proofs();
        storage.store_anchor_proof(batch_id, &collected[k]);
        proof {
            assert(storage.spec_anchor_proofs().subrange(0, proofs0.len() as int)
                =~= before.subrange(0, proofs0.len() as int));
            assert forall|j: int|
                0 <= j < k + 1 implies {
                    let row = #[trigger] storage.spec_anchor_proofs()[proofs0.len() + j];
                    &&& row.batch_id == batch_id
                    &&& proof_equiv(succ[j], row)
                } by {
                if j < k {
                    assert(storage.spec_anchor_proofs()[proofs0.len() + j]
                        == storage.spec_anchor_proofs().subrange(0, before.len() as int)[
                        proofs0.len() + j]);
                    assert(storage.spec_anchor_proofs().subrange(0, before.len() as int)
                        =~= before);
                } else {
                    assert(storage.spec_anchor_proofs().last().batch_id == batch_id);
                    assert(proof_equiv(collected@[j], storage.spec_anchor_proofs().last()));
                }
            }
        }
        k = k + 1;
    }
    Ok(got)
}

} // verus!

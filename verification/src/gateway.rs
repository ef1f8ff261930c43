//! The gateway pipeline's decisions: hash admission, quorum aggregation of
//! the witnesses' replies, and verification-then-persistence. The HTTP
//! fan-out to the witnesses happens between these steps, outside the
//! library; its replies come back in as plain values.

use vstd::prelude::*;

use crate::bls::aggregate_signatures_bls;
use crate::bls::bls_aggregate;
use crate::bls::bls_agg_pubkey_ok;
use crate::bls::bls_agg_verifies;
use crate::bls::bls_sig_valid;
use crate::bls::bls_verifies;
use crate::crypto::spec_verify_outcome;
use crate::crypto::verify_signed_attestation;
use crate::encoding::bytes_views;
use crate::encoding::copy_bytes;
use crate::encoding::hex_decodable;
use crate::encoding::hex_decode;
use crate::encoding::spec_hex_decode;
use crate::encoding::string_views;
use crate::error::WitnessError;
use crate::signature_scheme::AttestationSignatures;
use crate::signature_scheme::SignatureScheme;
use crate::store::Storage;
use crate::store::spec_has_hash;
use crate::store::spec_max_seq;
use crate::store::spec_rec_index;
use crate::types::AttestationEvent;
use crate::types::NetworkConfig;
use crate::types::SignResponse;
use crate::types::SignedAttestation;
use crate::types::WitnessSignature;
use crate::types::attestation_equiv;
use crate::sig_codec::decodes_rows;

verus! {

/// Parses a client's hex hash; succeeds exactly on 64 hex digits.
pub fn parse_hash(hash_hex: &str) -> (r: Result<[u8; 32], WitnessError>)
    ensures
        r.is_ok() <==> hex_decodable(hash_hex@) && spec_hex_decode(hash_hex@).len() == 32,
        r matches Ok(h) ==> h@ == spec_hex_decode(hash_hex@),
        r matches Err(e) ==> (e matches WitnessError::InvalidHash(s) && s@ == hash_hex@),
{
    let bytes = match hex_decode(hash_hex) {
        Option::Some(b) => b,
        Option::None => {
            return Err(WitnessError::InvalidHash(hash_hex.to_owned()));
        },
    };
    if bytes.len() != 32 {
        return Err(WitnessError::InvalidHash(hash_hex.to_owned()));
    }
    Ok(crate::crypto::to_hash32(&bytes))
}

/// What hash admission decides.
pub enum Admission {
    /// The hash is already stored: its attestation is returned unchanged.
    Existing(SignedAttestation),
    /// The hash is new and may proceed with this freshly allocated sequence.
    Fresh { hash: [u8; 32], sequence: u64 },
}

/// Admits a client's hash: rejects bad hex, returns a stored attestation
/// unchanged for a known hash (idempotent admission), and allocates the
/// next sequence number for a new one. The store is read, never written.
pub fn admit_hash(storage: &Storage, network_id: &str, hash_hex: &str) -> (r: Result<
    Admission,
    WitnessError,
>)
    requires
        storage.wf(),
        spec_max_seq(storage.records(), network_id@) < u64::MAX,
    ensures
        !(hex_decodable(hash_hex@) && spec_hex_decode(hash_hex@).len() == 32) ==> (r matches Err(e)
            && e matches WitnessError::InvalidHash(_)),
        hex_decodable(hash_hex@) && spec_hex_decode(hash_hex@).len() == 32 ==> {
            let h = spec_hex_decode(hash_hex@);
            &&& !spec_has_hash(storage.records(), h) ==> (r matches Ok(a) && a matches
                Admission::Fresh { hash, sequence } && hash@ == h && sequence == spec_max_seq(
                storage.records(),
                network_id@,
            ) + 1)
            &&& (spec_has_hash(storage.records(), h) && storage.records()[spec_rec_index(
                storage.records(),
                h,
            )].sig_rows@.len() > 0) ==> (r matches Ok(a) && a matches Admission::Existing(sa) && {
                let rec = storage.records()[spec_rec_index(storage.records(), h)];
                attestation_equiv(sa.attestation, rec.attestation) && decodes_rows(
                    sa.signatures,
                    rec.sig_rows@,
                )
            })
            &&& (spec_has_hash(storage.records(), h) && storage.records()[spec_rec_index(
                storage.records(),
                h,
            )].sig_rows@.len() == 0) ==> (r matches Err(e) && e matches
                WitnessError::SerializationError(_))
        },
{
    let hash = match parse_hash(hash_hex) {
        Result::Ok(h) => h,
        Result::Err(e) => {
            return Err(e);
        },
    };
    if storage.check_duplicate(&hash) {
        match storage.get_attestation(&hash) {
            Option::Some(existing) => Ok(Admission::Existing(existing)),
            Option::None => Err(WitnessError::SerializationError(String::from_str(
                "stored attestation has no signature rows",
            ))),
        }
    } else {
        let sequence = storage.get_next_sequence(network_id);
        Ok(Admission::Fresh { hash, sequence })
    }
}

/// The witness ids of a list of sign replies, in arrival order.
pub open spec fn response_id_views(rs: Seq<SignResponse>) -> Seq<Seq<char>> {
    rs.map_values(|r: SignResponse| r.witness_id@)
}

/// The signature bytes of a list of sign replies, in arrival order.
pub open spec fn response_sig_views(rs: Seq<SignResponse>) -> Seq<Seq<u8>> {
    rs.map_values(|r: SignResponse| r.signature@)
}

/// Aggregates the witnesses' replies under the network's scheme. Fewer
/// replies than the threshold fail with `InsufficientSignatures`. Ed25519
/// keeps one entry per reply; BLS aggregates the signatures into one and
/// records the signer ids in arrival order.
pub fn aggregate_responses(
    scheme: SignatureScheme,
    threshold: usize,
    responses: &Vec<SignResponse>,
) -> (r: Result<AttestationSignatures, WitnessError>)
    ensures
        responses@.len() < threshold ==> r == Err::<AttestationSignatures, WitnessError>(
            WitnessError::InsufficientSignatures {
                got: responses@.len() as usize,
                required: threshold,
            },
        ),
        responses@.len() >= threshold && scheme == SignatureScheme::Ed25519 ==> (r matches Ok(s)
            && s is MultiSig && s.spec_multisig_rows().len() == responses@.len() && (forall|i: int|
            0 <= i < responses@.len() ==> (#[trigger] s.spec_multisig_rows()[i]).witness_id@
                == responses@[i].witness_id@ && s.spec_multisig_rows()[i].signature@
                == responses@[i].signature@)),
        responses@.len() >= threshold && scheme == SignatureScheme::BLS ==> {
            &&& responses@.len() == 0 ==> r == Err::<AttestationSignatures, WitnessError>(
                WitnessError::InsufficientSignatures { got: 0, required: 1 },
            )
            &&& responses@.len() > 0 && (forall|i: int|
                0 <= i < responses@.len() ==> bls_sig_valid(
                    #[trigger] response_sig_views(responses@)[i],
                )) ==> (r matches Ok(s) && s is Aggregated && s.spec_agg_signature()
                == bls_aggregate(response_sig_views(responses@)) && string_views(s.spec_signers())
                == response_id_views(responses@) && (forall|pks: Seq<Seq<u8>>, msg: Seq<u8>|
                (pks.len() == responses@.len() && bls_agg_pubkey_ok(pks) && (forall|i: int|
                    0 <= i < pks.len() ==> bls_verifies(
                        #[trigger] pks[i],
                        msg,
                        responses@[i].signature@,
                    ))) ==> #[trigger] bls_agg_verifies(pks, msg, s.spec_agg_signature())))
            &&& responses@.len() > 0 && !(forall|i: int|
                0 <= i < responses@.len() ==> bls_sig_valid(
                    #[trigger] response_sig_views(responses@)[i],
                )) ==> r == Err::<AttestationSignatures, WitnessError>(
                WitnessError::InvalidSignature,
            )
        },
{
    let n = responses.len();
    if n < threshold {
        return Err(WitnessError::InsufficientSignatures { got: n, required: threshold });
    }
    match scheme {
        SignatureScheme::Ed25519 => {
            let mut rows: Vec<WitnessSignature> = Vec::new();
            let mut i: usize = 0;
            while i < n
                invariant
                    n == responses@.len(),
                    i <= n,
                    rows@.len() == i,
                    forall|j: int|
                        0 <= j < i ==> (#[trigger] rows@[j]).witness_id@
                            == responses@[j].witness_id@ && rows@[j].signature@
                            == responses@[j].signature@,
                decreases n - i,
            {
                rows.push(WitnessSignature {
                    witness_id: responses[i].witness_id.clone(),
                    signature: copy_bytes(&responses[i].signature),
                });
                i = i + 1;
            }
            Ok(AttestationSignatures::MultiSig { signatures: rows })
        },
        SignatureScheme::BLS => {
            let mut sigs: Vec<Vec<u8>> = Vec::new();
            let mut signers: Vec<String> = Vec::new();
            let mut i: usize = 0;
            while i < n
                invariant
                    n == responses@.len(),
                    i <= n,
                    sigs@.len() == i,
                    signers@.len() == i,
                    forall|j: int|
                        0 <= j < i ==> (#[trigger] sigs@[j])@ == responses@[j].signature@,
                    forall|j: int|
                        0 <= j < i ==> (#[trigger] signers@[j])@ == responses@[j].witness_id@,
                decreases n - i,
            {
                sigs.push(copy_bytes(&responses[i].signature));
                signers.push(responses[i].witness_id.clone());
                i = i + 1;
            }
            proof {
                assert(bytes_views(sigs@) =~= response_sig_views(responses@));
                assert(string_views(signers@) =~= response_id_views(responses@));
            }
            match aggregate_signatures_bls(&sigs) {
                Result::Ok(aggregated) => {
                    proof {
                        assert forall|i2: int|
                            0 <= i2 < responses@.len() implies bls_sig_valid(
                            #[trigger] response_sig_views(responses@)[i2],
                        ) by {
                            assert(bls_sig_valid(sigs@[i2]@));
                        }
                        assert forall|pks: Seq<Seq<u8>>, msg: Seq<u8>|
                            (pks.len() == responses@.len() && bls_agg_pubkey_ok(pks) && (forall|
                                i2: int,
                            |
                                0 <= i2 < pks.len() ==> bls_verifies(
                                    #[trigger] pks[i2],
                                    msg,
                                    responses@[i2].signature@,
                                ))) implies #[trigger] bls_agg_verifies(
                            pks,
                            msg,
                            aggregated@,
                        ) by {
                            assert forall|i2: int|
                                0 <= i2 < pks.len() implies bls_verifies(
                                #[trigger] pks[i2],
                                msg,
                                sigs@[i2]@,
                            ) by {
                                assert(bls_verifies(pks[i2], msg, responses@[i2].signature@));
                            }
                        }
                    }
                    Ok(AttestationSignatures::Aggregated { signature: aggregated, signers })
                },
                Result::Err(e) => {
                    proof {
                        if sigs@.len() > 0 && (forall|i2: int|
                            0 <= i2 < sigs@.len() ==> bls_sig_valid(#[trigger] sigs@[i2]@)) {
                            assert(false);
                        }
                        if responses@.len() > 0 && (forall|i2: int|
                            0 <= i2 < responses@.len() ==> bls_sig_valid(
                                #[trigger] response_sig_views(responses@)[i2],
                            )) {
                            assert forall|i2: int|
                                0 <= i2 < sigs@.len() implies bls_sig_valid(
                                #[trigger] sigs@[i2]@,
                            ) by {
                                assert(bls_sig_valid(response_sig_views(responses@)[i2]));
                            }
                        }
                    }
                    Err(e)
                },
            }
        },
    }
}

/// Verifies an assembled attestation against the configuration and, only on
/// success, persists it. A failed verification leaves the store untouched:
/// the service never stores what it has not verified. What it does store
/// always carries at least one signature row, so a later read reassembles
/// it.
pub fn finalize_timestamp(
    storage: &mut Storage,
    signed: &SignedAttestation,
    config: &NetworkConfig,
) -> (r: Result<usize, WitnessError>)
    requires
        old(storage).wf(),
        config.spec_valid(),
        spec_has_hash(old(storage).records(), signed.attestation.hash@) ==> attestation_equiv(
            old(storage).records()[spec_rec_index(
                old(storage).records(),
                signed.attestation.hash@,
            )].attestation,
            signed.attestation,
        ),
        !spec_has_hash(old(storage).records(), signed.attestation.hash@) ==> (forall|k: int|
            0 <= k < old(storage).records().len() && (#[trigger] old(
                storage,
            ).records()[k]).attestation.network_id@ == signed.attestation.network_id@ ==> old(
                storage,
            ).records()[k].attestation.sequence < signed.attestation.sequence),
    ensures
        final(storage).wf(),
        r matches Err(e) ==> {
            &&& spec_verify_outcome(*signed, *config) == Err::<int, WitnessError>(e)
            &&& final(storage).records() == old(storage).records()
            &&& final(storage).spec_batches() == old(storage).spec_batches()
            &&& final(storage).spec_memberships() == old(storage).spec_memberships()
            &&& final(storage).spec_anchor_proofs() == old(storage).spec_anchor_proofs()
        },
        r matches Ok(c) ==> {
            &&& spec_verify_outcome(*signed, *config) == Ok::<int, WitnessError>(c as int)
            &&& c >= config.threshold
            &&& final(storage).spec_batches() == old(storage).spec_batches()
            &&& final(storage).spec_memberships() == old(storage).spec_memberships()
            &&& final(storage).spec_anchor_proofs() == old(storage).spec_anchor_proofs()
            &&& (!spec_has_hash(old(storage).records(), signed.attestation.hash@) ==> {
                &&& final(storage).records().len() == old(storage).records().len() + 1
                &&& final(storage).records().subrange(
                    0,
                    old(storage).records().len() as int,
                ) == old(storage).records()
                &&& attestation_equiv(
                    final(storage).records().last().attestation,
                    signed.attestation,
                )
                &&& final(storage).records().last().batch_id is None
                &&& crate::store::rows_encode_signatures(
                    final(storage).records().last().sig_rows@,
                    signed.signatures,
                )
                &&& final(storage).records().last().sig_rows@.len() > 0
            })
            &&& (spec_has_hash(old(storage).records(), signed.attestation.hash@) ==> {
                let k = spec_rec_index(old(storage).records(), signed.attestation.hash@);
                &&& final(storage).records().len() == old(storage).records().len()
                &&& attestation_equiv(
                    final(storage).records()[k].attestation,
                    old(storage).records()[k].attestation,
                )
                &&& crate::store::rows_encode_signatures(
                    final(storage).records()[k].sig_rows@,
                    signed.signatures,
                )
                &&& final(storage).records()[k].sig_rows@.len() > 0
            })
        },
{
    let verified_count = match verify_signed_attestation(signed, config) {
        Result::Ok(c) => c,
        Result::Err(e) => {
            return Err(e);
        },
    };
    proof {
        if signed.signatures is Aggregated {
            assert(signed.signatures.spec_signers().len() >= 1);
        } else {
            // verification only succeeds on a non-empty multi-signature
            assert(signed.signatures.spec_multisig_rows().len() > 0);
        }
    }
    storage.store_attestation(signed);
    Ok(verified_count)
}

/// The event announced to live subscribers once an attestation is stored.
pub fn make_event(hash_hex: &String, signed: &SignedAttestation) -> (r: AttestationEvent)
    ensures
        r.event_type@ == "attestation"@,
        r.hash@ == hash_hex@,
        r.timestamp == signed.attestation.timestamp,
{
    AttestationEvent {
        event_type: "attestation",
        hash: hash_hex.clone(),
        timestamp: signed.attestation.timestamp,
    }
}

} // verus!

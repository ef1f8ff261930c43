//! BLS12-381 signing, verification and signature aggregation (min-sig
//! variant: 32-byte secret keys, 96-byte public keys, 48-byte signatures),
//! under the protocol's fixed domain separation tag.

use vstd::prelude::*;

use crate::encoding::bytes_views;
use crate::encoding::hex_decode;
use crate::encoding::hex_encode;
use crate::encoding::spec_hex_decode;
use crate::encoding::spec_hex_encode;
use crate::encoding::hex_decodable;
use crate::error::WitnessError;
use crate::types::Attestation;

verus! {

/// What blst's deterministic BLS signing returns for a secret key and a
/// message, under the protocol's domain separation tag.
pub uninterp spec fn bls_signature_of(sk: Seq<u8>, msg: Seq<u8>) -> Seq<u8>;

/// The compressed public key blst derives from a secret key.
pub uninterp spec fn bls_pubkey_of(sk: Seq<u8>) -> Seq<u8>;

/// Whether blst accepts these bytes as a secret key.
pub uninterp spec fn bls_sk_valid(sk: Seq<u8>) -> bool;

/// Whether blst accepts these bytes as a compressed public key.
pub uninterp spec fn bls_pubkey_valid(pk: Seq<u8>) -> bool;

/// Whether blst accepts these bytes as a signature in the right subgroup.
pub uninterp spec fn bls_sig_valid(sig: Seq<u8>) -> bool;

/// The compressed sum of a non-empty list of valid signatures.
pub uninterp spec fn bls_aggregate(sigs: Seq<Seq<u8>>) -> Seq<u8>;

/// Whether a signature verifies under one public key for a message.
pub uninterp spec fn bls_verifies(pk: Seq<u8>, msg: Seq<u8>, sig: Seq<u8>) -> bool;

/// Whether a signature verifies under the aggregate of the listed public
/// keys for a message.
pub uninterp spec fn bls_agg_verifies(pks: Seq<Seq<u8>>, msg: Seq<u8>, sig: Seq<u8>) -> bool;

/// Whether the listed public keys sum to an aggregate key that blst's
/// validation accepts: in the subgroup and not the point at infinity. A
/// list of honest, independently generated witness keys has this; a list
/// built to cancel (a key next to its negation) does not, and blst rejects
/// it when verifying.
pub uninterp spec fn bls_agg_pubkey_ok(pks: Seq<Seq<u8>>) -> bool;

/// Generates a fresh BLS keypair as raw bytes.
///
/// Relies on blst min_sig SecretKey::key_gen over fresh random key material
/// from rand::thread_rng, and on sk_to_pk: the secret key is a valid
/// 32-byte scalar, and the public key is the 96-byte compressed point
/// derived from it. Nothing is assumed of the keys' values.
#[verifier::external_body]
pub fn generate_bls_keypair() -> (r: (Vec<u8>, Vec<u8>))
    ensures
        r.0@.len() == 32,
        bls_sk_valid(r.0@),
        r.1@ == bls_pubkey_of(r.0@),
        bls_pubkey_valid(r.1@),
        r.1@.len() == 96,
{
    let mut ikm = [0u8; 32];
    rand::RngCore::fill_bytes(&mut rand::thread_rng(), &mut ikm);
    let secret_key = blst::min_sig::SecretKey::key_gen(&ikm, &[]).unwrap();
    let public_key = secret_key.sk_to_pk();
    (secret_key.to_bytes().to_vec(), public_key.to_bytes().to_vec())
}

/// Relies on blst min_sig SecretKey::from_bytes: accepts exactly the
/// 32-byte big-endian scalars that pass blst's secret-key check.
#[verifier::external_body]
fn bls_check_secret_key(sk: &[u8]) -> (r: bool)
    ensures
        r == bls_sk_valid(sk@),
{
    blst::min_sig::SecretKey::from_bytes(sk).is_ok()
}

/// Relies on blst min_sig PublicKey::uncompress: accepts exactly the
/// compressed 96-byte encodings of valid points.
#[verifier::external_body]
pub(crate) fn bls_check_pubkey(pk: &[u8]) -> (r: bool)
    ensures
        r == bls_pubkey_valid(pk@),
        r ==> pk@.len() == 96,
{
    blst::min_sig::PublicKey::uncompress(pk).is_ok()
}

/// Relies on blst min_sig SecretKey::from_bytes and sk_to_pk: the 96-byte
/// compressed public key derived from the secret key, a pure function of
/// its bytes.
#[verifier::external_body]
fn bls_pubkey_raw(sk: &[u8]) -> (r: Vec<u8>)
    requires
        bls_sk_valid(sk@),
    ensures
        r@ == bls_pubkey_of(sk@),
        bls_pubkey_valid(r@),
        r@.len() == 96,
{
    match blst::min_sig::SecretKey::from_bytes(sk) {
        Ok(key) => key.sk_to_pk().to_bytes().to_vec(),
        Err(_) => Vec::new(),
    }
}

/// The public key for a BLS secret key; fails exactly on bytes blst does
/// not accept as a secret key.
pub(crate) fn bls_public_key_for(sk: &[u8]) -> (r: Result<Vec<u8>, WitnessError>)
    ensures
        r.is_ok() <==> bls_sk_valid(sk@),
        r matches Ok(pk) ==> pk@ == bls_pubkey_of(sk@) && bls_pubkey_valid(pk@),
{
    if !bls_check_secret_key(sk) {
        return Err(WitnessError::InvalidPublicKey(String::from_str("Invalid BLS secret key")));
    }
    Ok(bls_pubkey_raw(sk))
}

/// Relies on blst min_sig Signature::from_bytes and subgroup_check:
/// accepts blst's serialized signature points that lie in the signature
/// subgroup.
#[verifier::external_body]
fn bls_check_sig(sig: &[u8]) -> (r: bool)
    ensures
        r == bls_sig_valid(sig@),
{
    match blst::min_sig::Signature::from_bytes(sig) {
        Ok(s) => s.subgroup_check(),
        Err(_) => false,
    }
}

/// Relies on blst min_sig SecretKey::sign under the protocol's fixed
/// domain separation tag: deterministic in (key, message); the 48-byte
/// result is a valid signature that verifies under the key's public key.
#[verifier::external_body]
fn bls_sign_raw(sk: &[u8], msg: &[u8]) -> (r: Vec<u8>)
    requires
        bls_sk_valid(sk@),
    ensures
        r@ == bls_signature_of(sk@, msg@),
        r@.len() == 48,
        bls_sig_valid(r@),
        bls_verifies(bls_pubkey_of(sk@), msg@, r@),
{
    match blst::min_sig::SecretKey::from_bytes(sk) {
        Ok(key) => key
            .sign(msg, b"WITNESS_BLS_SIG_BLS12381G2_XMD:SHA-256_SSWU_RO_", &[])
            .to_bytes()
            .to_vec(),
        Err(_) => Vec::new(),
    }
}

/// Relies on blst min_sig Signature::verify (group-checking both sides)
/// under the protocol's fixed domain separation tag: a pure function of
/// the key, message and signature bytes.
#[verifier::external_body]
fn bls_verify_raw(pk: &[u8], msg: &[u8], sig: &[u8]) -> (r: bool)
    requires
        bls_pubkey_valid(pk@),
    ensures
        r == bls_verifies(pk@, msg@, sig@),
{
    let dst = b"WITNESS_BLS_SIG_BLS12381G2_XMD:SHA-256_SSWU_RO_";
    let key = match blst::min_sig::PublicKey::from_bytes(pk) { Ok(k) => k, Err(_) => return false };
    let signature = match blst::min_sig::Signature::from_bytes(sig) { Ok(s) => s, Err(_) => return false };
    signature.verify(true, msg, dst, &[], &key, true) == blst::BLST_ERROR::BLST_SUCCESS
}

/// Relies on blst min_sig AggregateSignature (from_signature, add_signature,
/// to_signature): the compressed sum of the listed signatures, a pure
/// function of their bytes. The last clause is BLS aggregation itself, by
/// the bilinearity of the pairing: when each listed signature verifies
/// under the key at its position for one message, and the keys sum to an
/// aggregate blst's validation accepts, the sum of the signatures verifies
/// under that aggregate for that message. The validity guard is needed:
/// keys built to cancel sum to the point at infinity, which blst rejects.
#[verifier::external_body]
fn bls_aggregate_raw(sigs: &Vec<Vec<u8>>) -> (r: Vec<u8>)
    requires
        sigs@.len() >= 1,
        forall|i: int| 0 <= i < sigs@.len() ==> bls_sig_valid(#[trigger] sigs@[i]@),
    ensures
        r@ == bls_aggregate(bytes_views(sigs@)),
        r@.len() == 48,
        bls_sig_valid(r@),
        forall|pks: Seq<Seq<u8>>, msg: Seq<u8>|
            (pks.len() == sigs@.len() && bls_agg_pubkey_ok(pks) && (forall|i: int|
                0 <= i < pks.len() ==> bls_verifies(#[trigger] pks[i], msg, sigs@[i]@)))
                ==> #[trigger] bls_agg_verifies(pks, msg, r@),
{
    let first = match blst::min_sig::Signature::from_bytes(&sigs[0]) {
        Ok(s) => s,
        Err(_) => return Vec::new(),
    };
    let mut agg = blst::min_sig::AggregateSignature::from_signature(&first);
    for bytes in sigs.iter().skip(1) {
        match blst::min_sig::Signature::from_bytes(bytes) {
            Ok(s) => {
                let _ = agg.add_signature(&s, false);
            }
            Err(_) => return Vec::new(),
        }
    }
    agg.to_signature().to_bytes().to_vec()
}

/// Relies on blst min_sig AggregatePublicKey (from_public_key,
/// add_public_key, to_public_key) and Signature::verify: whether the
/// signature verifies under the sum of the listed keys, a pure function of
/// the keys', message's and signature's bytes. Verification validates the
/// aggregate key, so a key list whose sum blst rejects never verifies.
#[verifier::external_body]
pub(crate) fn bls_agg_verify_raw(pks: &Vec<Vec<u8>>, msg: &[u8], sig: &[u8]) -> (r: bool)
    requires
        pks@.len() >= 1,
        forall|i: int| 0 <= i < pks@.len() ==> bls_pubkey_valid(#[trigger] pks@[i]@),
    ensures
        r == bls_agg_verifies(bytes_views(pks@), msg@, sig@),
        !bls_agg_pubkey_ok(bytes_views(pks@)) ==> r == false,
{
    let dst = b"WITNESS_BLS_SIG_BLS12381G2_XMD:SHA-256_SSWU_RO_";
    let signature = match blst::min_sig::Signature::from_bytes(sig) { Ok(s) => s, Err(_) => return false };
    let parsed: Vec<blst::min_sig::PublicKey> = match pks.iter().map(|b| blst::min_sig::PublicKey::from_bytes(b)).collect() {
        Ok(keys) => keys,
        Err(_) => return false,
    };
    let refs: Vec<&blst::min_sig::PublicKey> = parsed.iter().collect();
    let agg = match blst::min_sig::AggregatePublicKey::aggregate(&refs, false) { Ok(a) => a, Err(_) => return false };
    signature.verify(true, msg, dst, &[], &agg.to_public_key(), true) == blst::BLST_ERROR::BLST_SUCCESS
}

/// Signs an attestation's canonical bytes with a BLS secret key; rejects
/// bytes that are not a valid secret key.
pub fn sign_attestation_bls(attestation: &Attestation, secret_key: &[u8]) -> (r: Result<
    Vec<u8>,
    WitnessError,
>)
    ensures
        r.is_ok() <==> bls_sk_valid(secret_key@),
        r matches Ok(s) ==> {
            &&& s@ == bls_signature_of(secret_key@, attestation.spec_bytes())
            &&& bls_sig_valid(s@)
            &&& bls_verifies(bls_pubkey_of(secret_key@), attestation.spec_bytes(), s@)
        },
        r matches Err(e) ==> e matches WitnessError::InvalidPublicKey(_),
{
    if !bls_check_secret_key(secret_key) {
        return Err(WitnessError::InvalidPublicKey(String::from_str("Invalid BLS secret key")));
    }
    let message = attestation.to_bytes();
    Ok(bls_sign_raw(secret_key, message.as_slice()))
}

/// Verifies one BLS signature over an attestation's canonical bytes.
/// Succeeds exactly when the key bytes are a valid public key and the
/// signature verifies under it.
pub fn verify_signature_bls(
    attestation: &Attestation,
    signature_bytes: &[u8],
    public_key: &[u8],
) -> (r: Result<(), WitnessError>)
    ensures
        r.is_ok() <==> bls_pubkey_valid(public_key@) && bls_verifies(
            public_key@,
            attestation.spec_bytes(),
            signature_bytes@,
        ),
        !bls_pubkey_valid(public_key@) ==> (r matches Err(e)
            && e matches WitnessError::InvalidPublicKey(_)),
        bls_pubkey_valid(public_key@) && !bls_verifies(
            public_key@,
            attestation.spec_bytes(),
            signature_bytes@,
        ) ==> r == Err::<(), WitnessError>(WitnessError::InvalidSignature),
{
    if !bls_check_pubkey(public_key) {
        return Err(WitnessError::InvalidPublicKey(String::from_str("Invalid BLS public key")));
    }
    let message = attestation.to_bytes();
    if bls_verify_raw(public_key, message.as_slice(), signature_bytes) {
        Ok(())
    } else {
        Err(WitnessError::InvalidSignature)
    }
}

/// Aggregates BLS signatures into one. Fails on an empty list with
/// `InsufficientSignatures` and on any invalid signature with
/// `InvalidSignature`; otherwise returns blst's aggregate, which verifies
/// under any validly-aggregating key list whose keys verify the listed
/// signatures pointwise for one message.
pub fn aggregate_signatures_bls(signature_bytes_list: &Vec<Vec<u8>>) -> (r: Result<
    Vec<u8>,
    WitnessError,
>)
    ensures
        r.is_ok() <==> signature_bytes_list@.len() > 0 && (forall|i: int|
            0 <= i < signature_bytes_list@.len() ==> bls_sig_valid(
                #[trigger] signature_bytes_list@[i]@,
            )),
        r matches Ok(s) ==> s@ == bls_aggregate(bytes_views(signature_bytes_list@)),
        r matches Ok(s) ==> (forall|pks: Seq<Seq<u8>>, msg: Seq<u8>|
            (pks.len() == signature_bytes_list@.len() && bls_agg_pubkey_ok(pks) && (forall|i: int|
                0 <= i < pks.len() ==> bls_verifies(
                    #[trigger] pks[i],
                    msg,
                    signature_bytes_list@[i]@,
                ))) ==> #[trigger] bls_agg_verifies(pks, msg, s@)),
        signature_bytes_list@.len() == 0 ==> r == Err::<Vec<u8>, WitnessError>(
            WitnessError::InsufficientSignatures { got: 0, required: 1 },
        ),
        signature_bytes_list@.len() > 0 && !(forall|i: int|
            0 <= i < signature_bytes_list@.len() ==> bls_sig_valid(
                #[trigger] signature_bytes_list@[i]@,
            )) ==> r == Err::<Vec<u8>, WitnessError>(WitnessError::InvalidSignature),
{
    let n = signature_bytes_list.len();
    if n == 0 {
        return Err(WitnessError::InsufficientSignatures { got: 0, required: 1 });
    }
    let mut i: usize = 0;
    while i < n
        invariant
            n == signature_bytes_list@.len(),
            i <= n,
            forall|j: int| 0 <= j < i ==> bls_sig_valid(#[trigger] signature_bytes_list@[j]@),
        decreases n - i,
    {
        if !bls_check_sig(signature_bytes_list[i].as_slice()) {
            return Err(WitnessError::InvalidSignature);
        }
        i = i + 1;
    }
    Ok(bls_aggregate_raw(signature_bytes_list))
}

/// Verifies an aggregated BLS signature over an attestation against the
/// listed public keys. Succeeds exactly when at least one key is given,
/// every key is valid, and the signature verifies under their aggregate.
pub fn verify_aggregated_signature_bls(
    attestation: &Attestation,
    aggregated_signature: &[u8],
    public_keys: &Vec<Vec<u8>>,
) -> (r: Result<(), WitnessError>)
    ensures
        r.is_ok() <==> public_keys@.len() > 0 && (forall|i: int|
            0 <= i < public_keys@.len() ==> bls_pubkey_valid(#[trigger] public_keys@[i]@))
            && bls_agg_verifies(
            bytes_views(public_keys@),
            attestation.spec_bytes(),
            aggregated_signature@,
        ),
        public_keys@.len() == 0 ==> r == Err::<(), WitnessError>(
            WitnessError::InsufficientSignatures { got: 0, required: 1 },
        ),
        public_keys@.len() > 0 && !(forall|i: int|
            0 <= i < public_keys@.len() ==> bls_pubkey_valid(#[trigger] public_keys@[i]@)) ==> (
        r matches Err(e) && e matches WitnessError::InvalidPublicKey(_)),
        public_keys@.len() > 0 && (forall|i: int|
            0 <= i < public_keys@.len() ==> bls_pubkey_valid(#[trigger] public_keys@[i]@))
            && !bls_agg_verifies(
            bytes_views(public_keys@),
            attestation.spec_bytes(),
            aggregated_signature@,
        ) ==> r == Err::<(), WitnessError>(WitnessError::InvalidSignature),
{
    let n = public_keys.len();
    if n == 0 {
        return Err(WitnessError::InsufficientSignatures { got: 0, required: 1 });
    }
    let mut i: usize = 0;
    while i < n
        invariant
            n == public_keys@.len(),
            i <= n,
            forall|j: int| 0 <= j < i ==> bls_pubkey_valid(#[trigger] public_keys@[j]@),
        decreases n - i,
    {
        if !bls_check_pubkey(public_keys[i].as_slice()) {
            return Err(WitnessError::InvalidPublicKey(String::from_str(
                "Failed to aggregate public keys",
            )));
        }
        i = i + 1;
    }
    let message = attestation.to_bytes();
    if bls_agg_verify_raw(public_keys, message.as_slice(), aggregated_signature) {
        Ok(())
    } else {
        Err(WitnessError::InvalidSignature)
    }
}

/// Encodes a BLS public key as lowercase hex.
pub fn encode_bls_public_key(key: &[u8]) -> (r: String)
    ensures
        r@ == spec_hex_encode(key@),
{
    hex_encode(key)
}

/// Decodes a BLS public key from hex; succeeds exactly on hex text whose
/// bytes blst accepts as a compressed public key.
pub fn decode_bls_public_key(hex_str: &str) -> (r: Result<Vec<u8>, WitnessError>)
    ensures
        r.is_ok() <==> hex_decodable(hex_str@) && bls_pubkey_valid(spec_hex_decode(hex_str@)),
        r matches Ok(k) ==> k@ == spec_hex_decode(hex_str@),
        r matches Err(e) ==> e matches WitnessError::InvalidPublicKey(_),
{
    let bytes = match hex_decode(hex_str) {
        Some(b) => b,
        None => {
            return Err(WitnessError::InvalidPublicKey(String::from_str("Invalid hex")));
        }
    };
    if !bls_check_pubkey(bytes.as_slice()) {
        return Err(WitnessError::InvalidPublicKey(String::from_str("Invalid BLS public key")));
    }
    Ok(bytes)
}

/// Encodes a BLS secret key as lowercase hex.
pub fn encode_bls_secret_key(key: &[u8]) -> (r: String)
    ensures
        r@ == spec_hex_encode(key@),
{
    hex_encode(key)
}

/// Decodes a BLS secret key from hex; succeeds exactly on hex text whose
/// bytes blst accepts as a secret key.
pub fn decode_bls_secret_key(hex_str: &str) -> (r: Result<Vec<u8>, WitnessError>)
    ensures
        r.is_ok() <==> hex_decodable(hex_str@) && bls_sk_valid(spec_hex_decode(hex_str@)),
        r matches Ok(k) ==> k@ == spec_hex_decode(hex_str@),
        r matches Err(e) ==> e matches WitnessError::InvalidPublicKey(_),
{
    let bytes = match hex_decode(hex_str) {
        Some(b) => b,
        None => {
            return Err(WitnessError::InvalidPublicKey(String::from_str("Invalid hex")));
        }
    };
    if !bls_check_secret_key(bytes.as_slice()) {
        return Err(WitnessError::InvalidPublicKey(String::from_str("Invalid BLS secret key")));
    }
    Ok(bytes)
}

} // verus!

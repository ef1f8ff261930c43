//! Hashing and Ed25519 signing/verification, and verification of a complete
//! signed attestation against a network configuration.

use vstd::prelude::*;

use crate::bls::bls_agg_verifies;
use crate::bls::bls_pubkey_valid;
use crate::encoding::hex_decodable;
use crate::encoding::hex_decode;
use crate::encoding::hex_encode;
use crate::encoding::spec_hex_decode;
use crate::encoding::spec_hex_encode;
use crate::error::WitnessError;
use crate::signature_scheme::AttestationSignatures;
use crate::signature_scheme::SignatureScheme;
use crate::types::Attestation;
use crate::types::NetworkConfig;
use crate::types::SignedAttestation;
use crate::types::WitnessInfo;
use crate::types::WitnessSignature;
use crate::types::spec_find_witness;

verus! {

/// What SHA-256 returns for a byte sequence; a function of the bytes alone.
pub uninterp spec fn sha256_of(data: Seq<u8>) -> Seq<u8>;

/// Relies on sha2::Sha256 through Digest::digest: a 32-byte digest that
/// depends on the input bytes alone.
#[verifier::external_body]
pub(crate) fn sha256(data: &[u8]) -> (r: Vec<u8>)
    ensures
        r@ == sha256_of(data@),
        r@.len() == 32,
{
    <sha2::Sha256 as sha2::Digest>::digest(data).to_vec()
}

/// Copies a 32-byte vector into a hash array.
pub(crate) fn to_hash32(v: &Vec<u8>) -> (r: [u8; 32])
    requires
        v@.len() == 32,
    ensures
        r@ == v@,
{
    let mut out: [u8; 32] = [0u8; 32];
    let mut i: usize = 0;
    while i < 32
        invariant
            v@.len() == 32,
            i <= 32,
            forall|j: int| 0 <= j < i ==> out@[j] == v@[j],
        decreases 32 - i,
    {
        out[i] = v[i];
        i = i + 1;
    }
    assert(out@ =~= v@);
    out
}

/// True when two 32-byte hashes are equal.
pub fn hash_eq(a: &[u8; 32], b: &[u8; 32]) -> (r: bool)
    ensures
        r == (a@ == b@),
{
    let mut i: usize = 0;
    while i < 32
        invariant
            i <= 32,
            forall|j: int| 0 <= j < i ==> a@[j] == b@[j],
        decreases 32 - i,
    {
        if a[i] != b[i] {
            return false;
        }
        i = i + 1;
    }
    assert(a@ =~= b@);
    true
}

/// Hashes content with SHA-256.
pub fn hash_content(data: &[u8]) -> (r: [u8; 32])
    ensures
        r@ == sha256_of(data@),
{
    let digest = sha256(data);
    to_hash32(&digest)
}

/// What Ed25519 signing returns for a secret key and a message; Ed25519
/// signing is deterministic.
pub uninterp spec fn ed25519_signature_of(sk: Seq<u8>, msg: Seq<u8>) -> Seq<u8>;

/// The public key derived from an Ed25519 secret key.
pub uninterp spec fn ed25519_pubkey_of(sk: Seq<u8>) -> Seq<u8>;

/// Whether ed25519-dalek accepts these bytes as a public key.
pub uninterp spec fn ed25519_pubkey_valid(pk: Seq<u8>) -> bool;

/// Whether a signature verifies under one public key for a message.
pub uninterp spec fn ed25519_verifies(pk: Seq<u8>, msg: Seq<u8>, sig: Seq<u8>) -> bool;

/// Generates a fresh Ed25519 keypair as raw bytes.
///
/// Relies on ed25519_dalek::SigningKey::generate over rand's OsRng and on
/// verifying_key: the secret key is 32 bytes and the public key is the
/// 32-byte key derived from it. Nothing is assumed of the keys' values.
#[verifier::external_body]
pub fn generate_keypair() -> (r: (Vec<u8>, Vec<u8>))
    ensures
        r.0@.len() == 32,
        r.1@ == ed25519_pubkey_of(r.0@),
        ed25519_pubkey_valid(r.1@),
        r.1@.len() == 32,
{
    let mut sk = [0u8; 32];
    rand::RngCore::fill_bytes(&mut rand::rngs::OsRng, &mut sk);
    let signing_key = ed25519_dalek::SigningKey::from_bytes(&sk);
    let verifying_key = signing_key.verifying_key();
    (signing_key.to_bytes().to_vec(), verifying_key.to_bytes().to_vec())
}

/// Relies on ed25519_dalek::SigningKey::sign (from_bytes accepts any 32
/// bytes): deterministic in (key, message); the 64-byte result verifies
/// under the key's public key.
#[verifier::external_body]
fn ed25519_sign_raw(sk: &[u8], msg: &[u8]) -> (r: Vec<u8>)
    requires
        sk@.len() == 32,
    ensures
        r@ == ed25519_signature_of(sk@, msg@),
        r@.len() == 64,
        ed25519_verifies(ed25519_pubkey_of(sk@), msg@, r@),
{
    let key_bytes: [u8; 32] = match sk.try_into() {
        Ok(b) => b,
        Err(_) => return Vec::new(),
    };
    let key = ed25519_dalek::SigningKey::from_bytes(&key_bytes);
    let signature = ed25519_dalek::Signer::sign(&key, msg);
    signature.to_bytes().to_vec()
}

/// Relies on ed25519_dalek::SigningKey::verifying_key: the 32-byte public
/// key derived from the secret key, a pure function of its bytes.
#[verifier::external_body]
pub(crate) fn ed25519_public_key_for(sk: &[u8]) -> (r: Vec<u8>)
    requires
        sk@.len() == 32,
    ensures
        r@ == ed25519_pubkey_of(sk@),
        r@.len() == 32,
        ed25519_pubkey_valid(r@),
{
    let key_bytes: [u8; 32] = match sk.try_into() {
        Ok(b) => b,
        Err(_) => return Vec::new(),
    };
    let key = ed25519_dalek::SigningKey::from_bytes(&key_bytes);
    key.verifying_key().to_bytes().to_vec()
}

/// Relies on ed25519_dalek::VerifyingKey::from_bytes: accepts exactly the
/// 32-byte encodings of valid points.
#[verifier::external_body]
fn ed25519_check_pubkey(pk: &[u8]) -> (r: bool)
    ensures
        r == ed25519_pubkey_valid(pk@),
        r ==> pk@.len() == 32,
{
    let key_bytes: [u8; 32] = match pk.try_into() {
        Ok(b) => b,
        Err(_) => return false,
    };
    ed25519_dalek::VerifyingKey::from_bytes(&key_bytes).is_ok()
}

/// Relies on ed25519_dalek::VerifyingKey::verify (Signature::from_slice
/// rejects anything but 64 bytes): a pure function of the key, message and
/// signature bytes.
#[verifier::external_body]
fn ed25519_verify_raw(pk: &[u8], msg: &[u8], sig: &[u8]) -> (r: bool)
    requires
        ed25519_pubkey_valid(pk@),
    ensures
        r == ed25519_verifies(pk@, msg@, sig@),
{
    let key_bytes: [u8; 32] = match pk.try_into() {
        Ok(b) => b,
        Err(_) => return false,
    };
    let key = match ed25519_dalek::VerifyingKey::from_bytes(&key_bytes) {
        Ok(k) => k,
        Err(_) => return false,
    };
    let signature = match ed25519_dalek::Signature::from_slice(sig) {
        Ok(s) => s,
        Err(_) => return false,
    };
    ed25519_dalek::Verifier::verify(&key, msg, &signature).is_ok()
}

/// Signs an attestation's canonical bytes with an Ed25519 secret key.
pub fn sign_attestation(attestation: &Attestation, signing_key: &[u8]) -> (r: Vec<u8>)
    requires
        signing_key@.len() == 32,
    ensures
        r@ == ed25519_signature_of(signing_key@, attestation.spec_bytes()),
        ed25519_verifies(ed25519_pubkey_of(signing_key@), attestation.spec_bytes(), r@),
{
    let message = attestation.to_bytes();
    ed25519_sign_raw(signing_key, message.as_slice())
}

/// Verifies one Ed25519 signature over an attestation's canonical bytes.
/// Succeeds exactly when the key bytes are a valid public key and the
/// signature verifies under it.
pub fn verify_signature(
    attestation: &Attestation,
    signature: &[u8],
    verifying_key: &[u8],
) -> (r: Result<(), WitnessError>)
    ensures
        r.is_ok() <==> ed25519_pubkey_valid(verifying_key@) && ed25519_verifies(
            verifying_key@,
            attestation.spec_bytes(),
            signature@,
        ),
        !ed25519_pubkey_valid(verifying_key@) ==> (r matches Err(e)
            && e matches WitnessError::InvalidPublicKey(_)),
        ed25519_pubkey_valid(verifying_key@) && !ed25519_verifies(
            verifying_key@,
            attestation.spec_bytes(),
            signature@,
        ) ==> r == Err::<(), WitnessError>(WitnessError::InvalidSignature),
{
    if !ed25519_check_pubkey(verifying_key) {
        return Err(WitnessError::InvalidPublicKey(String::from_str("Invalid key length")));
    }
    let message = attestation.to_bytes();
    if ed25519_verify_raw(verifying_key, message.as_slice(), signature) {
        Ok(())
    } else {
        Err(WitnessError::InvalidSignature)
    }
}

/// Encodes an Ed25519 public key as lowercase hex.
pub fn encode_public_key(key: &[u8]) -> (r: String)
    ensures
        r@ == spec_hex_encode(key@),
{
    hex_encode(key)
}

/// Decodes an Ed25519 public key from hex; succeeds exactly on hex text
/// whose bytes are a valid public key.
pub fn decode_public_key(hex_str: &str) -> (r: Result<Vec<u8>, WitnessError>)
    ensures
        r.is_ok() <==> hex_decodable(hex_str@) && ed25519_pubkey_valid(spec_hex_decode(hex_str@)),
        r matches Ok(k) ==> k@ == spec_hex_decode(hex_str@),
        r matches Err(e) ==> e matches WitnessError::InvalidPublicKey(_),
{
    let bytes = match hex_decode(hex_str) {
        Some(b) => b,
        None => {
            return Err(WitnessError::InvalidPublicKey(String::from_str("Invalid hex")));
        }
    };
    if !ed25519_check_pubkey(bytes.as_slice()) {
        return Err(WitnessError::InvalidPublicKey(String::from_str("Invalid key length")));
    }
    Ok(bytes)
}

/// The raw key bytes behind a witness's hex-encoded public key.
pub open spec fn witness_key_bytes(w: WitnessInfo) -> Seq<u8> {
    spec_hex_decode(w.pubkey@)
}

/// Whether a witness's configured key decodes to a valid Ed25519 key.
pub open spec fn ed25519_key_ok(w: WitnessInfo) -> bool {
    hex_decodable(w.pubkey@) && ed25519_pubkey_valid(witness_key_bytes(w))
}

/// Whether a witness's configured key decodes to a valid BLS key.
pub open spec fn bls_key_ok(w: WitnessInfo) -> bool {
    hex_decodable(w.pubkey@) && bls_pubkey_valid(witness_key_bytes(w))
}

/// The first error hit while resolving a multi-signature's rows against the
/// configuration: an unknown signer id, or a key that does not decode.
pub open spec fn spec_multisig_error(rows: Seq<WitnessSignature>, cfg: NetworkConfig) -> Option<
    WitnessError,
>
    decreases rows.len(),
{
    if rows.len() == 0 {
        None
    } else {
        match spec_find_witness(cfg.witnesses@, rows[0].witness_id@) {
            Option::None => Some(WitnessError::WitnessNotFound(rows[0].witness_id)),
            Option::Some(w) => if !ed25519_key_ok(w) {
                Some(WitnessError::InvalidPublicKey(w.pubkey))
            } else {
                spec_multisig_error(rows.drop_first(), cfg)
            },
        }
    }
}

/// How many of a multi-signature's rows carry a signature that verifies
/// under their witness's configured key.
pub open spec fn spec_multisig_verified_count(
    rows: Seq<WitnessSignature>,
    cfg: NetworkConfig,
    msg: Seq<u8>,
) -> nat
    decreases rows.len(),
{
    if rows.len() == 0 {
        0
    } else {
        let head: nat = match spec_find_witness(cfg.witnesses@, rows[0].witness_id@) {
            Option::None => 0,
            Option::Some(w) => if ed25519_key_ok(w) && ed25519_verifies(
                witness_key_bytes(w),
                msg,
                rows[0].signature@,
            ) {
                1
            } else {
                0
            },
        };
        head + spec_multisig_verified_count(rows.drop_first(), cfg, msg)
    }
}

/// A multi-signature's verified count never exceeds its number of rows.
pub proof fn lemma_multisig_count_bound(
    rows: Seq<WitnessSignature>,
    cfg: NetworkConfig,
    msg: Seq<u8>,
)
    ensures
        spec_multisig_verified_count(rows, cfg, msg) <= rows.len(),
    decreases rows.len(),
{
    if rows.len() > 0 {
        lemma_multisig_count_bound(rows.drop_first(), cfg, msg);
    }
}

/// The first error hit while resolving an aggregated signature's signer ids
/// against the configuration.
pub open spec fn spec_signers_error(signers: Seq<String>, cfg: NetworkConfig) -> Option<
    WitnessError,
>
    decreases signers.len(),
{
    if signers.len() == 0 {
        None
    } else {
        match spec_find_witness(cfg.witnesses@, signers[0]@) {
            Option::None => Some(WitnessError::WitnessNotFound(signers[0])),
            Option::Some(w) => if !bls_key_ok(w) {
                Some(WitnessError::InvalidPublicKey(w.pubkey))
            } else {
                spec_signers_error(signers.drop_first(), cfg)
            },
        }
    }
}

/// The signers' public keys, in the order given.
pub open spec fn spec_signer_keys(signers: Seq<String>, cfg: NetworkConfig) -> Seq<Seq<u8>>
    decreases signers.len(),
{
    if signers.len() == 0 {
        Seq::empty()
    } else {
        let head: Seq<u8> = match spec_find_witness(cfg.witnesses@, signers[0]@) {
            Option::None => Seq::empty(),
            Option::Some(w) => witness_key_bytes(w),
        };
        seq![head] + spec_signer_keys(signers.drop_first(), cfg)
    }
}

/// When every row names a configured witness whose key decodes and whose
/// signature verifies over the message, verification hits no error and
/// counts every row: a full quorum of honest replies passes.
pub proof fn lemma_multisig_all_verify(
    rows: Seq<WitnessSignature>,
    cfg: NetworkConfig,
    msg: Seq<u8>,
)
    requires
        forall|i: int|
            0 <= i < rows.len() ==> {
                let found = spec_find_witness(cfg.witnesses@, (#[trigger] rows[i]).witness_id@);
                &&& found is Some
                &&& ed25519_key_ok(found->0)
                &&& ed25519_verifies(witness_key_bytes(found->0), msg, rows[i].signature@)
            },
    ensures
        spec_multisig_error(rows, cfg) is None,
        spec_multisig_verified_count(rows, cfg, msg) == rows.len(),
    decreases rows.len(),
{
    if rows.len() > 0 {
        let rest = rows.drop_first();
        assert forall|i: int|
            0 <= i < rest.len() implies {
                let found = spec_find_witness(cfg.witnesses@, (#[trigger] rest[i]).witness_id@);
                &&& found is Some
                &&& ed25519_key_ok(found->0)
                &&& ed25519_verifies(witness_key_bytes(found->0), msg, rest[i].signature@)
            } by {
            assert(rest[i] == rows[i + 1]);
        }
        lemma_multisig_all_verify(rest, cfg, msg);
    }
}

/// When every signer id names a configured witness whose key decodes,
/// resolving the signer list hits no error and yields exactly those keys,
/// in order.
pub proof fn lemma_signers_resolved(signers: Seq<String>, cfg: NetworkConfig)
    requires
        forall|i: int|
            0 <= i < signers.len() ==> {
                let found = spec_find_witness(cfg.witnesses@, (#[trigger] signers[i])@);
                &&& found is Some
                &&& bls_key_ok(found->0)
            },
    ensures
        spec_signers_error(signers, cfg) is None,
        spec_signer_keys(signers, cfg).len() == signers.len(),
        forall|i: int|
            0 <= i < signers.len() ==> #[trigger] spec_signer_keys(signers, cfg)[i]
                == witness_key_bytes(spec_find_witness(cfg.witnesses@, signers[i]@)->0),
    decreases signers.len(),
{
    if signers.len() > 0 {
        let rest = signers.drop_first();
        assert forall|i: int|
            0 <= i < rest.len() implies {
                let found = spec_find_witness(cfg.witnesses@, (#[trigger] rest[i])@);
                &&& found is Some
                &&& bls_key_ok(found->0)
            } by {
            assert(rest[i] == signers[i + 1]);
        }
        lemma_signers_resolved(rest, cfg);
        assert forall|i: int|
            0 <= i < signers.len() implies #[trigger] spec_signer_keys(signers, cfg)[i]
            == witness_key_bytes(spec_find_witness(cfg.witnesses@, signers[i]@)->0) by {
            if i >= 1 {
                assert(rest[i - 1] == signers[i]);
                assert(spec_signer_keys(signers, cfg)[i] == spec_signer_keys(rest, cfg)[i - 1]);
            }
        }
    }
}

/// What verifying a signed attestation returns, as a function of the
/// attestation and the configuration alone: the number of verifying
/// signatures on success, and the exact error otherwise. A mismatch between
/// the signature form and the configured scheme is `InvalidSignature`.
pub open spec fn spec_verify_outcome(signed: SignedAttestation, cfg: NetworkConfig) -> Result<
    int,
    WitnessError,
> {
    let msg = signed.attestation.spec_bytes();
    match signed.signatures {
        AttestationSignatures::MultiSig { signatures } => {
            if cfg.signature_scheme != SignatureScheme::Ed25519 {
                Err(WitnessError::InvalidSignature)
            } else if signatures@.len() == 0 {
                Err(WitnessError::InsufficientSignatures { got: 0, required: cfg.threshold })
            } else {
                match spec_multisig_error(signatures@, cfg) {
                    Option::Some(e) => Err(e),
                    Option::None => {
                        let c = spec_multisig_verified_count(signatures@, cfg, msg);
                        if c < cfg.threshold {
                            Err(WitnessError::InsufficientSignatures {
                                got: c as usize,
                                required: cfg.threshold,
                            })
                        } else {
                            Ok(c as int)
                        }
                    },
                }
            }
        },
        AttestationSignatures::Aggregated { signature, signers } => {
            if cfg.signature_scheme != SignatureScheme::BLS {
                Err(WitnessError::InvalidSignature)
            } else if signers@.len() == 0 {
                Err(WitnessError::InsufficientSignatures { got: 0, required: cfg.threshold })
            } else if signers@.len() < cfg.threshold {
                Err(WitnessError::InsufficientSignatures {
                    got: signers@.len() as usize,
                    required: cfg.threshold,
                })
            } else {
                match spec_signers_error(signers@, cfg) {
                    Option::Some(e) => Err(e),
                    Option::None => if bls_agg_verifies(
                        spec_signer_keys(signers@, cfg),
                        msg,
                        signature@,
                    ) {
                        Ok(signers@.len() as int)
                    } else {
                        Err(WitnessError::InvalidSignature)
                    },
                }
            }
        },
    }
}

/// Resolves one multi-sig signer against the configuration and decodes its
/// Ed25519 key, with the exact errors verification reports.
fn lookup_ed25519_key(config: &NetworkConfig, witness_id: &String) -> (r: Result<
    Vec<u8>,
    WitnessError,
>)
    ensures
        spec_find_witness(config.witnesses@, witness_id@) is None ==> r == Err::<
            Vec<u8>,
            WitnessError,
        >(WitnessError::WitnessNotFound(*witness_id)),
        spec_find_witness(config.witnesses@, witness_id@) matches Some(w) ==> {
            &&& !ed25519_key_ok(w) ==> r == Err::<Vec<u8>, WitnessError>(
                WitnessError::InvalidPublicKey(w.pubkey),
            )
            &&& ed25519_key_ok(w) ==> (r matches Ok(k) && k@ == witness_key_bytes(w)
                && ed25519_pubkey_valid(k@))
        },
{
    match config.find_witness(witness_id.as_str()) {
        Option::None => Err(WitnessError::WitnessNotFound(witness_id.clone())),
        Option::Some(w) => match hex_decode(w.pubkey.as_str()) {
            Option::None => Err(WitnessError::InvalidPublicKey(w.pubkey.clone())),
            Option::Some(key_bytes) => {
                if !ed25519_check_pubkey(key_bytes.as_slice()) {
                    Err(WitnessError::InvalidPublicKey(w.pubkey.clone()))
                } else {
                    Ok(key_bytes)
                }
            },
        },
    }
}

/// Resolves one aggregated-signature signer against the configuration and
/// decodes its BLS key, with the exact errors verification reports.
fn lookup_bls_key(config: &NetworkConfig, witness_id: &String) -> (r: Result<Vec<u8>, WitnessError>)
    ensures
        spec_find_witness(config.witnesses@, witness_id@) is None ==> r == Err::<
            Vec<u8>,
            WitnessError,
        >(WitnessError::WitnessNotFound(*witness_id)),
        spec_find_witness(config.witnesses@, witness_id@) matches Some(w) ==> {
            &&& !bls_key_ok(w) ==> r == Err::<Vec<u8>, WitnessError>(
                WitnessError::InvalidPublicKey(w.pubkey),
            )
            &&& bls_key_ok(w) ==> (r matches Ok(k) && k@ == witness_key_bytes(w)
                && bls_pubkey_valid(k@))
        },
{
    match config.find_witness(witness_id.as_str()) {
        Option::None => Err(WitnessError::WitnessNotFound(witness_id.clone())),
        Option::Some(w) => match hex_decode(w.pubkey.as_str()) {
            Option::None => Err(WitnessError::InvalidPublicKey(w.pubkey.clone())),
            Option::Some(key_bytes) => {
                if !crate::bls::bls_check_pubkey(key_bytes.as_slice()) {
                    Err(WitnessError::InvalidPublicKey(w.pubkey.clone()))
                } else {
                    Ok(key_bytes)
                }
            },
        },
    }
}

/// Verifies the rows of a non-empty Ed25519 multi-signature over `message`.
fn verify_multisig(
    signatures: &Vec<WitnessSignature>,
    config: &NetworkConfig,
    message: &Vec<u8>,
) -> (r: Result<usize, WitnessError>)
    requires
        signatures@.len() > 0,
    ensures
        spec_multisig_error(signatures@, *config) matches Some(e) ==> r == Err::<
            usize,
            WitnessError,
        >(e),
        spec_multisig_error(signatures@, *config) is None ==> {
            let c = spec_multisig_verified_count(signatures@, *config, message@);
            if c < config.threshold {
                r == Err::<usize, WitnessError>(WitnessError::InsufficientSignatures {
                    got: c as usize,
                    required: config.threshold,
                })
            } else {
                r == Ok::<usize, WitnessError>(c as usize)
            }
        },
{
    let ghost rows = signatures@;
    let n = signatures.len();
    let mut verified_count: usize = 0;
    let mut i: usize = 0;
    assert(rows.skip(0) =~= rows);
    while i < n
        invariant
            n == rows.len(),
            rows == signatures@,
            i <= n,
            verified_count <= i,
            spec_multisig_error(rows, *config) == spec_multisig_error(
                rows.skip(i as int),
                *config,
            ),
            spec_multisig_verified_count(rows, *config, message@) == verified_count
                + spec_multisig_verified_count(rows.skip(i as int), *config, message@),
        decreases n - i,
    {
        let ghost tail = rows.skip(i as int);
        assert(tail[0] == rows[i as int]);
        assert(tail.drop_first() =~= rows.skip(i + 1));
        let row = &signatures[i];
        match lookup_ed25519_key(config, &row.witness_id) {
            Result::Err(e) => {
                return Err(e);
            },
            Result::Ok(key_bytes) => {
                if ed25519_verify_raw(
                    key_bytes.as_slice(),
                    message.as_slice(),
                    row.signature.as_slice(),
                ) {
                    verified_count = verified_count + 1;
                }
            },
        }
        i = i + 1;
    }
    assert(rows.skip(n as int) =~= Seq::<WitnessSignature>::empty());
    if verified_count < config.threshold {
        return Err(WitnessError::InsufficientSignatures {
            got: verified_count,
            required: config.threshold,
        });
    }
    Ok(verified_count)
}

/// Verifies a non-empty aggregated BLS signature over `message` for the
/// listed signers, once the threshold check has passed.
fn verify_aggregated(
    signature: &Vec<u8>,
    signers: &Vec<String>,
    config: &NetworkConfig,
    message: &Vec<u8>,
) -> (r: Result<usize, WitnessError>)
    requires
        signers@.len() > 0,
    ensures
        spec_signers_error(signers@, *config) matches Some(e) ==> r == Err::<usize, WitnessError>(
            e,
        ),
        spec_signers_error(signers@, *config) is None ==> {
            if bls_agg_verifies(spec_signer_keys(signers@, *config), message@, signature@) {
                r == Ok::<usize, WitnessError>(signers@.len() as usize)
            } else {
                r == Err::<usize, WitnessError>(WitnessError::InvalidSignature)
            }
        },
{
    let ghost sseq = signers@;
    let n = signers.len();
    let mut public_keys: Vec<Vec<u8>> = Vec::new();
    let mut i: usize = 0;
    assert(sseq.skip(0) =~= sseq);
    while i < n
        invariant
            n == sseq.len(),
            sseq == signers@,
            i <= n,
            public_keys@.len() == i,
            forall|j: int| 0 <= j < i ==> bls_pubkey_valid(#[trigger] public_keys@[j]@),
            spec_signers_error(sseq, *config) == spec_signers_error(sseq.skip(i as int), *config),
            spec_signer_keys(sseq, *config) == crate::encoding::bytes_views(public_keys@)
                + spec_signer_keys(sseq.skip(i as int), *config),
        decreases n - i,
    {
        let ghost tail = sseq.skip(i as int);
        assert(tail[0] == sseq[i as int]);
        assert(tail.drop_first() =~= sseq.skip(i + 1));
        let ghost keys_before = crate::encoding::bytes_views(public_keys@);
        match lookup_bls_key(config, &signers[i]) {
            Result::Err(e) => {
                return Err(e);
            },
            Result::Ok(key_bytes) => {
                let ghost key_view = key_bytes@;
                public_keys.push(key_bytes);
                proof {
                    assert(crate::encoding::bytes_views(public_keys@) =~= keys_before.push(
                        key_view,
                    ));
                    assert(keys_before.push(key_view) + spec_signer_keys(
                        sseq.skip(i + 1),
                        *config,
                    ) =~= keys_before + spec_signer_keys(tail, *config));
                }
            },
        }
        i = i + 1;
    }
    assert(sseq.skip(n as int) =~= Seq::<String>::empty());
    assert(spec_signer_keys(sseq, *config) =~= crate::encoding::bytes_views(public_keys@));
    if crate::bls::bls_agg_verify_raw(&public_keys, message.as_slice(), signature.as_slice()) {
        Ok(n)
    } else {
        Err(WitnessError::InvalidSignature)
    }
}

/// Verifies a signed attestation against the network configuration. The
/// result is exactly `spec_verify_outcome(*signed, *config)`: success
/// returns the number of verifying signatures, which is then at least the
/// configured threshold; fewer verifying signatures fail with
/// `InsufficientSignatures`, an unknown signer with `WitnessNotFound`, an
/// undecodable key with `InvalidPublicKey`, and a scheme mismatch or failed
/// verification with `InvalidSignature`. Nothing is mutated: the outcome is
/// a function of the attestation and the configuration alone.
#[verifier::rlimit(50)]
pub fn verify_signed_attestation(signed: &SignedAttestation, config: &NetworkConfig) -> (r: Result<
    usize,
    WitnessError,
>)
    ensures
        r matches Ok(c) ==> spec_verify_outcome(*signed, *config) == Ok::<int, WitnessError>(
            c as int,
        ) && c >= config.threshold,
        r matches Err(e) ==> spec_verify_outcome(*signed, *config) == Err::<int, WitnessError>(e),
{
    let message = signed.attestation.to_bytes();
    match &signed.signatures {
        AttestationSignatures::MultiSig { signatures } => {
            if !matches!(config.signature_scheme, SignatureScheme::Ed25519) {
                return Err(WitnessError::InvalidSignature);
            }
            if signatures.len() == 0 {
                return Err(WitnessError::InsufficientSignatures {
                    got: 0,
                    required: config.threshold,
                });
            }
            let r = verify_multisig(signatures, config, &message);
            proof {
                lemma_multisig_count_bound(
                    signatures@,
                    *config,
                    signed.attestation.spec_bytes(),
                );
            }
            r
        },
        AttestationSignatures::Aggregated { signature, signers } => {
            if !matches!(config.signature_scheme, SignatureScheme::BLS) {
                return Err(WitnessError::InvalidSignature);
            }
            let n = signers.len();
            if n == 0 {
                return Err(WitnessError::InsufficientSignatures {
                    got: 0,
                    required: config.threshold,
                });
            }
            if n < config.threshold {
                return Err(WitnessError::InsufficientSignatures {
                    got: n,
                    required: config.threshold,
                });
            }
            verify_aggregated(signature, signers, config, &message)
        },
    }
}

} // verus!

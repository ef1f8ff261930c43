//! The witness node's signing contract: a witness signs a well-formed
//! attestation exactly when its timestamp lies within the clock-skew bound
//! and its network matches the witness's own; the signature covers the
//! canonical bytes under the witness's configured scheme.

use vstd::prelude::*;

use crate::bls::bls_sk_valid;
use crate::bls::bls_signature_of;
use crate::bls::sign_attestation_bls;
use crate::crypto::ed25519_signature_of;
use crate::crypto::sign_attestation;
use crate::encoding::hex_decodable;
use crate::encoding::hex_decode;
use crate::encoding::spec_hex_decode;
use crate::signature_scheme::SignatureScheme;
use crate::types::SignRequest;
use crate::types::SignResponse;

verus! {

/// What a witness answers when it refuses to sign.
#[derive(Debug, Clone, PartialEq, Eq, Structural)]
pub enum WitnessSignError {
    /// The request's timestamp lies too far from the witness's clock.
    InvalidTimestamp,
    /// The request names another network.
    InvalidNetwork,
    /// The witness's own key is unavailable or unusable.
    InternalError,
}

/// A witness node's configuration: its id, scheme, hex private key, port,
/// network, and the clock skew it tolerates.
#[derive(Debug, Clone)]
pub struct WitnessNodeConfig {
    /// Unique id of this witness.
    pub id: String,
    /// Signature scheme this witness signs under.
    pub signature_scheme: SignatureScheme,
    /// The private key, hex encoded: 32 bytes for either scheme.
    pub private_key: String,
    /// HTTP port to listen on.
    pub port: u16,
    /// The network this witness belongs to.
    pub network_id: String,
    /// Largest accepted distance between the request's timestamp and now.
    pub max_clock_skew: u64,
}

/// Whether a timestamp lies within the skew bound around `now`.
pub open spec fn skew_ok(ts: u64, now: u64, max_skew: u64) -> bool {
    (ts >= now ==> ts - now <= max_skew) && (ts < now ==> now - ts <= max_skew)
}

/// Whether a witness's configured Ed25519 private key is usable: hex that
/// decodes to 32 bytes.
pub open spec fn ed25519_secret_ok(key_hex: Seq<char>) -> bool {
    hex_decodable(key_hex) && spec_hex_decode(key_hex).len() == 32
}

/// Whether a witness's configured BLS private key is usable: hex whose
/// bytes blst accepts as a secret key.
pub open spec fn bls_secret_ok(key_hex: Seq<char>) -> bool {
    hex_decodable(key_hex) && bls_sk_valid(spec_hex_decode(key_hex))
}

impl WitnessNodeConfig {
    /// Handles one sign request at time `now`: rejects a timestamp outside
    /// the skew bound, then a foreign network, and otherwise signs the
    /// canonical bytes with this witness's key under its scheme.
    pub fn handle_sign(&self, request: &SignRequest, now: u64) -> (r: Result<
        SignResponse,
        WitnessSignError,
    >)
        ensures
            !skew_ok(request.attestation.timestamp, now, self.max_clock_skew) ==> r == Err::<
                SignResponse,
                WitnessSignError,
            >(WitnessSignError::InvalidTimestamp),
            skew_ok(request.attestation.timestamp, now, self.max_clock_skew)
                && request.attestation.network_id@ != self.network_id@ ==> r == Err::<
                SignResponse,
                WitnessSignError,
            >(WitnessSignError::InvalidNetwork),
            skew_ok(request.attestation.timestamp, now, self.max_clock_skew)
                && request.attestation.network_id@ == self.network_id@ ==> {
                &&& self.signature_scheme == SignatureScheme::Ed25519 ==> {
                    if ed25519_secret_ok(self.private_key@) {
                        r matches Ok(resp) && resp.witness_id@ == self.id@ && resp.signature@
                            == ed25519_signature_of(
                            spec_hex_decode(self.private_key@),
                            request.attestation.spec_bytes(),
                        )
                    } else {
                        r == Err::<SignResponse, WitnessSignError>(WitnessSignError::InternalError)
                    }
                }
                &&& self.signature_scheme == SignatureScheme::BLS ==> {
                    if bls_secret_ok(self.private_key@) {
                        r matches Ok(resp) && resp.witness_id@ == self.id@ && resp.signature@
                            == bls_signature_of(
                            spec_hex_decode(self.private_key@),
                            request.attestation.spec_bytes(),
                        )
                    } else {
                        r == Err::<SignResponse, WitnessSignError>(WitnessSignError::InternalError)
                    }
                }
            },
    {
        let ts = request.attestation.timestamp;
        let time_diff = if ts > now {
            ts - now
        } else {
            now - ts
        };
        if time_diff > self.max_clock_skew {
            return Err(WitnessSignError::InvalidTimestamp);
        }
        if !crate::encoding::str_eq(
            request.attestation.network_id.as_str(),
            self.network_id.as_str(),
        ) {
            return Err(WitnessSignError::InvalidNetwork);
        }
        let key_bytes = match hex_decode(self.private_key.as_str()) {
            Option::Some(b) => b,
            Option::None => {
                return Err(WitnessSignError::InternalError);
            },
        };
        let signature = match self.signature_scheme {
            SignatureScheme::Ed25519 => {
                if key_bytes.len() != 32 {
                    return Err(WitnessSignError::InternalError);
                }
                sign_attestation(&request.attestation, key_bytes.as_slice())
            },
            SignatureScheme::BLS => {
                match sign_attestation_bls(&request.attestation, key_bytes.as_slice()) {
                    Result::Ok(s) => s,
                    Result::Err(_) => {
                        return Err(WitnessSignError::InternalError);
                    },
                }
            },
        };
        Ok(SignResponse { witness_id: self.id.clone(), signature })
    }

    /// The hex encoding of this witness's public key, derived from its
    /// private key under its scheme; the word `invalid` when the key is
    /// unusable.
    pub fn public_key(&self) -> (r: String)
        ensures
            self.signature_scheme == SignatureScheme::Ed25519 ==> {
                if ed25519_secret_ok(self.private_key@) {
                    r@ == crate::encoding::spec_hex_encode(
                        crate::crypto::ed25519_pubkey_of(spec_hex_decode(self.private_key@)),
                    )
                } else {
                    r@ == "invalid"@
                }
            },
            self.signature_scheme == SignatureScheme::BLS ==> {
                if bls_secret_ok(self.private_key@) {
                    r@ == crate::encoding::spec_hex_encode(
                        crate::bls::bls_pubkey_of(spec_hex_decode(self.private_key@)),
                    )
                } else {
                    r@ == "invalid"@
                }
            },
    {
        let key_bytes = match hex_decode(self.private_key.as_str()) {
            Option::Some(b) => b,
            Option::None => {
                return String::from_str("invalid");
            },
        };
        match self.signature_scheme {
            SignatureScheme::Ed25519 => {
                if key_bytes.len() != 32 {
                    return String::from_str("invalid");
                }
                let pk = crate::crypto::ed25519_public_key_for(key_bytes.as_slice());
                crate::crypto::encode_public_key(pk.as_slice())
            },
            SignatureScheme::BLS => {
                match crate::bls::bls_public_key_for(key_bytes.as_slice()) {
                    Result::Ok(pk) => crate::bls::encode_bls_public_key(pk.as_slice()),
                    Result::Err(_) => String::from_str("invalid"),
                }
            },
        }
    }
}

} // verus!

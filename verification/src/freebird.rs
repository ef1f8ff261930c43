//! Gateway-side token gating: the local checks made before a token is
//! forwarded to the token service, and the mapping of its answer. The HTTP
//! exchange itself belongs to the surrounding process.

use vstd::prelude::*;

use crate::encoding::str_eq;
use crate::types::FreebirdConfig;
use crate::types::FreebirdToken;

verus! {

/// Everything that can go wrong while verifying an authorization token.
#[derive(Debug, Clone, PartialEq, Eq)]
pub enum FreebirdError {
    /// The token service rejected the token, or it was already used.
    TokenInvalid,
    /// The token's expiry lies in the past.
    TokenExpired,
    /// The token's issuer is not among the trusted ones; carries the issuer.
    UntrustedIssuer(String),
    /// The token could not be checked at all; carries a description.
    VerificationFailed(String),
    /// The token service could not be reached; carries a description.
    HttpError(String),
}

impl FreebirdError {
    /// The HTTP status a token failure surfaces as: a rejected or expired
    /// token is forbidden; an untrusted issuer, a check that could not be
    /// carried out, and an unreachable token service are all verification
    /// failures, a bad gateway. A request that lacks a token where one is
    /// required is the caller's rejection (unauthorized), made before any
    /// token error exists.
    pub fn status_code(&self) -> (r: u16)
        ensures
            *self == FreebirdError::TokenInvalid ==> r == 403,
            *self == FreebirdError::TokenExpired ==> r == 403,
            *self matches FreebirdError::UntrustedIssuer(_) ==> r == 502,
            *self matches FreebirdError::VerificationFailed(_) ==> r == 502,
            *self matches FreebirdError::HttpError(_) ==> r == 502,
    {
        match self {
            FreebirdError::TokenInvalid => 403,
            FreebirdError::TokenExpired => 403,
            FreebirdError::UntrustedIssuer(_) => 502,
            FreebirdError::VerificationFailed(_) => 502,
            FreebirdError::HttpError(_) => 502,
        }
    }
}

/// True when some trusted issuer id matches the given one.
pub open spec fn spec_issuer_trusted(ids: Seq<String>, issuer: Seq<char>) -> bool {
    exists|i: int| 0 <= i < ids.len() && (#[trigger] ids[i])@ == issuer
}

/// The local checks run before a token is forwarded: the issuer must be
/// trusted (an empty trust list trusts every issuer) and the token must not
/// have expired. Succeeds exactly when both hold.
pub fn token_precheck(config: &FreebirdConfig, token: &FreebirdToken, now: u64) -> (r: Result<
    (),
    FreebirdError,
>)
    ensures
        r.is_ok() <==> ((config.issuer_ids@.len() == 0 || spec_issuer_trusted(
            config.issuer_ids@,
            token.issuer_id@,
        )) && token.exp >= now),
        config.issuer_ids@.len() > 0 && !spec_issuer_trusted(
            config.issuer_ids@,
            token.issuer_id@,
        ) ==> (r matches Err(e) && e matches FreebirdError::UntrustedIssuer(s) && s@
            == token.issuer_id@),
        (config.issuer_ids@.len() == 0 || spec_issuer_trusted(
            config.issuer_ids@,
            token.issuer_id@,
        )) && token.exp < now ==> r == Err::<(), FreebirdError>(FreebirdError::TokenExpired),
{
    let ids = &config.issuer_ids;
    if ids.len() > 0 {
        let n = ids.len();
        let mut found = false;
        let mut i: usize = 0;
        while i < n
            invariant
                n == ids@.len(),
                i <= n,
                found ==> spec_issuer_trusted(ids@, token.issuer_id@),
                !found ==> (forall|j: int| 0 <= j < i ==> (#[trigger] ids@[j])@
                    != token.issuer_id@),
            decreases n - i,
        {
            if str_eq(ids[i].as_str(), token.issuer_id.as_str()) {
                found = true;
            }
            i = i + 1;
        }
        if !found {
            return Err(FreebirdError::UntrustedIssuer(token.issuer_id.clone()));
        }
    }
    if token.exp < now {
        return Err(FreebirdError::TokenExpired);
    }
    Ok(())
}

/// Whether requests without a token are rejected.
pub fn token_required(config: &FreebirdConfig) -> (r: bool)
    ensures
        r == config.required,
{
    config.required
}

/// Maps the token service's answer: a positive answer passes, a negative
/// one is an invalid token.
pub fn token_verdict(ok: bool) -> (r: Result<(), FreebirdError>)
    ensures
        ok <==> r.is_ok(),
        !ok ==> r == Err::<(), FreebirdError>(FreebirdError::TokenInvalid),
{
    if ok {
        Ok(())
    } else {
        Err(FreebirdError::TokenInvalid)
    }
}

} // verus!

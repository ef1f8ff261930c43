//! Token wallet and token gating behaviour.

use witness::freebird::token_precheck;
use witness::freebird::token_required;
use witness::freebird::token_verdict;
use witness::freebird::FreebirdError;
use witness::types::FreebirdConfig;
use witness::types::FreebirdToken;
use witness::wallet::TokenWallet;

fn now_secs() -> u64 {
    std::time::SystemTime::now()
        .duration_since(std::time::UNIX_EPOCH)
        .unwrap()
        .as_secs()
}

#[test]
fn test_wallet_operations() {
    let mut wallet = TokenWallet::new();
    let now = now_secs();

    let token = FreebirdToken {
        token_b64: "test_token".to_string(),
        issuer_id: "test:issuer:v1".to_string(),
        exp: u64::MAX,
        epoch: 0,
    };

    wallet.add_token(token.clone());
    assert_eq!(wallet.available_count(None, now), 1);
    assert_eq!(wallet.available_count(Some("test:issuer:v1"), now), 1);
    assert_eq!(wallet.available_count(Some("other:issuer"), now), 0);

    let taken = wallet.take_token(None, now);
    assert!(taken.is_some());
    assert_eq!(taken.unwrap().issuer_id, "test:issuer:v1");

    assert_eq!(wallet.available_count(None, now), 0);
}

#[test]
fn test_wallet_cleanup_and_list() {
    let mut wallet = TokenWallet::new();
    wallet.add_token(FreebirdToken {
        token_b64: "a".to_string(),
        issuer_id: "issuer:one".to_string(),
        exp: 10,
        epoch: 0,
    });
    wallet.add_token(FreebirdToken {
        token_b64: "b".to_string(),
        issuer_id: "issuer:two".to_string(),
        exp: u64::MAX,
        epoch: 1,
    });

    let listed = wallet.list(100);
    assert_eq!(listed.len(), 2);
    assert!(listed[0].expired);
    assert!(!listed[1].expired);

    let removed = wallet.cleanup(100);
    assert_eq!(removed, 1);
    assert_eq!(wallet.available_count(None, 100), 1);
}

#[test]
fn test_issuer_validation() {
    let config = FreebirdConfig {
        verifier_url: Some("http://localhost:8082".to_string()),
        issuer_ids: vec!["issuer:trusted:v1".to_string()],
        required: false,
        consume_tokens: false,
    };

    let token = FreebirdToken {
        token_b64: "test".to_string(),
        issuer_id: "issuer:untrusted:v1".to_string(),
        exp: u64::MAX,
        epoch: 0,
    };

    let verdict = token_precheck(&config, &token, now_secs());
    assert!(matches!(verdict, Err(FreebirdError::UntrustedIssuer(_))));

    let trusted = FreebirdToken {
        token_b64: "test".to_string(),
        issuer_id: "issuer:trusted:v1".to_string(),
        exp: u64::MAX,
        epoch: 0,
    };
    assert!(token_precheck(&config, &trusted, now_secs()).is_ok());
    assert!(!token_required(&config));
}

#[test]
fn test_expiration_check() {
    let token = FreebirdToken {
        token_b64: "test".to_string(),
        issuer_id: "issuer:test:v1".to_string(),
        exp: 0,
        epoch: 0,
    };

    let now = now_secs();

    assert!(token.exp < now);

    let config = FreebirdConfig {
        verifier_url: None,
        issuer_ids: vec![],
        required: false,
        consume_tokens: false,
    };
    assert_eq!(token_precheck(&config, &token, now), Err(FreebirdError::TokenExpired));
}

#[test]
fn test_token_verdict() {
    assert!(token_verdict(true).is_ok());
    assert_eq!(token_verdict(false), Err(FreebirdError::TokenInvalid));
}

#[test]
fn test_token_status_codes() {
    assert_eq!(FreebirdError::TokenInvalid.status_code(), 403);
    assert_eq!(FreebirdError::TokenExpired.status_code(), 403);
    assert_eq!(FreebirdError::UntrustedIssuer("who".to_string()).status_code(), 502);
    assert_eq!(FreebirdError::VerificationFailed("why".to_string()).status_code(), 502);
    assert_eq!(FreebirdError::HttpError("down".to_string()).status_code(), 502);
}

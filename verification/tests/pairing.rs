use trust_runtime::entropy::{code_from_bytes, generate_code, generate_token, token_from_bytes};
use trust_runtime::pairing::{
    mask_tail, sanitize_requested_role, PairingStore, PairingToken, PAIRING_CODE_TTL_SECS,
    PAIRING_MAX_TOKENS, PAIRING_TOKEN_TTL_SECS,
};
use trust_runtime::security::AccessRole;

#[test]
fn pairing_claim_cycle() {
    let mut store = PairingStore::with_clock(Vec::new(), 1000);
    let code = store.start_pairing(1000);
    let token = store.claim(&code.code, None, 1000);
    assert!(token.is_some());
    assert!(store.validate(token.as_ref().unwrap(), 1000));
    let list = store.list(1000);
    assert_eq!(list.len(), 1);
    assert_eq!(list[0].role, AccessRole::Operator);
    assert!(list[0].expires_at > list[0].created_at);
}

#[test]
fn pairing_expiry_rejects() {
    let mut store = PairingStore::with_clock(Vec::new(), 1000);
    let code = store.start_pairing(1000);
    let later = 1000 + PAIRING_CODE_TTL_SECS + 1;
    let token = store.claim(&code.code, None, later);
    assert!(token.is_none());
}

#[test]
fn pairing_token_expiry_disables_old_token() {
    let mut store = PairingStore::with_clock(Vec::new(), 1000);
    let code = store.start_pairing(1000);
    let token = store.claim(&code.code, Some(AccessRole::Viewer), 1000);
    let token = token.expect("pair token");
    assert_eq!(store.validate_with_role(&token, 1000), Some(AccessRole::Viewer));
    let later = 1000 + PAIRING_TOKEN_TTL_SECS + 2;
    assert_eq!(store.validate_with_role(&token, later), None);
}

#[test]
fn pairing_code_is_single_use() {
    let mut store = PairingStore::with_clock(Vec::new(), 10);
    let code = store.start_pairing(10);
    assert!(store.claim(&code.code, None, 10).is_some());
    assert!(store.claim(&code.code, None, 10).is_none());
}

#[test]
fn wrong_code_keeps_pending_code() {
    let mut store = PairingStore::with_clock(Vec::new(), 10);
    let code = store.start_pairing(10);
    let wrong = if code.code == "000000" { "000001" } else { "000000" };
    assert!(store.claim(wrong, None, 10).is_none());
    assert!(store.claim(&code.code, None, 10).is_some());
}

#[test]
fn admin_role_request_is_lowered() {
    assert_eq!(sanitize_requested_role(Some(AccessRole::Admin)), AccessRole::Engineer);
    assert_eq!(sanitize_requested_role(None), AccessRole::Operator);
    assert_eq!(sanitize_requested_role(Some(AccessRole::Engineer)), AccessRole::Engineer);
}

#[test]
fn revoke_disables_token() {
    let mut store = PairingStore::with_clock(Vec::new(), 10);
    let code = store.start_pairing(10);
    let token = store.claim(&code.code, None, 10).unwrap();
    let id = store.list(10)[0].id.clone();
    assert!(store.revoke(&id, 10));
    assert!(!store.validate(&token, 10));
    assert!(!store.revoke("missing", 10));
}

#[test]
fn revoke_all_counts_tokens() {
    let mut store = PairingStore::with_clock(Vec::new(), 10);
    for _ in 0..3 {
        let code = store.start_pairing(10);
        store.claim(&code.code, None, 10).unwrap();
    }
    assert_eq!(store.revoke_all(10), 3);
    assert_eq!(store.list(10).iter().filter(|s| s.enabled).count(), 0);
}

#[test]
fn claimed_token_is_base64_of_32_bytes() {
    let mut store = PairingStore::with_clock(Vec::new(), 10);
    let code = store.start_pairing(10);
    assert_eq!(code.code.len(), 6);
    assert!(code.code.chars().all(|c| c.is_ascii_digit()));
    assert_eq!(code.expires_at, 10 + PAIRING_CODE_TTL_SECS);
    let token = store.claim(&code.code, None, 10).unwrap();
    assert_eq!(token.len(), 43);
    assert!(token.chars().all(|c| c.is_ascii_alphanumeric() || c == '-' || c == '_'));
}

#[test]
fn pairing_code_from_bytes_is_six_digits() {
    assert_eq!(code_from_bytes([0, 0, 0, 0]), "000000");
    assert_eq!(code_from_bytes([0x40, 0x42, 0x0f, 0x00]), "000000");
    assert_eq!(code_from_bytes([0x41, 0x42, 0x0f, 0x00]), "000001");
    assert_eq!(code_from_bytes([0xff, 0xff, 0xff, 0xff]), "967295");
    assert_eq!(generate_code().len(), 6);
}

#[test]
fn token_from_bytes_is_url_safe_base64() {
    let t = token_from_bytes([0xfb; 32]);
    assert_eq!(t.len(), 43);
    assert!(t.starts_with("-_v7"));
    assert_eq!(token_from_bytes([0; 32]), "A".repeat(43));
    assert_eq!(generate_token().len(), 43);
}

#[test]
fn mask_tail_shows_last_four() {
    assert_eq!(mask_tail("abcdefgh"), "\u{2026}efgh");
    assert_eq!(mask_tail("abc"), "\u{2026}abc");
}

#[test]
fn loading_disables_expired_tokens() {
    let tokens = vec![PairingToken {
        id: "t1".to_string(),
        token: "secret".to_string(),
        created_at: 0,
        enabled: true,
        role: AccessRole::Viewer,
        expires_at: 5,
    }];
    let mut store = PairingStore::with_clock(tokens, 100);
    assert_eq!(store.validate_with_role("secret", 100), None);
}

#[test]
fn token_limit_is_kept() {
    let mut store = PairingStore::with_clock(Vec::new(), 10);
    for _ in 0..PAIRING_MAX_TOKENS {
        let code = store.start_pairing(10);
        store.claim(&code.code, None, 10).unwrap();
    }
    let code = store.start_pairing(10);
    assert!(store.claim(&code.code, None, 10).is_none());
    assert_eq!(store.tokens().len(), PAIRING_MAX_TOKENS);
}

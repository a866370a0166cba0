use gomoku_server::auth::{
    access_claims, check_login, gen_refresh_token, hash_password, hash_refresh_token,
    insert_user_error, login_tokens, mint_access_token, now_ts, plan_refresh, refreshed_tokens, rotate_threshold,
    token_error, validate_registration, verify_password, RefreshPlan, SessionStatus, TokenPolicy,
};
use gomoku_server::error::ApiError;

fn policy(ttl: i64, threshold: i64) -> TokenPolicy {
    TokenPolicy { access_ttl_secs: 900, refresh_ttl_secs: ttl, rotate_threshold_secs: threshold }
}

#[test]
fn password_length_boundary() {
    assert_eq!(validate_registration("alice", "12345"), Err(ApiError::BadRequest));
    assert_eq!(validate_registration("alice", "123456"), Ok(()));
    assert_eq!(validate_registration("   ", "123456"), Err(ApiError::BadRequest));
    assert_eq!(validate_registration("", "123456"), Err(ApiError::BadRequest));
}

#[test]
fn refresh_rotation_by_remaining_lifetime() {
    let p = policy(100, 20);
    let issued = 1_000;
    let status = Some(SessionStatus { expires_at: issued + 100, revoked: false });
    assert_eq!(
        plan_refresh(status, issued + 10, &p),
        Ok(RefreshPlan::Keep { refresh_expires_in: 90 })
    );
    assert_eq!(plan_refresh(status, issued + 85, &p), Ok(RefreshPlan::Rotate));
    assert_eq!(plan_refresh(status, issued + 80, &p), Ok(RefreshPlan::Rotate));
    assert_eq!(plan_refresh(status, issued + 101, &p), Err(ApiError::TokenExpired));
    assert_eq!(plan_refresh(None, issued, &p), Err(ApiError::Unauthorized));
    let revoked = Some(SessionStatus { expires_at: issued + 100, revoked: true });
    assert_eq!(plan_refresh(revoked, issued, &p), Err(ApiError::Unauthorized));
}

#[test]
fn threshold_is_clamped() {
    assert_eq!(rotate_threshold(&policy(100, 500)), 100);
    assert_eq!(rotate_threshold(&policy(100, -5)), 0);
    assert_eq!(rotate_threshold(&policy(100, 20)), 20);
}

#[test]
fn refreshed_tokens_keep_or_replace() {
    let p = policy(100, 20);
    let kept = refreshed_tokens(
        RefreshPlan::Keep { refresh_expires_in: 90 },
        "a2".to_string(),
        "old".to_string(),
        "new".to_string(),
        &p,
    );
    assert_eq!(kept.refresh_token, "old");
    assert_eq!(kept.refresh_expires_in, 90);
    assert_eq!(kept.access_expires_in, 900);
    let rotated = refreshed_tokens(RefreshPlan::Rotate, "a3".to_string(), "old".to_string(), "new".to_string(), &p);
    assert_eq!(rotated.refresh_token, "new");
    assert_eq!(rotated.refresh_expires_in, 100);
    let t = login_tokens("a".to_string(), "r".to_string(), &p);
    assert_eq!((t.access_expires_in, t.refresh_expires_in), (900, 100));
}

#[test]
fn refresh_token_hash_is_hex_sha256() {
    assert_eq!(
        hash_refresh_token("abc"),
        "ba7816bf8f01cfea414140de5dae2223b00361a396177a9cb410ff61f20015ad"
    );
}

#[test]
fn refresh_tokens_are_43_url_safe_characters() {
    let a = gen_refresh_token().unwrap();
    let b = gen_refresh_token().unwrap();
    assert_eq!(a.len(), 43);
    assert!(a.chars().all(|c| c.is_ascii_alphanumeric() || c == '-' || c == '_'));
    assert_ne!(a, b);
}

#[test]
fn password_hash_verifies() {
    let h = hash_password("secret1").unwrap();
    assert!(h.starts_with("$argon2"));
    assert_eq!(verify_password("secret1", &h), Ok(true));
    assert_eq!(verify_password("secret2", &h), Ok(false));
    assert_eq!(verify_password("secret1", "garbage"), Err(ApiError::Internal));
    assert_eq!(check_login(Some(&h), "secret1"), Ok(()));
    assert_eq!(check_login(Some(&h), "nope"), Err(ApiError::InvalidCredentials));
    assert_eq!(check_login(None, "secret1"), Err(ApiError::InvalidCredentials));
}

#[test]
fn claims_and_errors() {
    let c = access_claims("alice", 1, 1_000, 900);
    assert_eq!(c.sub, "alice");
    assert_eq!(c.uid, "00000000-0000-0000-0000-000000000001");
    assert_eq!((c.iat, c.exp), (1_000, 1_900));
    assert_eq!(token_error(true), ApiError::TokenExpired);
    assert_eq!(token_error(false), ApiError::Unauthorized);
    assert_eq!(insert_user_error(Some("23505")), ApiError::UsernameTaken);
    assert_eq!(insert_user_error(Some("42P01")), ApiError::Internal);
    assert_eq!(insert_user_error(None), ApiError::Internal);
    assert!(now_ts() > 1_600_000_000);
}

#[test]
fn error_codes_and_statuses() {
    let all = [
        (ApiError::BadRequest, "bad_request", 400),
        (ApiError::Unauthorized, "unauthorized", 401),
        (ApiError::Forbidden, "forbidden", 403),
        (ApiError::UsernameTaken, "username_taken", 409),
        (ApiError::InvalidCredentials, "invalid_credentials", 401),
        (ApiError::TokenExpired, "token_expired", 401),
        (ApiError::RateLimited, "rate_limited", 429),
        (ApiError::Internal, "internal_error", 500),
    ];
    for (e, code, status) in all {
        assert_eq!(e.code_message().0, code);
        assert_eq!(e.status(), status);
    }
}

#[test]
fn minted_token_carries_claims() {
    let token = mint_access_token("s3cret", 900, "alice", 5).unwrap();
    let data = jsonwebtoken::decode::<std::collections::HashMap<String, serde_json::Value>>(
        &token,
        &jsonwebtoken::DecodingKey::from_secret(b"s3cret"),
        &jsonwebtoken::Validation::new(jsonwebtoken::Algorithm::HS256),
    )
    .unwrap();
    assert_eq!(data.claims["sub"], "alice");
    assert_eq!(data.claims["uid"], "00000000-0000-0000-0000-000000000005");
    let exp = data.claims["exp"].as_u64().unwrap();
    let iat = data.claims["iat"].as_u64().unwrap();
    assert_eq!(exp - iat, 900);
    assert_eq!(mint_access_token("s3cret", -1, "alice", 5), Err(ApiError::Internal));
}

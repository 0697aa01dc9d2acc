use ninety_two::auth::{
    AccessToken, RefreshToken, TokenStore, ACCESS_TOKEN_TTL_SECONDS, REFRESH_TOKEN_TTL_SECONDS,
};
use ninety_two::errors::NinetyTwoError;

#[test]
fn refresh_insert_and_fetch_roundtrip() {
    let mut store = TokenStore::new();
    let rt = RefreshToken::insert_at(&mut store, "tok-1".to_owned(), 100).unwrap();
    assert_eq!(rt.id, 1);
    assert_eq!(rt.token, "tok-1");
    assert_eq!(rt.created_at, 100);
    assert_eq!(rt.updated_at, 100);
    assert_eq!(rt.expires_at, 100 + REFRESH_TOKEN_TTL_SECONDS);
    let hit = RefreshToken::fetch_by_token_at(&String::from("tok-1"), &store, 101).unwrap();
    assert_eq!(hit.id, 1);
    let by_id = RefreshToken::fetch_by_id_at(1, &store, 101).unwrap();
    assert_eq!(by_id.token, "tok-1");
}

#[test]
fn refresh_duplicate_token_is_storage_error() {
    let mut store = TokenStore::new();
    RefreshToken::insert_at(&mut store, "tok-1".to_owned(), 100).unwrap();
    let r = RefreshToken::insert_at(&mut store, "tok-1".to_owned(), 101);
    assert!(matches!(r, Err(NinetyTwoError::StorageError)));
    assert_eq!(store.refresh_tokens.len(), 1);
}

#[test]
fn expired_refresh_token_is_reported_expired() {
    let mut store = TokenStore::new();
    let rt = RefreshToken::insert_at(&mut store, "tok-1".to_owned(), 100).unwrap();
    let at_expiry = RefreshToken::fetch_by_token_at(&String::from("tok-1"), &store, rt.expires_at);
    assert!(matches!(at_expiry, Err(NinetyTwoError::RefreshTokenExpired)));
    let just_before =
        RefreshToken::fetch_by_token_at(&String::from("tok-1"), &store, rt.expires_at - 1);
    assert!(just_before.is_ok());
    let by_id = RefreshToken::fetch_by_id_at(1, &store, rt.expires_at);
    assert!(matches!(by_id, Err(NinetyTwoError::RefreshTokenExpired)));
}

#[test]
fn missing_refresh_token_is_reported_not_found() {
    let mut store = TokenStore::new();
    RefreshToken::insert_at(&mut store, "tok-1".to_owned(), 100).unwrap();
    let miss = RefreshToken::fetch_by_token_at(&String::from("other"), &store, 101);
    assert!(matches!(miss, Err(NinetyTwoError::RefreshTokenNotFound)));
    let miss_id = RefreshToken::fetch_by_id_at(9, &store, 101);
    assert!(matches!(miss_id, Err(NinetyTwoError::RefreshTokenNotFound)));
}

#[test]
fn refresh_new_draws_a_fresh_uuid_token() {
    let mut store = TokenStore::new();
    let rt = RefreshToken::new_at(&mut store, 100).unwrap();
    assert_eq!(rt.id, 1);
    assert_eq!(rt.token.len(), 36);
    assert_eq!(rt.expires_at, 100 + REFRESH_TOKEN_TTL_SECONDS);
    let rt2 = RefreshToken::new_at(&mut store, 100).unwrap();
    assert_eq!(rt2.id, 2);
    assert_ne!(rt.token, rt2.token);
}

#[test]
fn refresh_new_with_real_clock() {
    let mut store = TokenStore::new();
    let rt = RefreshToken::new(&mut store).unwrap();
    assert_eq!(rt.token.len(), 36);
    assert_eq!(rt.expires_at, rt.created_at + REFRESH_TOKEN_TTL_SECONDS);
}

#[test]
fn access_token_needs_live_refresh_token() {
    let mut store = TokenStore::new();
    let rt = RefreshToken::insert_at(&mut store, "tok-1".to_owned(), 100).unwrap();
    let at = AccessToken::new_at(rt.id, &mut store, 200).unwrap();
    assert_eq!(at.id, 1);
    assert_eq!(at.refresh_token_id, rt.id);
    assert_eq!(at.token.len(), 36);
    assert_eq!(at.created_at, 200);
    assert_eq!(at.expires_at, 200 + ACCESS_TOKEN_TTL_SECONDS);
    assert_eq!(store.access_tokens.len(), 1);
}

#[test]
fn access_token_for_missing_refresh_is_not_found() {
    let mut store = TokenStore::new();
    let r = AccessToken::new_at(42, &mut store, 200);
    assert!(matches!(r, Err(NinetyTwoError::RefreshTokenNotFound)));
    assert_eq!(store.access_tokens.len(), 0);
}

#[test]
fn access_token_for_expired_refresh_is_expired() {
    let mut store = TokenStore::new();
    let rt = RefreshToken::insert_at(&mut store, "tok-1".to_owned(), 0).unwrap();
    let r = AccessToken::new_at(rt.id, &mut store, rt.expires_at);
    assert!(matches!(r, Err(NinetyTwoError::RefreshTokenExpired)));
    assert_eq!(store.access_tokens.len(), 0);
}

#[test]
fn access_token_fetch_distinguishes_outcomes() {
    let mut store = TokenStore::new();
    let rt = RefreshToken::insert_at(&mut store, "tok-1".to_owned(), 100).unwrap();
    let at = AccessToken::new_at(rt.id, &mut store, 200).unwrap();
    let live = AccessToken::fetch_by_token_at(&at.token, &store, at.expires_at - 1).unwrap();
    assert_eq!(live.id, at.id);
    let expired = AccessToken::fetch_by_token_at(&at.token, &store, at.expires_at);
    assert!(matches!(expired, Err(NinetyTwoError::AccessTokenExpired)));
    let missing = AccessToken::fetch_by_token_at(&String::from("nope"), &store, 200);
    assert!(matches!(missing, Err(NinetyTwoError::AccessTokenNotFound)));
}

#[test]
fn access_token_new_with_real_clock() {
    let mut store = TokenStore::new();
    let rt = RefreshToken::new(&mut store).unwrap();
    let at = AccessToken::new(rt.id, &mut store).unwrap();
    assert_eq!(at.refresh_token_id, rt.id);
    assert_eq!(at.token.len(), 36);
    assert_eq!(at.expires_at, at.created_at + ACCESS_TOKEN_TTL_SECONDS);
}

#[test]
fn expiry_saturates_at_the_time_limit() {
    let mut store = TokenStore::new();
    let rt = RefreshToken::insert_at(&mut store, "tok-1".to_owned(), i64::MAX - 1).unwrap();
    assert_eq!(rt.expires_at, i64::MAX);
}

#[test]
fn is_expired_at_boundary() {
    let mut store = TokenStore::new();
    let rt = RefreshToken::insert_at(&mut store, "tok-1".to_owned(), 100).unwrap();
    assert!(!rt.is_expired_at(rt.expires_at - 1));
    assert!(rt.is_expired_at(rt.expires_at));
    assert!(rt.is_expired_at(rt.expires_at + 1));
}

use rust_web_dev::auth::{auth, finish_registration, login, register, StoreFailure};
use rust_web_dev::error::{api_layer_error, status_code, APILayerError, Error};
use rust_web_dev::password::{hash_password, hash_password_with_salt, verify_password};
use rust_web_dev::token::{TokenCodec, TOKEN_TTL};
use rust_web_dev::types::{Account, AccountId, Session};

const KEY: &[u8] = b"RANDOM WORDS WINTER MACINTOSH PC";
const NOW: i64 = 1_700_000_000;

fn codec() -> TokenCodec {
    TokenCodec::new(KEY).expect("a 32-byte key")
}

fn account(email: &str, password: &str) -> Account {
    Account { id: None, email: email.to_string(), password: password.to_string() }
}

#[test]
fn hash_then_verify_accepts_only_the_password() {
    let h = hash_password(b"pw");
    assert!(verify_password(&h, b"pw"));
    assert!(!verify_password(&h, b"pW"));
    assert!(!verify_password(&h, b""));
    assert_ne!(h.as_bytes(), b"pw");
    assert!(h.starts_with("$argon2i$v=19$m=4096,t=3,p=1$"));
}

#[test]
fn two_hashes_of_one_password_differ_and_both_verify() {
    let h1 = hash_password(b"secret");
    let h2 = hash_password(b"secret");
    assert_ne!(h1, h2);
    assert!(verify_password(&h1, b"secret"));
    assert!(verify_password(&h2, b"secret"));
}

#[test]
fn hash_with_salt_is_deterministic_and_salt_dependent() {
    let a = hash_password_with_salt(b"pw", &[1u8; 32]);
    let b = hash_password_with_salt(b"pw", &[1u8; 32]);
    let c = hash_password_with_salt(b"pw", &[2u8; 32]);
    assert_eq!(a, b);
    assert_ne!(a, c);
    assert!(verify_password(&c, b"pw"));
}

#[test]
fn malformed_hash_verifies_nothing() {
    assert!(!verify_password("not a hash", b"pw"));
    assert!(!verify_password("", b""));
}

#[test]
fn codec_needs_a_32_byte_key() {
    assert!(TokenCodec::new(b"short").is_none());
    assert!(TokenCodec::new(&[0u8; 33]).is_none());
    assert!(TokenCodec::new(&[0u8; 32]).is_some());
}

#[test]
fn issued_token_verifies_throughout_its_window() {
    let c = codec();
    let t = c.issue_token(AccountId(7), NOW).unwrap();
    assert!(t.starts_with("v2.local."));
    let expected = Session { exp: NOW + TOKEN_TTL, account_id: AccountId(7), nbf: NOW };
    assert_eq!(c.verify_token(&t, NOW), Ok(expected));
    assert_eq!(c.verify_token(&t, NOW + 3600), Ok(expected));
    assert_eq!(c.verify_token(&t, NOW + TOKEN_TTL - 1), Ok(expected));
}

#[test]
fn token_expiry_boundary() {
    let c = codec();
    let t = c.issue_token(AccountId(3), NOW).unwrap();
    assert_eq!(c.verify_token(&t, NOW + TOKEN_TTL), Err(Error::TokenExpired));
    assert_eq!(c.verify_token(&t, NOW + TOKEN_TTL + 1000), Err(Error::TokenExpired));
    assert!(c.verify_token(&t, NOW + TOKEN_TTL - 1).is_ok());
    assert_eq!(TOKEN_TTL, 86400);
}

#[test]
fn token_not_yet_valid_before_issue_time() {
    let c = codec();
    let t = c.issue_token(AccountId(3), NOW).unwrap();
    assert_eq!(c.verify_token(&t, NOW - 1), Err(Error::TokenNotYetValid));
}

#[test]
fn flipping_any_byte_invalidates_the_token() {
    let c = codec();
    let t = c.issue_token(AccountId(11), NOW).unwrap();
    let bytes = t.as_bytes().to_vec();
    for i in 0..bytes.len() {
        let mut changed = bytes.clone();
        changed[i] ^= 1;
        let text = String::from_utf8(changed).unwrap();
        assert_eq!(c.verify_token(&text, NOW), Err(Error::TokenInvalid), "byte {}", i);
    }
}

#[test]
fn token_from_another_key_is_invalid() {
    let other = TokenCodec::new(&[9u8; 32]).unwrap();
    let t = other.issue_token(AccountId(1), NOW).unwrap();
    assert_eq!(codec().verify_token(&t, NOW), Err(Error::TokenInvalid));
}

#[test]
fn garbage_tokens_are_invalid() {
    let c = codec();
    assert_eq!(c.verify_token("", NOW), Err(Error::TokenInvalid));
    assert_eq!(c.verify_token("v2.local.", NOW), Err(Error::TokenInvalid));
    assert_eq!(c.verify_token("v2.local.AAAA", NOW), Err(Error::TokenInvalid));
    let long = format!("v2.local.{}", "A".repeat(60));
    assert_eq!(c.verify_token(&long, NOW), Err(Error::TokenInvalid));
    let padded = format!("v2.local.{}==", "A".repeat(30));
    assert_eq!(c.verify_token(&padded, NOW), Err(Error::TokenInvalid));
    let short = format!("v2.local.{}", "A".repeat(31));
    assert_eq!(c.verify_token(&short, NOW), Err(Error::TokenInvalid));
    let dotted = format!("v2.local.{}.{}", "A".repeat(60), "B".repeat(4));
    assert_eq!(c.verify_token(&dotted, NOW), Err(Error::TokenInvalid));
}

#[test]
fn unknown_email_and_wrong_password_give_the_same_error() {
    let c = codec();
    let mut stored = register(account("a@x.com", "pw")).unwrap();
    stored.id = Some(AccountId(1));
    let wrong = login(Some(stored), "nope", &c, NOW);
    let unknown = login(None, "pw", &c, NOW);
    assert_eq!(wrong, Err(Error::InvalidCredentials));
    assert_eq!(unknown, Err(Error::InvalidCredentials));
    assert_eq!(wrong, unknown);
}

#[test]
fn register_login_and_use_the_token() {
    let c = codec();
    let pending = register(account("a@x.com", "pw")).unwrap();
    assert_eq!(pending.email, "a@x.com");
    assert_ne!(pending.password, "pw");
    let stored = finish_registration(pending, Ok(AccountId(42))).unwrap();
    assert_eq!(stored.id, Some(AccountId(42)));
    let token = login(Some(stored), "pw", &c, NOW).unwrap();
    let session = c.verify_token(&token, NOW).unwrap();
    assert_eq!(session.account_id, AccountId(42));
    assert_eq!(auth(Some(&token), &c, NOW + 5).map(|s| s.account_id), Ok(AccountId(42)));
    assert_eq!(auth(None, &c, NOW), Err(Error::Unauthorized));
    assert_eq!(auth(Some(""), &c, NOW), Err(Error::Unauthorized));
    let mut corrupted = token.clone().into_bytes();
    let last = corrupted.len() - 3;
    corrupted[last] = if corrupted[last] == b'A' { b'B' } else { b'A' };
    let corrupted = String::from_utf8(corrupted).unwrap();
    assert_eq!(auth(Some(&corrupted), &c, NOW), Err(Error::Unauthorized));
}

#[test]
fn gate_hides_why_a_token_failed() {
    let c = codec();
    let t = c.issue_token(AccountId(5), NOW).unwrap();
    assert_eq!(auth(Some(&t), &c, NOW + TOKEN_TTL), Err(Error::Unauthorized));
    assert_eq!(auth(Some(&t), &c, NOW - 10), Err(Error::Unauthorized));
    assert_eq!(auth(Some("junk"), &c, NOW), Err(Error::Unauthorized));
}

#[test]
fn concurrent_logins_give_independent_valid_tokens() {
    let c = codec();
    let mut stored = register(account("b@x.com", "pw2")).unwrap();
    stored.id = Some(AccountId(8));
    let t1 = login(Some(stored.clone()), "pw2", &c, NOW).unwrap();
    let t2 = login(Some(stored), "pw2", &c, NOW + 1).unwrap();
    assert_ne!(t1, t2);
    assert_eq!(c.verify_token(&t1, NOW + 2).unwrap().account_id, AccountId(8));
    assert_eq!(c.verify_token(&t2, NOW + 2).unwrap().account_id, AccountId(8));
}

#[test]
fn register_refuses_empty_input() {
    assert_eq!(register(account("", "pw")), Err(Error::InvalidInput));
    assert_eq!(register(account("a@x.com", "")), Err(Error::InvalidInput));
}

#[test]
fn finish_registration_maps_store_failures() {
    let pending = register(account("c@x.com", "pw")).unwrap();
    assert_eq!(
        finish_registration(pending.clone(), Err(StoreFailure::UniqueViolation)),
        Err(Error::AccountExists)
    );
    assert_eq!(finish_registration(pending, Err(StoreFailure::Other)), Err(Error::StorageError));
}

#[test]
fn login_without_account_id_is_a_storage_error() {
    let stored = register(account("d@x.com", "pw")).unwrap();
    assert_eq!(login(Some(stored), "pw", &codec(), NOW), Err(Error::StorageError));
}

#[test]
fn status_codes_of_errors() {
    assert_eq!(status_code(&Error::Unauthorized), 401);
    assert_eq!(status_code(&Error::TokenExpired), 401);
    assert_eq!(status_code(&Error::TokenInvalid), 401);
    assert_eq!(status_code(&Error::TokenNotYetValid), 401);
    assert_eq!(status_code(&Error::InvalidCredentials), 422);
    assert_eq!(status_code(&Error::MissingParameters), 422);
    assert_eq!(status_code(&Error::AccountExists), 422);
    assert_eq!(status_code(&Error::ReqwestAPIError), 500);
    let e = api_layer_error(503, "down".to_string());
    assert_eq!(status_code(&e), 500);
}

#[test]
fn api_layer_errors_split_at_500() {
    let client = api_layer_error(404, "missing".to_string());
    assert_eq!(
        client,
        Error::ClientError(APILayerError { status: 404, message: "missing".to_string() })
    );
    let server = api_layer_error(500, "boom".to_string());
    assert_eq!(server, Error::ServerError(APILayerError { status: 500, message: "boom".to_string() }));
}

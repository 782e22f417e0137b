//! The account flows (registration and login) and the request gate in
//! front of protected routes. The account store is the caller's: these
//! functions take what the store returned and decide.

use vstd::prelude::*;
use vstd::string::StringSliceAdditionalSpecFns;
use vstd::utf8::encode_utf8;
use crate::error::Error;
use crate::password::{argon2_encoded, hash_password, password_matches, records_salt, verify_password};
use crate::token::{TokenCodec, TOKEN_TTL, seals, session_for, token_verdict};
use crate::types::{Account, AccountId, Session};

verus! {

/// How an account store can fail to insert an account.
#[derive(Debug, Clone, Copy, PartialEq, Eq)]
pub enum StoreFailure {
    /// The store already holds an account with this email.
    UniqueViolation,
    /// Any other failure of the store.
    Other,
}

/// Prepares an account for the store: refuses an empty email or an empty
/// password, and replaces the plaintext password by its hash.
pub fn register(account: Account) -> (r: Result<Account, Error>)
    requires
        encode_utf8(account.password@).len() <= u32::MAX,
    ensures
        r is Err <==> (account.email@.len() == 0 || account.password@.len() == 0),
        r matches Err(e) ==> e == Error::InvalidInput,
        r matches Ok(a) ==> {
            &&& a.id == account.id
            &&& a.email@ == account.email@
            &&& password_matches(a.password@, encode_utf8(account.password@))
            &&& exists|salt: Seq<u8>|
                salt.len() == 32 && a.password@ == argon2_encoded(encode_utf8(account.password@), salt)
                    && records_salt(a.password@, salt)
        },
{
    if account.email.as_str().is_empty() || account.password.as_str().is_empty() {
        return Err(Error::InvalidInput);
    }
    let hashed = hash_password(account.password.as_str().as_bytes());
    Ok(Account { id: account.id, email: account.email, password: hashed })
}

/// What a registration answers once the store has been asked to insert
/// the prepared account: the stored account with the id the store gave
/// it, `AccountExists` where the email is taken, `StorageError` otherwise.
pub fn finish_registration(pending: Account, stored: Result<AccountId, StoreFailure>) -> (r: Result<
    Account,
    Error,
>)
    ensures
        match stored {
            Ok(id) => r matches Ok(a) && a.id == Some(id) && a.email@ == pending.email@
                && a.password@ == pending.password@,
            Err(StoreFailure::UniqueViolation) => r == Err::<Account, Error>(Error::AccountExists),
            Err(StoreFailure::Other) => r == Err::<Account, Error>(Error::StorageError),
        },
{
    match stored {
        Ok(id) => Ok(Account { id: Some(id), email: pending.email, password: pending.password }),
        Err(StoreFailure::UniqueViolation) => Err(Error::AccountExists),
        Err(StoreFailure::Other) => Err(Error::StorageError),
    }
}

/// Why a login is refused, given the account that the store found for the
/// email (if any) and the password offered; `None` where a token is issued.
/// An unknown email and a wrong password give the same refusal.
pub open spec fn login_refusal(stored: Option<Account>, password: Seq<u8>) -> Option<Error> {
    match stored {
        None => Some(Error::InvalidCredentials),
        Some(acc) => if !password_matches(acc.password@, password) {
            Some(Error::InvalidCredentials)
        } else if acc.id is None {
            Some(Error::StorageError)
        } else {
            None
        },
    }
}

/// Login: checks the password against the stored account and issues a
/// token for it at time `now`.
pub fn login(stored: Option<Account>, password: &str, codec: &TokenCodec, now: i64) -> (r: Result<
    String,
    Error,
>)
    requires
        codec.wf(),
        now <= i64::MAX - TOKEN_TTL,
    ensures
        match login_refusal(stored, password.spec_bytes()) {
            Some(e) => r == Err::<String, Error>(e),
            None => match r {
                Ok(t) => seals(
                    encode_utf8(t@),
                    codec.key_bytes(),
                    session_for(stored->Some_0.id->Some_0, now),
                ),
                Err(e) => e == Error::CannotEncryptToken,
            },
        },
{
    let account = match stored {
        Some(a) => a,
        None => return Err(Error::InvalidCredentials),
    };
    if !verify_password(account.password.as_str(), password.as_bytes()) {
        return Err(Error::InvalidCredentials);
    }
    match account.id {
        Some(id) => codec.issue_token(id, now),
        None => Err(Error::StorageError),
    }
}

/// The decision of the request gate on an `Authorization` header value.
pub open spec fn gate_verdict(header: Option<Seq<u8>>, key: Seq<u8>, now: i64) -> Result<
    Session,
    Error,
> {
    match header {
        None => Err(Error::Unauthorized),
        Some(h) => if h.len() == 0 {
            Err(Error::Unauthorized)
        } else {
            match token_verdict(h, key, now) {
                Ok(s) => Ok(s),
                Err(_) => Err(Error::Unauthorized),
            }
        },
    }
}

/// The request gate: a missing or empty header is refused at once; any
/// other value must be a token that is valid at `now`. Every refusal is
/// the same `Unauthorized`, whatever was wrong with the token.
pub fn auth(header: Option<&str>, codec: &TokenCodec, now: i64) -> (r: Result<Session, Error>)
    requires
        codec.wf(),
    ensures
        r == gate_verdict(
            match header {
                Some(h) => Some(h.spec_bytes()),
                None => None,
            },
            codec.key_bytes(),
            now,
        ),
{
    let token = match header {
        Some(h) => h,
        None => return Err(Error::Unauthorized),
    };
    if token.is_empty() {
        return Err(Error::Unauthorized);
    }
    match codec.verify_token(token, now) {
        Ok(s) => Ok(s),
        Err(_) => Err(Error::Unauthorized),
    }
}

/// Login with an unknown email and login with a wrong password are refused
/// with one and the same error.
pub proof fn lemma_login_hides_unknown_accounts(acc: Account, password: Seq<u8>)
    requires
        !password_matches(acc.password@, password),
    ensures
        login_refusal(Some(acc), password) == login_refusal(None, password),
        login_refusal(None, password) == Some(Error::InvalidCredentials),
{
}

} // verus!

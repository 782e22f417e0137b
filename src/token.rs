//! Session tokens: the claims text of a session, sealed with PASETO v2
//! local (authenticated encryption under a 32-byte server key), and the
//! check of a token against the time of a request.

use vstd::prelude::*;
use vstd::string::StringSliceAdditionalSpecFns;
use vstd::utf8::encode_utf8;
use crate::claims::{
    claims_of, claims_text, decode_claims, encode_claims, lemma_claims_ascii,
    lemma_claims_round_trip,
};
use crate::error::Error;
use crate::types::{AccountId, Session};

verus! {

/// How long a token stays valid: one day, in seconds.
pub const TOKEN_TTL: i64 = 86400;

/// `v2.local.`
pub open spec fn token_header() -> Seq<u8> {
    seq![118u8, 50, 46, 108, 111, 99, 97, 108, 46]
}

/// A symbol of the URL-safe base64 alphabet: `A-Z`, `a-z`, `0-9`, `-`, `_`.
pub open spec fn is_base64url(b: u8) -> bool {
    (65 <= b <= 90) || (97 <= b <= 122) || (48 <= b <= 57) || b == 45 || b == 95
}

/// A token of the shape `v2.local.<payload>`, whose payload has at least 32
/// bytes, all of the URL-safe base64 alphabet (so no dot and no padding).
pub open spec fn token_shaped(t: Seq<u8>) -> bool {
    &&& t.len() >= 41
    &&& t.take(9) == token_header()
    &&& forall|i: int| 9 <= i < t.len() ==> is_base64url(#[trigger] t[i])
}

/// What PASETO v2 local decryption of a token under a key gives: the
/// plaintext, or nothing where the token fails authentication.
pub uninterp spec fn paseto_v2_open(token: Seq<u8>, key: Seq<u8>) -> Option<Seq<u8>>;

/// The session that a token issued for `account_id` at time `now` carries.
pub open spec fn session_for(account_id: AccountId, now: i64) -> Session {
    Session { exp: (now + TOKEN_TTL) as i64, account_id, nbf: now }
}

/// `token` is shaped as a token and opens under `key` to the claims text of `s`.
pub open spec fn seals(token: Seq<u8>, key: Seq<u8>, s: Session) -> bool {
    token_shaped(token) && paseto_v2_open(token, key) == Some(claims_text(s))
}

/// The decision on a session's validity window at time `now`.
pub open spec fn window_verdict(s: Session, now: i64) -> Result<Session, Error> {
    if now >= s.exp {
        Err(Error::TokenExpired)
    } else if now < s.nbf {
        Err(Error::TokenNotYetValid)
    } else {
        Ok(s)
    }
}

/// The decision on a token, given as bytes, under `key` at time `now`.
pub open spec fn token_verdict(token: Seq<u8>, key: Seq<u8>, now: i64) -> Result<Session, Error> {
    if !token_shaped(token) {
        Err(Error::TokenInvalid)
    } else {
        match paseto_v2_open(token, key) {
            None => Err(Error::TokenInvalid),
            Some(m) => match claims_of(m) {
                None => Err(Error::TokenInvalid),
                Some(s) => window_verdict(s, now),
            },
        }
    }
}

/// Relies on paseto::v2::local::local_paseto (no footer): it seals `msg`
/// under a 32-byte key with a fresh random nonce into
/// `v2.local.` followed by the URL-safe base64 (no padding) of nonce and
/// ciphertext, which `decrypt_paseto` opens back to `msg`. A failure (of
/// the random source or of the cipher) gives no token.
#[verifier::external_body]
fn paseto_seal(msg: &[u8], key: &[u8]) -> (r: Option<String>)
    requires
        forall|i: int| 0 <= i < msg@.len() ==> msg@[i] < 128,
        key@.len() == 32,
    ensures
        r matches Some(t) ==> seals_bytes(t@, key@, msg@),
{
    match std::str::from_utf8(msg) {
        Ok(text) => paseto::v2::local::local_paseto(text, None, key).ok(),
        Err(_) => None,
    }
}

/// `t`, as UTF-8 bytes, is shaped as a token and opens under `key` to `msg`.
pub open spec fn seals_bytes(t: Seq<char>, key: Seq<u8>, msg: Seq<u8>) -> bool {
    token_shaped(encode_utf8(t)) && paseto_v2_open(encode_utf8(t), key)
        == Some(msg)
}

/// Relies on paseto::v2::local::decrypt_paseto (no footer): it checks the
/// header, decodes the payload and decrypts it with authentication; the
/// result is a function of the token and the key. The call splits the
/// decoded payload at 24 bytes and panics on a shorter one; a payload of at
/// least 32 base64 symbols without padding decodes to at least 24 bytes or
/// fails to decode, so a token of the required shape does not panic.
#[verifier::external_body]
fn paseto_open(token: &str, key: &[u8]) -> (r: Option<Vec<u8>>)
    requires
        token_shaped(token.spec_bytes()),
    ensures
        match r {
            Some(m) => paseto_v2_open(token.spec_bytes(), key@) == Some(m@),
            None => paseto_v2_open(token.spec_bytes(), key@) is None,
        },
{
    paseto::v2::local::decrypt_paseto(token, None, key).ok().map(|text| text.into_bytes())
}

fn is_token_shaped(t: &[u8]) -> (r: bool)
    ensures
        r == token_shaped(t@),
{
    if t.len() < 41 {
        return false;
    }
    let header: [u8; 9] = [118, 50, 46, 108, 111, 99, 97, 108, 46];
    let mut i: usize = 0;
    while i < 9
        invariant
            i <= 9,
            t@.len() >= 41,
            header@ == token_header(),
            forall|k: int| 0 <= k < i ==> t@[k] == header@[k],
        decreases 9 - i,
    {
        if t[i] != header[i] {
            assert(t@.take(9)[i as int] != token_header()[i as int]);
            return false;
        }
        i = i + 1;
    }
    assert(t@.take(9) =~= token_header());
    while i < t.len()
        invariant
            9 <= i <= t@.len(),
            forall|k: int| 9 <= k < i ==> is_base64url(#[trigger] t@[k]),
        decreases t@.len() - i,
    {
        let b = t[i];
        let symbol = (65 <= b && b <= 90) || (97 <= b && b <= 122) || (48 <= b && b <= 57) || b
            == 45 || b == 95;
        if !symbol {
            return false;
        }
        i = i + 1;
    }
    true
}

/// Issues and checks session tokens under one server key.
pub struct TokenCodec {
    key: Vec<u8>,
}

impl TokenCodec {
    /// The server key.
    pub closed spec fn key_bytes(&self) -> Seq<u8> {
        self.key@
    }

    pub closed spec fn wf(&self) -> bool {
        self.key@.len() == 32
    }

    /// A codec for a 32-byte key; no codec for a key of any other length.
    pub fn new(key: &[u8]) -> (r: Option<TokenCodec>)
        ensures
            r is Some <==> key@.len() == 32,
            r matches Some(c) ==> c.wf() && c.key_bytes() == key@,
    {
        if key.len() != 32 {
            return None;
        }
        let mut bytes: Vec<u8> = Vec::new();
        let mut i: usize = 0;
        while i < key.len()
            invariant
                i <= key@.len(),
                bytes@ == key@.take(i as int),
            decreases key@.len() - i,
        {
            bytes.push(key[i]);
            assert(key@.take(i + 1) =~= key@.take(i as int).push(key@[i as int]));
            i = i + 1;
        }
        assert(key@.take(i as int) =~= key@);
        Some(TokenCodec { key: bytes })
    }

    /// Issues a token for `account_id` at time `now`, valid from `now` until
    /// `now + TOKEN_TTL`. The only failure is that of the random source that
    /// the encryption draws its nonce from.
    pub fn issue_token(&self, account_id: AccountId, now: i64) -> (r: Result<String, Error>)
        requires
            self.wf(),
            now <= i64::MAX - TOKEN_TTL,
        ensures
            match r {
                Ok(t) => seals(encode_utf8(t@), self.key_bytes(), session_for(account_id, now)),
                Err(e) => e == Error::CannotEncryptToken,
            },
    {
        let session = Session { exp: now + TOKEN_TTL, account_id, nbf: now };
        let claims = encode_claims(&session);
        proof {
            lemma_claims_ascii(session);
        }
        match paseto_seal(claims.as_slice(), self.key.as_slice()) {
            Some(t) => Ok(t),
            None => Err(Error::CannotEncryptToken),
        }
    }

    /// Checks a token at time `now`: it must have the token shape, open
    /// under the server key to claims text, and `now` must lie in its
    /// validity window. Expiry is checked before the start of the window.
    pub fn verify_token(&self, token: &str, now: i64) -> (r: Result<Session, Error>)
        requires
            self.wf(),
        ensures
            r == token_verdict(token.spec_bytes(), self.key_bytes(), now),
    {
        let bytes = token.as_bytes();
        if !is_token_shaped(bytes) {
            return Err(Error::TokenInvalid);
        }
        let plain = match paseto_open(token, self.key.as_slice()) {
            Some(m) => m,
            None => return Err(Error::TokenInvalid),
        };
        let session = match decode_claims(plain.as_slice()) {
            Some(s) => s,
            None => return Err(Error::TokenInvalid),
        };
        if now >= session.exp {
            Err(Error::TokenExpired)
        } else if now < session.nbf {
            Err(Error::TokenNotYetValid)
        } else {
            Ok(session)
        }
    }
}

/// A token issued for account `a` at time `t` is accepted at every time of
/// its validity window `t <= now < t + TOKEN_TTL`, and yields the session of
/// account `a`.
pub proof fn lemma_issued_token_accepted(token: Seq<u8>, key: Seq<u8>, a: AccountId, t: i64, now: i64)
    requires
        t <= i64::MAX - TOKEN_TTL,
        seals(token, key, session_for(a, t)),
        t <= now < t + TOKEN_TTL,
    ensures
        token_verdict(token, key, now) == Ok::<Session, Error>(session_for(a, t)),
        token_verdict(token, key, now)->Ok_0.account_id == a,
{
    lemma_claims_round_trip(session_for(a, t));
}

/// A token issued at time `t` is refused as expired at `t + TOKEN_TTL`, and
/// still accepted one second before.
pub proof fn lemma_expiry_boundary(token: Seq<u8>, key: Seq<u8>, a: AccountId, t: i64)
    requires
        t <= i64::MAX - TOKEN_TTL,
        seals(token, key, session_for(a, t)),
    ensures
        token_verdict(token, key, (t + TOKEN_TTL) as i64) == Err::<Session, Error>(Error::TokenExpired),
        token_verdict(token, key, (t + TOKEN_TTL - 1) as i64) == Ok::<Session, Error>(session_for(a, t)),
{
    lemma_claims_round_trip(session_for(a, t));
}

/// Tokens issued for one account, at the same or at different times, do not
/// depend on each other: at any time inside both windows each of them is
/// accepted on its own, with the session of that account.
pub proof fn lemma_tokens_independent(
    token1: Seq<u8>,
    token2: Seq<u8>,
    key: Seq<u8>,
    a: AccountId,
    t1: i64,
    t2: i64,
    now: i64,
)
    requires
        t1 <= i64::MAX - TOKEN_TTL,
        t2 <= i64::MAX - TOKEN_TTL,
        seals(token1, key, session_for(a, t1)),
        seals(token2, key, session_for(a, t2)),
        t1 <= now < t1 + TOKEN_TTL,
        t2 <= now < t2 + TOKEN_TTL,
    ensures
        token_verdict(token1, key, now) == Ok::<Session, Error>(session_for(a, t1)),
        token_verdict(token2, key, now) == Ok::<Session, Error>(session_for(a, t2)),
{
    lemma_issued_token_accepted(token1, key, a, t1, now);
    lemma_issued_token_accepted(token2, key, a, t2, now);
}

} // verus!

//! Password storage: Argon2 hashes with a fresh random salt per password,
//! encoded with their parameters and salt into one string.

use vstd::prelude::*;

verus! {

/// The string that Argon2 (default parameters) encodes for a password and a salt.
pub uninterp spec fn argon2_encoded(password: Seq<u8>, salt: Seq<u8>) -> Seq<char>;

/// What Argon2 verification of a password against an encoded hash gives:
/// a verdict, or nothing where the encoded string is malformed.
pub uninterp spec fn argon2_verify_outcome(encoded: Seq<char>, password: Seq<u8>) -> Option<bool>;

/// A salt that Argon2 takes.
pub open spec fn valid_salt(salt: Seq<u8>) -> bool {
    8 <= salt.len() <= u32::MAX
}

/// The encoded hash `h` records `salt`: no other salt encodes to it.
pub open spec fn records_salt(h: Seq<char>, salt: Seq<u8>) -> bool {
    forall|p: Seq<u8>, s: Seq<u8>| valid_salt(s) && #[trigger] argon2_encoded(p, s) == h ==> s == salt
}

/// `password` verifies against the encoded hash `h`. A malformed hash, or
/// one that verification cannot read, verifies no password.
pub open spec fn password_matches(h: Seq<char>, password: Seq<u8>) -> bool {
    argon2_verify_outcome(h, password) == Some(true)
}

/// Relies on argon2::hash_encoded with argon2::Config::default() (Argon2i,
/// version 0x13, 4096 KiB, 3 passes, 1 lane, 32-byte digest). It fails only
/// for a password longer than u32::MAX bytes or a salt outside 8..=u32::MAX
/// bytes. The string is `$argon2i$v=19$m=4096,t=3,p=1$<salt>$<digest>` with
/// salt and digest in base64, so it records its salt, and
/// argon2::verify_encoded accepts it with the password it was made from.
#[verifier::external_body]
fn argon2_hash(password: &[u8], salt: &[u8]) -> (r: Option<String>)
    requires
        password@.len() <= u32::MAX,
        valid_salt(salt@),
    ensures
        r is Some,
        r->Some_0@ == argon2_encoded(password@, salt@),
        records_salt(r->Some_0@, salt@),
        argon2_verify_outcome(r->Some_0@, password@) == Some(true),
{
    argon2::hash_encoded(password, salt, &argon2::Config::default()).ok()
}

/// Relies on argon2::verify_encoded: it reads the parameters, salt and
/// digest from the encoded string, hashes the password with them and
/// compares the digests; the outcome is a function of the two arguments.
#[verifier::external_body]
fn argon2_verify(encoded: &str, password: &[u8]) -> (r: Option<bool>)
    ensures
        r == argon2_verify_outcome(encoded@, password@),
{
    argon2::verify_encoded(encoded, password).ok()
}

/// Relies on rand::thread_rng: 32 bytes from the thread-local generator,
/// a CSPRNG that the operating system seeds. Nothing is known of the value.
#[verifier::external_body]
fn random_salt() -> (r: [u8; 32]) {
    rand::Rng::gen::<[u8; 32]>(&mut rand::thread_rng())
}

/// Hashes a password with a given salt.
pub fn hash_password_with_salt(password: &[u8], salt: &[u8; 32]) -> (r: String)
    requires
        password@.len() <= u32::MAX,
    ensures
        r@ == argon2_encoded(password@, salt@),
        records_salt(r@, salt@),
        password_matches(r@, password@),
{
    match argon2_hash(password, salt) {
        Some(h) => h,
        None => String::new(),
    }
}

/// Hashes a password with a fresh random salt of 32 bytes. The result
/// verifies against the password.
pub fn hash_password(password: &[u8]) -> (r: String)
    requires
        password@.len() <= u32::MAX,
    ensures
        exists|salt: Seq<u8>|
            salt.len() == 32 && r@ == argon2_encoded(password@, salt) && records_salt(r@, salt),
        password_matches(r@, password@),
{
    let salt = random_salt();
    let h = hash_password_with_salt(password, &salt);
    assert(salt@.len() == 32);
    h
}

/// Checks a password against an encoded hash; fails closed, so a malformed
/// hash gives `false`.
pub fn verify_password(hash: &str, password: &[u8]) -> (r: bool)
    ensures
        r == password_matches(hash@, password@),
{
    match argon2_verify(hash, password) {
        Some(v) => v,
        None => false,
    }
}

/// Two hashes of one password made with different salts differ; each
/// verifies against the password.
pub proof fn lemma_salts_separate_hashes(p: Seq<u8>, h1: Seq<char>, s1: Seq<u8>, h2: Seq<char>, s2: Seq<u8>)
    requires
        valid_salt(s1),
        valid_salt(s2),
        s1 != s2,
        h1 == argon2_encoded(p, s1),
        records_salt(h1, s1),
        h2 == argon2_encoded(p, s2),
        records_salt(h2, s2),
        password_matches(h1, p),
        password_matches(h2, p),
    ensures
        h1 != h2,
        password_matches(h1, p) && password_matches(h2, p),
{
    if h1 == h2 {
        assert(argon2_encoded(p, s2) == h1);
    }
}

} // verus!

//! The claims text sealed inside a session token:
//! `{"account_id":A,"nbf":N,"exp":E}`, each number in decimal.

use vstd::prelude::*;
use crate::decimal::{
    int_at, int_text, is_digit, lemma_digits_shape, lemma_int_at_unique, magnitude, parse_int_at,
    push_int,
};
use crate::types::{AccountId, Session};

verus! {

/// `{"account_id":`
pub open spec fn account_key() -> Seq<u8> {
    seq![123u8, 34, 97, 99, 99, 111, 117, 110, 116, 95, 105, 100, 34, 58]
}

/// `,"nbf":`
pub open spec fn nbf_key() -> Seq<u8> {
    seq![44u8, 34, 110, 98, 102, 34, 58]
}

/// `,"exp":`
pub open spec fn exp_key() -> Seq<u8> {
    seq![44u8, 34, 101, 120, 112, 34, 58]
}

/// The claims text of a session.
pub open spec fn claims_text(s: Session) -> Seq<u8> {
    account_key() + int_text(s.account_id.0 as int) + nbf_key() + int_text(s.nbf as int)
        + exp_key() + int_text(s.exp as int) + seq![125u8]
}

/// The session whose claims text `m` is, if `m` is the claims text of any.
pub open spec fn claims_of(m: Seq<u8>) -> Option<Session> {
    if exists|s: Session| claims_text(s) == m {
        Some(choose|s: Session| claims_text(s) == m)
    } else {
        None
    }
}

/// Where each number of the claims text stands.
proof fn lemma_claims_layout(s: Session)
    ensures
        int_at(claims_text(s), 14, s.account_id.0 as int),
        int_at(
            claims_text(s),
            14 + int_text(s.account_id.0 as int).len() as int + 7,
            s.nbf as int,
        ),
        int_at(
            claims_text(s),
            14 + int_text(s.account_id.0 as int).len() as int + 7 + int_text(s.nbf as int).len() as int
                + 7,
            s.exp as int,
        ),
{
    let m = claims_text(s);
    let ta = int_text(s.account_id.0 as int);
    let tn = int_text(s.nbf as int);
    let te = int_text(s.exp as int);
    let a_end: int = 14 + ta.len() as int;
    let n_end: int = a_end + 7 + tn.len() as int;
    let e_end: int = n_end + 7 + te.len() as int;
    assert(m.subrange(14, a_end) =~= ta);
    assert(m[a_end] == 44u8);
    assert(m.subrange(a_end + 7, n_end) =~= tn);
    assert(m[n_end] == 44u8);
    assert(m.subrange(n_end + 7, e_end) =~= te);
    assert(m[e_end] == 125u8);
}

/// Two sessions with the same claims text are the same session.
pub proof fn lemma_claims_injective(s1: Session, s2: Session)
    requires
        claims_text(s1) == claims_text(s2),
    ensures
        s1 == s2,
{
    lemma_claims_layout(s1);
    lemma_claims_layout(s2);
    let m = claims_text(s1);
    lemma_int_at_unique(m, 14, s1.account_id.0 as int, s2.account_id.0 as int);
    let a_end: int = 14 + int_text(s1.account_id.0 as int).len() as int + 7;
    lemma_int_at_unique(m, a_end, s1.nbf as int, s2.nbf as int);
    let n_end: int = a_end + int_text(s1.nbf as int).len() as int + 7;
    lemma_int_at_unique(m, n_end, s1.exp as int, s2.exp as int);
}

/// Reading the claims text of a session gives the session back.
pub proof fn lemma_claims_round_trip(s: Session)
    ensures
        claims_of(claims_text(s)) == Some(s),
{
    let m = claims_text(s);
    assert(exists|x: Session| claims_text(x) == m);
    let c = choose|x: Session| claims_text(x) == m;
    lemma_claims_injective(c, s);
}

/// Claims text is ASCII.
pub proof fn lemma_claims_ascii(s: Session)
    ensures
        forall|i: int| 0 <= i < claims_text(s).len() ==> #[trigger] claims_text(s)[i] < 128,
{
    let ta = int_text(s.account_id.0 as int);
    let tn = int_text(s.nbf as int);
    let te = int_text(s.exp as int);
    lemma_text_ascii(s.account_id.0 as int);
    lemma_text_ascii(s.nbf as int);
    lemma_text_ascii(s.exp as int);
    let m = claims_text(s);
    assert forall|i: int| 0 <= i < m.len() implies #[trigger] m[i] < 128 by {
        let a_end: int = 14 + ta.len() as int;
        let n_end: int = a_end + 7 + tn.len() as int;
        let e_end: int = n_end + 7 + te.len() as int;
        if i < 14 {
        } else if i < a_end {
            assert(m[i] == ta[i - 14]);
        } else if i < a_end + 7 {
        } else if i < n_end {
            assert(m[i] == tn[i - a_end - 7]);
        } else if i < n_end + 7 {
        } else if i < e_end {
            assert(m[i] == te[i - n_end - 7]);
        }
    }
}

proof fn lemma_text_ascii(v: int)
    ensures
        forall|i: int| 0 <= i < int_text(v).len() ==> #[trigger] int_text(v)[i] < 128,
{
    lemma_digits_shape(magnitude(v));
    let t = int_text(v);
    assert forall|i: int| 0 <= i < t.len() implies #[trigger] t[i] < 128 by {
        if v < 0 {
            if i > 0 {
                assert(is_digit(t[i]));
            }
        } else {
            assert(is_digit(t[i]));
        }
    }
}

fn push_bytes(out: &mut Vec<u8>, lit: &[u8])
    ensures
        final(out)@ == old(out)@ + lit@,
{
    let mut i: usize = 0;
    while i < lit.len()
        invariant
            i <= lit@.len(),
            out@ == old(out)@ + lit@.take(i as int),
        decreases lit@.len() - i,
    {
        out.push(lit[i]);
        assert(lit@.take(i + 1) =~= lit@.take(i as int).push(lit@[i as int]));
        i = i + 1;
    }
    assert(lit@.take(i as int) =~= lit@);
}

/// Writes the claims text of a session.
pub fn encode_claims(s: &Session) -> (r: Vec<u8>)
    ensures
        r@ == claims_text(*s),
{
    let account: [u8; 14] = [123, 34, 97, 99, 99, 111, 117, 110, 116, 95, 105, 100, 34, 58];
    let nbf: [u8; 7] = [44, 34, 110, 98, 102, 34, 58];
    let exp: [u8; 7] = [44, 34, 101, 120, 112, 34, 58];
    let close: [u8; 1] = [125];
    assert(account@ == account_key());
    assert(nbf@ == nbf_key());
    assert(exp@ == exp_key());
    assert(close@ == seq![125u8]);
    let mut out: Vec<u8> = Vec::new();
    push_bytes(&mut out, &account);
    push_int(&mut out, s.account_id.0 as i64);
    push_bytes(&mut out, &nbf);
    push_int(&mut out, s.nbf);
    push_bytes(&mut out, &exp);
    push_int(&mut out, s.exp);
    push_bytes(&mut out, &close);
    assert(out@ =~= claims_text(*s));
    out
}

pub(crate) fn bytes_equal(a: &[u8], b: &[u8]) -> (r: bool)
    ensures
        r == (a@ == b@),
{
    if a.len() != b.len() {
        return false;
    }
    let mut i: usize = 0;
    while i < a.len()
        invariant
            a@.len() == b@.len(),
            i <= a@.len(),
            forall|k: int| 0 <= k < i ==> a@[k] == b@[k],
        decreases a@.len() - i,
    {
        if a[i] != b[i] {
            return false;
        }
        i = i + 1;
    }
    assert(a@ =~= b@);
    true
}

/// Reads claims text back into a session: the result is the session whose
/// claims text `m` is, and `None` where `m` is the claims text of none.
pub fn decode_claims(m: &[u8]) -> (r: Option<Session>)
    ensures
        r == claims_of(m@),
{
    let first = parse_int_at(m, 14);
    let (a, a_end) = match first {
        Some(x) => x,
        None => {
            proof {
                assert forall|s: Session| claims_text(s) != m@ by {
                    lemma_claims_layout(s);
                }
            }
            return None;
        },
    };
    if a < i32::MIN as i64 || a > i32::MAX as i64 || a_end > m.len() || m.len() - a_end < 7 {
        proof {
            assert forall|s: Session| claims_text(s) != m@ by {
                lemma_claims_layout(s);
                if claims_text(s) == m@ {
                    assert(int_at(m@, 14, s.account_id.0 as int));
                }
            }
        }
        return None;
    }
    let second = parse_int_at(m, a_end + 7);
    let (n, n_end) = match second {
        Some(x) => x,
        None => {
            proof {
                assert forall|s: Session| claims_text(s) != m@ by {
                    lemma_claims_layout(s);
                    if claims_text(s) == m@ {
                        assert(int_at(m@, 14, s.account_id.0 as int));
                    }
                }
            }
            return None;
        },
    };
    if n_end > m.len() || m.len() - n_end < 7 {
        proof {
            assert forall|s: Session| claims_text(s) != m@ by {
                lemma_claims_layout(s);
                if claims_text(s) == m@ {
                    assert(int_at(m@, 14, s.account_id.0 as int));
                }
            }
        }
        return None;
    }
    let third = parse_int_at(m, n_end + 7);
    let (e, _e_end) = match third {
        Some(x) => x,
        None => {
            proof {
                assert forall|s: Session| claims_text(s) != m@ by {
                    lemma_claims_layout(s);
                    if claims_text(s) == m@ {
                        assert(int_at(m@, 14, s.account_id.0 as int));
                    }
                }
            }
            return None;
        },
    };
    let candidate = Session { exp: e, account_id: AccountId(a as i32), nbf: n };
    proof {
        assert forall|s: Session| claims_text(s) == m@ implies s == candidate by {
            lemma_claims_layout(s);
            assert(int_at(m@, 14, s.account_id.0 as int));
        }
    }
    let text = encode_claims(&candidate);
    if bytes_equal(&text, m) {
        Some(candidate)
    } else {
        None
    }
}

} // verus!

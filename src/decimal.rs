//! Decimal text of signed integers, written and read back byte by byte.

use vstd::prelude::*;

verus! {

/// The ASCII digit for a value below ten.
pub open spec fn digit_byte(d: nat) -> u8 {
    (d + 48) as u8
}

pub open spec fn is_digit(b: u8) -> bool {
    48 <= b <= 57
}

/// Decimal digits of `n`, most significant first, without leading zeros.
pub open spec fn digits_of(n: nat) -> Seq<u8>
    decreases n,
{
    if n < 10 {
        seq![digit_byte(n)]
    } else {
        digits_of(n / 10).push(digit_byte(n % 10))
    }
}

/// The number that a run of decimal digits denotes.
pub open spec fn value_of(s: Seq<u8>) -> nat
    decreases s.len(),
{
    if s.len() == 0 {
        0
    } else {
        value_of(s.drop_last()) * 10 + (s.last() - 48) as nat
    }
}

/// Text of a signed integer: a minus sign for a negative value, then the
/// digits of its magnitude.
pub open spec fn int_text(v: int) -> Seq<u8> {
    if v < 0 {
        seq![45u8] + digits_of((-v) as nat)
    } else {
        digits_of(v as nat)
    }
}

/// `b` holds the text of `v` at `start`, and a byte that is no digit follows it.
pub open spec fn int_at(b: Seq<u8>, start: int, v: int) -> bool {
    let t = int_text(v);
    &&& 0 <= start
    &&& start + t.len() < b.len()
    &&& b.subrange(start, start + t.len()) == t
    &&& !is_digit(b[start + t.len()])
}

pub proof fn lemma_digits_shape(n: nat)
    ensures
        digits_of(n).len() >= 1,
        forall|i: int| 0 <= i < digits_of(n).len() ==> is_digit(#[trigger] digits_of(n)[i]),
    decreases n,
{
    if n >= 10 {
        lemma_digits_shape(n / 10);
    }
}

pub proof fn lemma_value_of_digits(n: nat)
    ensures
        value_of(digits_of(n)) == n,
    decreases n,
{
    if n < 10 {
        let s = seq![digit_byte(n)];
        assert(s.drop_last() =~= Seq::<u8>::empty());
        assert(value_of(s) == value_of(s.drop_last()) * 10 + (s.last() - 48) as nat);
    } else {
        lemma_value_of_digits(n / 10);
        let s = digits_of(n);
        assert(s.drop_last() =~= digits_of(n / 10));
        assert(s.last() == digit_byte(n % 10));
        assert(value_of(s) == value_of(s.drop_last()) * 10 + (s.last() - 48) as nat);
    }
}

/// A leading part of a run of digits denotes no more than the whole run.
proof fn lemma_value_prefix(s: Seq<u8>, k: int)
    requires
        0 <= k <= s.len(),
        forall|i: int| 0 <= i < s.len() ==> is_digit(#[trigger] s[i]),
    ensures
        value_of(s.take(k)) <= value_of(s),
    decreases s.len() - k,
{
    if k < s.len() {
        lemma_value_prefix(s, k + 1);
        assert(s.take(k + 1).drop_last() =~= s.take(k));
    } else {
        assert(s.take(k) =~= s);
    }
}

fn push_digits(out: &mut Vec<u8>, n: u64)
    ensures
        final(out)@ == old(out)@ + digits_of(n as nat),
    decreases n,
{
    if n >= 10 {
        push_digits(out, n / 10);
    }
    let d: u8 = (n % 10) as u8;
    out.push(d + 48);
    proof {
        if n >= 10 {
            assert(digits_of(n as nat) == digits_of((n / 10) as nat).push(digit_byte((n % 10) as nat)));
        }
    }
    assert(final(out)@ =~= old(out)@ + digits_of(n as nat));
}

/// Appends the decimal text of `v`.
pub fn push_int(out: &mut Vec<u8>, v: i64)
    ensures
        final(out)@ == old(out)@ + int_text(v as int),
{
    if v < 0 {
        out.push(45u8);
        let mag: u64 = ((-(v + 1)) as u64) + 1;
        push_digits(out, mag);
        assert(final(out)@ =~= old(out)@ + int_text(v as int));
    } else {
        push_digits(out, v as u64);
    }
}

/// At a given place, a byte sequence holds the text of at most one integer.
pub proof fn lemma_int_at_unique(b: Seq<u8>, start: int, v1: int, v2: int)
    requires
        int_at(b, start, v1),
        int_at(b, start, v2),
    ensures
        v1 == v2,
{
    lemma_int_at_parts(b, start, v1);
    lemma_int_at_parts(b, start, v2);
    let i0: int = if v1 < 0 { start + 1 } else { start };
    let d1 = digits_of(magnitude(v1));
    let d2 = digits_of(magnitude(v2));
    if d1.len() < d2.len() {
        assert(b[i0 + d1.len()] == d2[d1.len() as int]);
    }
    if d2.len() < d1.len() {
        assert(b[i0 + d2.len()] == d1[d2.len() as int]);
    }
    assert forall|k: int| 0 <= k < d1.len() implies d1[k] == d2[k] by {
        assert(b[i0 + k] == d1[k]);
        assert(b[i0 + k] == d2[k]);
    }
    assert(d1 =~= d2);
}

/// Reads a signed integer at `start`: an optional minus sign and the run of
/// digits that follows it. Wherever `b` holds the text of some `v` there,
/// followed by a byte that is no digit, the result is `v` and the position
/// just past its text.
/// The magnitude of a signed integer.
pub open spec fn magnitude(v: int) -> nat {
    if v < 0 {
        (-v) as nat
    } else {
        v as nat
    }
}

/// Where `b` holds the text of `v` at `start`: the sign byte tells the sign,
/// and the digits of the magnitude follow it.
proof fn lemma_int_at_parts(b: Seq<u8>, start: int, v: int)
    requires
        int_at(b, start, v),
    ensures
        (b[start] == 45u8) == (v < 0),
        digits_of(magnitude(v)).len() >= 1,
        (if v < 0 { start + 1 } else { start }) + digits_of(magnitude(v)).len() == start
            + int_text(v).len(),
        forall|k: int|
            0 <= k < digits_of(magnitude(v)).len() ==> b[(if v < 0 { start + 1 } else { start })
                + k] == #[trigger] digits_of(magnitude(v))[k],
        forall|k: int|
            0 <= k < digits_of(magnitude(v)).len() ==> is_digit(
                #[trigger] digits_of(magnitude(v))[k],
            ),
        value_of(digits_of(magnitude(v))) == magnitude(v),
{
    let t = int_text(v);
    let ds = digits_of(magnitude(v));
    lemma_digits_shape(magnitude(v));
    lemma_value_of_digits(magnitude(v));
    assert(b[start] == b.subrange(start, start + t.len())[0]);
    if v < 0 {
        assert(t[0] == 45u8);
        assert forall|k: int| 0 <= k < ds.len() implies b[start + 1 + k] == ds[k] by {
            assert(b[start + 1 + k] == b.subrange(start, start + t.len())[k + 1]);
            assert(t[k + 1] == ds[k]);
        }
    } else {
        assert(t == ds);
        assert(is_digit(ds[0]));
        assert forall|k: int| 0 <= k < ds.len() implies b[start + k] == ds[k] by {
            assert(b[start + k] == b.subrange(start, start + t.len())[k]);
        }
    }
}

/// Reads a signed integer at `start`: an optional minus sign and the run of
/// digits that follows it. Wherever `b` holds the text of some `v` there,
/// followed by a byte that is no digit, the result is `v` and the position
/// just past its text.
pub(crate) fn parse_int_at(b: &[u8], start: usize) -> (r: Option<(i64, usize)>)
    ensures
        forall|v: i64| #[trigger] int_at(b@, start as int, v as int) ==> r == Some(
            (v, (start + int_text(v as int).len()) as usize),
        ),
{
    let len = b.len();
    if start >= len {
        return None;
    }
    let neg: bool = b[start] == 45u8;
    let i0: usize = if neg {
        start + 1
    } else {
        start
    };
    let mut j: usize = i0;
    let mut acc: u64 = 0;
    while j < len && 48 <= b[j] && b[j] <= 57
        invariant
            i0 <= j <= len,
            len == b@.len(),
            i0 == (if neg { start + 1 } else { start as int }),
            neg == (b@[start as int] == 45u8),
            acc <= 9223372036854775808u64,
            acc == value_of(b@.subrange(i0 as int, j as int)),
            forall|k: int| i0 <= k < j ==> is_digit(#[trigger] b@[k]),
        decreases len - j,
    {
        let d: u8 = b[j] - 48;
        let next: u128 = (acc as u128) * 10 + (d as u128);
        assert(b@.subrange(i0 as int, j + 1).drop_last() =~= b@.subrange(i0 as int, j as int));
        if next > 9223372036854775808u128 {
            proof {
                assert forall|v: i64| !int_at(b@, start as int, v as int) by {
                    if int_at(b@, start as int, v as int) {
                        lemma_int_at_parts(b@, start as int, v as int);
                        let ds = digits_of(magnitude(v as int));
                        if j >= i0 + ds.len() {
                            assert(is_digit(b@[i0 + ds.len()]));
                        }
                        assert(b@.subrange(i0 as int, j + 1) =~= ds.take(j + 1 - i0));
                        lemma_value_prefix(ds, j + 1 - i0);
                    }
                }
            }
            return None;
        }
        acc = next as u64;
        j = j + 1;
    }
    proof {
        assert forall|v: i64| #[trigger] int_at(b@, start as int, v as int) implies j == i0
            + digits_of(magnitude(v as int)).len() && acc == magnitude(v as int) && neg == (v < 0)
            && j == start + int_text(v as int).len() by {
            lemma_int_at_parts(b@, start as int, v as int);
            let ds = digits_of(magnitude(v as int));
            if j > i0 + ds.len() {
                assert(is_digit(b@[i0 + ds.len()]));
            }
            if j < i0 + ds.len() {
                assert(b@[j as int] == ds[j - i0]);
            }
            assert(b@.subrange(i0 as int, j as int) =~= ds);
        }
    }
    if j == i0 {
        return None;
    }
    if !neg && acc > 9223372036854775807u64 {
        return None;
    }
    let val: i64 = if neg {
        if acc == 9223372036854775808u64 {
            i64::MIN
        } else {
            -(acc as i64)
        }
    } else {
        acc as i64
    };
    assert forall|v: i64| #[trigger] int_at(b@, start as int, v as int) implies val == v by {
        assert(acc == magnitude(v as int) && neg == (v < 0));
    }
    Some((val, j))
}

} // verus!

//! Decimal ASCII text of unsigned 64-bit integers, as stored under the
//! per-path hash keys of the broker.
use vstd::prelude::*;

verus! {

/// The shortest decimal ASCII text of `n`.
pub open spec fn decimal_digits(n: nat) -> Seq<u8>
    decreases n,
{
    if n < 10 {
        seq![(48 + n) as u8]
    } else {
        decimal_digits(n / 10) + seq![(48 + n % 10) as u8]
    }
}

pub open spec fn is_digit(c: u8) -> bool {
    48 <= c <= 57
}

pub open spec fn all_digits(b: Seq<u8>) -> bool {
    forall|i: int| 0 <= i < b.len() ==> is_digit(#[trigger] b[i])
}

/// The number written by a run of decimal digits (most significant first).
pub open spec fn digits_value(b: Seq<u8>) -> nat
    decreases b.len(),
{
    if b.len() == 0 {
        0
    } else {
        digits_value(b.drop_last()) * 10 + (b.last() - 48) as nat
    }
}

/// The digits that follow an optional leading `+`.
pub open spec fn unsigned_part(b: Seq<u8>) -> Seq<u8> {
    if b.len() > 0 && b[0] == 43 {
        b.subrange(1, b.len() as int)
    } else {
        b
    }
}

/// The value of `b` read as an unsigned 64-bit decimal: an optional `+`,
/// then one or more digits, of a value that fits in 64 bits.
pub open spec fn parsed_decimal(b: Seq<u8>) -> Option<u64> {
    let d = unsigned_part(b);
    if d.len() > 0 && all_digits(d) && digits_value(d) <= u64::MAX {
        Some(digits_value(d) as u64)
    } else {
        None
    }
}

proof fn lemma_decimal_digits_shape(n: nat)
    ensures
        decimal_digits(n).len() > 0,
        all_digits(decimal_digits(n)),
        decimal_digits(n)[0] != 43,
        digits_value(decimal_digits(n)) == n,
    decreases n,
{
    let d = decimal_digits(n);
    if n >= 10 {
        lemma_decimal_digits_shape(n / 10);
        assert(d.drop_last() =~= decimal_digits(n / 10));
        assert(d.last() == (48 + n % 10) as u8);
        assert(digits_value(d) == digits_value(d.drop_last()) * 10 + (d.last() - 48) as nat);
        assert((n / 10) * 10 + n % 10 == n);
    } else {
        assert(d.drop_last() =~= Seq::<u8>::empty());
        assert(digits_value(d) == digits_value(d.drop_last()) * 10 + (d.last() - 48) as nat);
    }
}

/// Reading back the decimal text of a number gives that number.
pub proof fn lemma_decimal_round_trip(n: u64)
    ensures
        parsed_decimal(decimal_digits(n as nat)) == Some(n),
{
    lemma_decimal_digits_shape(n as nat);
}

proof fn lemma_digits_value_prefix_monotone(b: Seq<u8>, i: int)
    requires
        0 <= i <= b.len(),
        all_digits(b),
    ensures
        digits_value(b.subrange(0, i)) <= digits_value(b),
    decreases b.len() - i,
{
    if i < b.len() {
        lemma_digits_value_prefix_monotone(b, i + 1);
        let p = b.subrange(0, i + 1);
        assert(p.drop_last() =~= b.subrange(0, i));
        assert(is_digit(b[i]));
    } else {
        assert(b.subrange(0, i) =~= b);
    }
}

fn push_decimal(out: &mut Vec<u8>, n: u64)
    ensures
        final(out)@ == old(out)@ + decimal_digits(n as nat),
    decreases n,
{
    if n >= 10 {
        push_decimal(out, n / 10);
    }
    out.push((48 + n % 10) as u8);
    proof {
        assert(final(out)@ =~= old(out)@ + decimal_digits(n as nat));
    }
}

/// The decimal ASCII text of `n`, without sign or leading zeros.
pub fn format_decimal(n: u64) -> (r: Vec<u8>)
    ensures
        r@ == decimal_digits(n as nat),
{
    let mut out: Vec<u8> = Vec::new();
    push_decimal(&mut out, n);
    proof {
        assert(out@ =~= decimal_digits(n as nat));
    }
    out
}

/// Reads `b` as an unsigned 64-bit decimal: an optional `+`, then one or
/// more ASCII digits whose value fits in 64 bits; anything else is `None`.
pub fn parse_decimal(b: &[u8]) -> (r: Option<u64>)
    ensures
        r == parsed_decimal(b@),
{
    let len = b.len();
    let start: usize = if len > 0 && b[0] == 43 { 1 } else { 0 };
    let ghost d = unsigned_part(b@);
    assert(d =~= b@.subrange(start as int, len as int));
    if start == len {
        assert(d.len() == 0);
        return None;
    }
    let mut i: usize = start;
    while i < len
        invariant
            start <= i <= len,
            len == b@.len(),
            d == unsigned_part(b@),
            d =~= b@.subrange(start as int, len as int),
            forall|k: int| start <= k < i ==> is_digit(#[trigger] b@[k]),
        decreases len - i,
    {
        if b[i] < 48 || b[i] > 57 {
            assert(d[i - start] == b@[i as int]);
            assert(!is_digit(d[i - start]));
            assert(!all_digits(d));
            return None;
        }
        i = i + 1;
    }
    assert(all_digits(d)) by {
        assert forall|k: int| 0 <= k < d.len() implies is_digit(#[trigger] d[k]) by {
            assert(d[k] == b@[k + start]);
        }
    }
    let mut v: u64 = 0;
    let mut j: usize = start;
    while j < len
        invariant
            start <= j <= len,
            len == b@.len(),
            d == unsigned_part(b@),
            d =~= b@.subrange(start as int, len as int),
            all_digits(d),
            v as nat == digits_value(d.subrange(0, j - start)),
        decreases len - j,
    {
        assert(is_digit(d[j - start]));
        assert(d[j - start] == b@[j as int]);
        let digit = (b[j] - 48) as u64;
        let ghost p = d.subrange(0, j - start + 1);
        proof {
            assert(digits_value(p) == digits_value(p.drop_last()) * 10 + (p.last() - 48) as nat);
            assert(p.drop_last() =~= d.subrange(0, j - start));
            assert(p.last() == b@[j as int]);
            assert(is_digit(d[j - start]));
        }
        if v > (u64::MAX - digit) / 10 {
            proof {
                assert(digits_value(p) > u64::MAX) by (nonlinear_arith)
                    requires
                        digits_value(p) == v * 10 + digit,
                        v > (u64::MAX - digit) / 10,
                        digit <= 9,
                ;
                lemma_digits_value_prefix_monotone(d, j - start + 1);
                assert(digits_value(d) > u64::MAX);
                assert(parsed_decimal(b@).is_none());
            }
            return None;
        }
        proof {
            assert(v * 10 + digit <= u64::MAX) by (nonlinear_arith)
                requires
                    v <= (u64::MAX - digit) / 10,
                    digit <= 9,
            ;
        }
        v = v * 10 + digit;
        j = j + 1;
    }
    assert(d.subrange(0, d.len() as int) =~= d);
    Some(v)
}

} // verus!

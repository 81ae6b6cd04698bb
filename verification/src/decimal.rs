//! Decimal numbers as the wire writes them: ASCII digits, with a sign in front
//! where the number is signed.

use vstd::prelude::*;

verus! {

/// Whether `b` is an ASCII digit.
pub open spec fn is_digit(b: u8) -> bool {
    48 <= b <= 57
}

/// Whether every byte of `s` is an ASCII digit.
pub open spec fn all_digits(s: Seq<u8>) -> bool {
    forall|i: int| 0 <= i < s.len() ==> is_digit(#[trigger] s[i])
}

/// The number that the digits `s` write, the empty sequence writing zero.
pub open spec fn digits_value(s: Seq<u8>) -> nat
    decreases s.len(),
{
    if s.len() == 0 {
        0
    } else {
        (digits_value(s.drop_last()) * 10 + (s.last() - 48)) as nat
    }
}

/// The number that `s` writes without a sign: `s` is one digit or more.
pub open spec fn unsigned_value(s: Seq<u8>) -> Option<nat> {
    if s.len() > 0 && all_digits(s) {
        Some(digits_value(s))
    } else {
        None
    }
}

/// The number that `s` writes: digits, with `-` or `+` in front or neither.
pub open spec fn signed_value(s: Seq<u8>) -> Option<int> {
    if s.len() > 0 && s[0] == 45 {
        match unsigned_value(s.skip(1)) {
            Some(v) => Some(-(v as int)),
            None => None,
        }
    } else if s.len() > 0 && s[0] == 43 {
        match unsigned_value(s.skip(1)) {
            Some(v) => Some(v as int),
            None => None,
        }
    } else {
        match unsigned_value(s) {
            Some(v) => Some(v as int),
            None => None,
        }
    }
}

/// What `s` reads as where a `u64` is expected.
pub open spec fn spec_parse_u64(s: Seq<u8>) -> Option<u64> {
    match unsigned_value(s) {
        Some(v) => if v <= u64::MAX {
            Some(v as u64)
        } else {
            None
        },
        None => None,
    }
}

/// What `s` reads as where an `i64` is expected.
pub open spec fn spec_parse_i64(s: Seq<u8>) -> Option<i64> {
    match signed_value(s) {
        Some(v) => if i64::MIN <= v <= i64::MAX {
            Some(v as i64)
        } else {
            None
        },
        None => None,
    }
}

/// The digits of `n`, without leading zeros.
pub open spec fn digits_of(n: nat) -> Seq<u8>
    decreases n,
{
    if n < 10 {
        seq![(48 + n) as u8]
    } else {
        digits_of(n / 10).push((48 + n % 10) as u8)
    }
}

/// How `n` is written: its digits, after a `-` where it is negative.
pub open spec fn decimal(n: int) -> Seq<u8> {
    if n < 0 {
        seq![45u8] + digits_of((-n) as nat)
    } else {
        digits_of(n as nat)
    }
}

/// A longer run of digits does not write a smaller number than its prefix.
pub proof fn lemma_digits_value_grows(s: Seq<u8>, k: int)
    requires
        all_digits(s),
        0 <= k <= s.len(),
    ensures
        digits_value(s.take(k)) <= digits_value(s),
    decreases s.len() - k,
{
    if k < s.len() {
        lemma_digits_value_grows(s, k + 1);
        assert(s.take(k + 1).drop_last() =~= s.take(k));
        assert(is_digit(s[k]));
        assert(s.take(k + 1).last() == s[k]);
    } else {
        assert(s.take(k) =~= s);
    }
}

/// The digits of a number are digits, and they write that number.
pub proof fn lemma_digits_of(n: nat)
    ensures
        digits_of(n).len() >= 1,
        all_digits(digits_of(n)),
        digits_value(digits_of(n)) == n,
        unsigned_value(digits_of(n)) == Some(n),
    decreases n,
{
    if n < 10 {
        let s = digits_of(n);
        assert(s.drop_last() =~= Seq::<u8>::empty());
        assert(digits_value(s.drop_last()) == 0);
    } else {
        lemma_digits_of(n / 10);
        let s = digits_of(n);
        assert(s.drop_last() =~= digits_of(n / 10));
        assert(s.last() == (48 + n % 10) as u8);
    }
}

/// A number that is written and read again is the same number.
pub proof fn lemma_decimal_round_trip(n: int)
    ensures
        signed_value(decimal(n)) == Some(n),
        decimal(n).len() >= 1,
        n >= 0 ==> unsigned_value(decimal(n)) == Some(n as nat),
{
    if n < 0 {
        lemma_digits_of((-n) as nat);
        assert(decimal(n).skip(1) =~= digits_of((-n) as nat));
    } else {
        lemma_digits_of(n as nat);
        let s = digits_of(n as nat);
        assert(is_digit(s[0]));
    }
}

/// Reads the digits of `s` from `from` on as a `u64`.
pub fn parse_digits(s: &[u8], from: usize) -> (r: Option<u64>)
    requires
        from <= s.len(),
    ensures
        r == spec_parse_u64(s@.skip(from as int)),
{
    let ghost digits = s@.skip(from as int);
    if from == s.len() {
        return None;
    }
    let mut value: u64 = 0;
    let mut i: usize = from;
    while i < s.len()
        invariant
            from <= i <= s.len(),
            digits == s@.skip(from as int),
            all_digits(digits.take(i - from)),
            value == digits_value(digits.take(i - from)),
        decreases s.len() - i,
    {
        let b = s[i];
        proof {
            assert(digits[i - from] == b);
            assert(digits.take(i - from + 1).drop_last() =~= digits.take(i - from));
            assert(digits.take(i - from + 1).last() == b);
        }
        if b < 48 || b > 57 {
            assert(!is_digit(digits[i - from]));
            return None;
        }
        let d: u64 = (b - 48) as u64;
        if value > (u64::MAX - d) / 10 {
            proof {
                if all_digits(digits) {
                    lemma_digits_value_grows(digits, i - from + 1);
                }
            }
            return None;
        }
        value = value * 10 + d;
        i = i + 1;
        proof {
            assert forall|j: int| 0 <= j < digits.take(i - from).len() implies is_digit(
                #[trigger] digits.take(i - from)[j],
            ) by {
                if j < i - from - 1 {
                    assert(digits.take(i - from - 1)[j] == digits.take(i - from)[j]);
                }
            }
        }
    }
    proof {
        assert(digits.take(i - from) =~= digits);
    }
    Some(value)
}

/// Reads `s` as a `u64`: one digit or more, and nothing else.
pub fn parse_u64(s: &[u8]) -> (r: Option<u64>)
    ensures
        r == spec_parse_u64(s@),
{
    proof {
        assert(s@.skip(0) =~= s@);
    }
    parse_digits(s, 0)
}

/// Reads `s` as an `i64`: digits, with `-` or `+` in front or neither.
pub fn parse_i64(s: &[u8]) -> (r: Option<i64>)
    ensures
        r == spec_parse_i64(s@),
{
    if s.len() > 0 && s[0] == 45 {
        match parse_digits(s, 1) {
            Some(v) => {
                if v <= 0x7fff_ffff_ffff_ffff {
                    Some(-(v as i64))
                } else if v == 0x8000_0000_0000_0000 {
                    Some(i64::MIN)
                } else {
                    None
                }
            },
            None => None,
        }
    } else if s.len() > 0 && s[0] == 43 {
        match parse_digits(s, 1) {
            Some(v) => if v <= 0x7fff_ffff_ffff_ffff {
                Some(v as i64)
            } else {
                None
            },
            None => None,
        }
    } else {
        proof {
            assert(s@.skip(0) =~= s@);
        }
        match parse_digits(s, 0) {
            Some(v) => if v <= 0x7fff_ffff_ffff_ffff {
                Some(v as i64)
            } else {
                None
            },
            None => None,
        }
    }
}

/// Appends the digits of `n` to `buf`.
pub fn push_u64(buf: &mut Vec<u8>, n: u64)
    ensures
        final(buf)@ == old(buf)@ + digits_of(n as nat),
    decreases n,
{
    if n >= 10 {
        push_u64(buf, n / 10);
    }
    buf.push(48 + (n % 10) as u8);
    proof {
        if n < 10 {
            assert(buf@ =~= old(buf)@ + digits_of(n as nat));
        } else {
            assert(buf@ =~= old(buf)@ + digits_of(n as nat));
        }
    }
}

/// Appends `n` to `buf` as it is written.
pub fn push_i64(buf: &mut Vec<u8>, n: i64)
    ensures
        final(buf)@ == old(buf)@ + decimal(n as int),
{
    if n < 0 {
        buf.push(45);
        let magnitude: u64 = if n == i64::MIN {
            0x8000_0000_0000_0000
        } else {
            (-n) as u64
        };
        push_u64(buf, magnitude);
        assert(buf@ =~= old(buf)@ + decimal(n as int));
    } else {
        push_u64(buf, n as u64);
    }
}

} // verus!

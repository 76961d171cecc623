//! Protocol constants, the clock, and the reading of decimal amounts.
use vstd::prelude::*;
use crate::errors::{ErrorKind, Result};
use crate::text::str_chars;
use crate::bignum::{BigNum, bigint_from_str, bigint_from_be_bytes, bigint_to_decimal, be_value, spec_parse_bigint};
use crate::encoding::{decimal_digits, digit_char, spec_decimal};
use crate::bignum::{radix10_value, spec_parse_biguint};

verus! {

/// Version written into the transactions this library composes.
#[allow(non_upper_case_globals)]
pub const TXVersion: i32 = 1;

/// `c` is one of the ASCII digits `0` to `9`.
pub open spec fn is_ascii_digit(c: char) -> bool {
    48 <= (c as u32) && (c as u32) <= 57
}

/// Every character of `s` is an ASCII digit.
pub open spec fn all_digits(s: Seq<char>) -> bool {
    forall|i: int| 0 <= i < s.len() ==> #[trigger] is_ascii_digit(s[i])
}

/// The value of a string of ASCII digits, read as a decimal number.
pub open spec fn digits_value(s: Seq<char>) -> nat
    decreases s.len(),
{
    if s.len() == 0 {
        0
    } else {
        digits_value(s.drop_last()) * 10 + ((s.last() as u32) - 48) as nat
    }
}

/// The text after an optional leading `+` or `-`.
pub open spec fn unsigned_part(s: Seq<char>) -> Seq<char> {
    if s.len() > 0 && (s[0] == '-' || s[0] == '+') {
        s.drop_first()
    } else {
        s
    }
}

/// How `str::parse::<i64>` reads a text: an optional `+` or `-`, then one or
/// more ASCII digits, whose value must lie in the range of `i64`.
pub open spec fn spec_parse_i64(s: Seq<char>) -> Option<i64> {
    let neg = s.len() > 0 && s[0] == '-';
    let body = unsigned_part(s);
    if body.len() == 0 || !all_digits(body) {
        None
    } else {
        let v: int = if neg { -(digits_value(body) as int) } else { digits_value(body) as int };
        if i64::MIN <= v <= i64::MAX {
            Some(v as i64)
        } else {
            None
        }
    }
}

proof fn lemma_digits_value_step(s: Seq<char>, k: int)
    requires
        0 <= k < s.len(),
    ensures
        digits_value(s.take(k + 1)) == digits_value(s.take(k)) * 10 + ((s[k] as u32) - 48) as nat,
{
    assert(s.take(k + 1).drop_last() =~= s.take(k));
}

/// Reads a decimal `i64` exactly as `str::parse::<i64>` does; `None` where
/// that reports an error.
pub fn parse_i64(s: &str) -> (r: Option<i64>)
    ensures
        r == spec_parse_i64(s@),
{
    let cs = str_chars(s);
    let n = cs.len();
    let mut start: usize = 0;
    let mut neg = false;
    if n > 0 && cs[0] == '-' {
        start = 1;
        neg = true;
    } else if n > 0 && cs[0] == '+' {
        start = 1;
    }
    let ghost body = unsigned_part(s@);
    assert(body =~= cs@.subrange(start as int, n as int));
    if start == n {
        return None;
    }
    // `acc` holds the value read so far, capped just above 2^63.
    let cap: u128 = 0x8000_0000_0000_0000;
    let mut acc: u128 = 0;
    let mut i: usize = start;
    assert(body.take(0) =~= Seq::<char>::empty());
    while i < n
        invariant
            start <= i <= n,
            n == cs@.len(),
            cs@ == s@,
            body == cs@.subrange(start as int, n as int),
            body == unsigned_part(s@),
            neg == (s@.len() > 0 && s@[0] == '-'),
            cap == 0x8000_0000_0000_0000u128,
            all_digits(body.take(i - start)),
            acc == if digits_value(body.take(i - start)) <= cap {
                digits_value(body.take(i - start)) as int
            } else {
                cap + 1
            },
        decreases n - i,
    {
        let c = cs[i];
        let code = c as u32;
        if code < 48 || code > 57 {
            assert(!is_ascii_digit(body[i - start]));
            return None;
        }
        let d = (code - 48) as u128;
        proof {
            lemma_digits_value_step(body, i - start);
        }
        if acc > cap {
            acc = cap + 1;
        } else {
            let t = acc * 10 + d;
            if t > cap {
                acc = cap + 1;
            } else {
                acc = t;
            }
        }
        proof {
            let k = i - start;
            assert forall|j: int| 0 <= j < k + 1 implies #[trigger] is_ascii_digit(body.take(k + 1)[j]) by {
                if j < k {
                    assert(body.take(k + 1)[j] == body.take(k)[j]);
                }
            }
        }
        i = i + 1;
    }
    assert(body.take(n - start) =~= body);
    if neg {
        if acc <= cap {
            let v: i128 = -(acc as i128);
            Some(v as i64)
        } else {
            None
        }
    } else {
        if acc < cap {
            Some(acc as i64)
        } else {
            None
        }
    }
}

/// Reads a non-negative decimal `i64`: `ParseError` where `str::parse::<i64>`
/// fails, `InvalidArguments` for a negative number.
pub fn str_as_i64(s: &str) -> (r: Result<i64>)
    ensures
        match spec_parse_i64(s@) {
            None => r == Err::<i64, ErrorKind>(ErrorKind::ParseError),
            Some(v) => if v < 0 {
                r == Err::<i64, ErrorKind>(ErrorKind::InvalidArguments)
            } else {
                r == Ok::<i64, ErrorKind>(v)
            },
        },
{
    match parse_i64(s) {
        None => Err(ErrorKind::ParseError),
        Some(i) => {
            if i < 0 {
                Err(ErrorKind::InvalidArguments)
            } else {
                Ok(i)
            }
        },
    }
}


/// `SystemTime::now().duration_since(UNIX_EPOCH)` from std, as whole seconds
/// and the nanoseconds of the second begun (below one billion, as std
/// documents for a `Duration`). `None` where std reports that the clock reads
/// earlier than the epoch. What it returns depends on the clock, so nothing
/// more is stated.
#[verifier::external_body]
fn unix_time() -> (r: Option<(u64, u32)>)
    ensures
        r matches Some((secs, nanos)) ==> nanos < 1_000_000_000,
{
    match std::time::SystemTime::now().duration_since(std::time::UNIX_EPOCH) {
        Ok(d) => Some((d.as_secs(), d.subsec_nanos())),
        Err(_) => None,
    }
}

/// The nanoseconds of an instant `secs` seconds and `nanos` nanoseconds after
/// the epoch, cut to an `i64` as an `as` cast does.
pub open spec fn spec_epoch_nanos(secs: u64, nanos: u32) -> i64 {
    (secs as int * 1_000_000_000 + nanos as int) as i64
}

/// The nanoseconds of an instant `secs` seconds and `nanos` nanoseconds after
/// the epoch, cut to an `i64` as an `as` cast does.
pub fn epoch_nanos_as_i64(secs: u64, nanos: u32) -> (r: i64)
    ensures
        r == spec_epoch_nanos(secs, nanos),
{
    let total: u128 = (secs as u128) * 1_000_000_000u128 + (nanos as u128);
    #[verifier::truncate]
    (total as i64)
}

/// The whole seconds of an instant `secs` seconds after the epoch, cut to an
/// `i64` as an `as` cast does.
pub fn epoch_secs_as_i64(secs: u64) -> (r: i64)
    ensures
        r == secs as i64,
{
    #[verifier::truncate]
    (secs as i64)
}

/// Nanoseconds since the Unix epoch, by the system clock; `None` while the
/// clock reads earlier than the epoch.
pub fn now_as_nanos() -> (r: Option<i64>)
    ensures
        r matches Some(v) ==> exists|secs: u64, nanos: u32|
            nanos < 1_000_000_000 && v == #[trigger] spec_epoch_nanos(secs, nanos),
{
    match unix_time() {
        Some((secs, nanos)) => Some(epoch_nanos_as_i64(secs, nanos)),
        None => None,
    }
}

/// Whole seconds since the Unix epoch, by the system clock; `None` while the
/// clock reads earlier than the epoch.
pub fn now_as_secs() -> (r: Option<i64>)
    ensures
        r matches Some(v) ==> exists|secs: u64| v == #[trigger] (secs as i64),
{
    match unix_time() {
        Some((secs, _nanos)) => Some(epoch_secs_as_i64(secs)),
        None => None,
    }
}


/// The amount a text stands for: zero for the empty text and for `0`,
/// otherwise what `BigInt::from_str` reads.
pub open spec fn spec_str_as_bigint(s: Seq<char>) -> Option<int> {
    if s.len() == 0 || s == seq!['0'] {
        Some(0)
    } else {
        spec_parse_bigint(s)
    }
}

/// Reads an amount of any size; `ParseError` where `BigInt::from_str` fails.
pub fn str_as_bigint(s: &str) -> (r: Result<BigNum>)
    ensures
        match spec_str_as_bigint(s@) {
            None => r == Err::<BigNum, ErrorKind>(ErrorKind::ParseError),
            Some(v) => r matches Ok(b) && b.wf() && b.value() == v,
        },
{
    let cs = str_chars(s);
    if cs.len() == 0 || (cs.len() == 1 && cs[0] == '0') {
        assert(cs@.len() == 0 || cs@ =~= seq!['0']);
        return Ok(BigNum::zero());
    }
    assert(!(s@ =~= seq!['0']));
    match bigint_from_str(s) {
        Some(b) => Ok(b),
        None => Err(ErrorKind::ParseError),
    }
}

/// Decimal text of the non-negative number whose big-endian bytes are given
/// (what is shown for an amount field).
pub fn bytes_num_decimal(s: &[u8]) -> (r: String)
    ensures
        r@ == spec_decimal(be_value(s@) as int),
{
    let b = bigint_from_be_bytes(s);
    bigint_to_decimal(&b)
}


/// The decimal digits of a number are ASCII digits whose value is the number.
pub proof fn lemma_decimal_digits(n: nat)
    ensures
        decimal_digits(n).len() >= 1,
        all_digits(decimal_digits(n)),
        digits_value(decimal_digits(n)) == n,
        radix10_value(decimal_digits(n)) == Some(n),
    decreases n,
{
    let d = decimal_digits(n);
    if n >= 10 {
        lemma_decimal_digits(n / 10);
        let p = decimal_digits(n / 10);
        assert(d.drop_last() =~= p);
        assert forall|i: int| 0 <= i < d.len() implies #[trigger] is_ascii_digit(d[i]) by {
            if i < p.len() {
                assert(d[i] == p[i]);
            }
        }
    }
    assert(d.last() == digit_char(n % 10));
    assert(((d.last() as u32) - 48) as nat == n % 10);
    assert(d.last() != '_');
    assert(is_ascii_digit(d.last()));
    if n < 10 {
        assert(d.drop_last() =~= Seq::<char>::empty());
        assert(digits_value(d.drop_last()) == 0);
        assert(radix10_value(d.drop_last()) == Some(0nat));
    } else {
        assert(n == (n / 10) * 10 + n % 10);
    }
}

/// `str::parse::<i64>` reads back the decimal text of any `i64`.
pub proof fn lemma_parse_i64_decimal(n: i64)
    ensures
        spec_parse_i64(spec_decimal(n as int)) == Some(n),
{
    let s = spec_decimal(n as int);
    if n < 0 {
        let m = (-(n as int)) as nat;
        lemma_decimal_digits(m);
        assert(s.drop_first() =~= decimal_digits(m));
        assert(unsigned_part(s) =~= decimal_digits(m));
    } else {
        lemma_decimal_digits(n as nat);
        let d = decimal_digits(n as nat);
        assert(is_ascii_digit(d[0]));
        assert(unsigned_part(s) == d);
    }
}

/// Reading back the decimal text of any integer as an amount gives it.
pub proof fn lemma_str_as_bigint_decimal(n: int)
    ensures
        spec_str_as_bigint(spec_decimal(n)) == Some(n),
{
    let s = spec_decimal(n);
    if n < 0 {
        let m = (-n) as nat;
        lemma_decimal_digits(m);
        let d = decimal_digits(m);
        assert(s.drop_first() =~= d);
        assert(s[0] == '-');
        assert(s[1] == d[0]);
        assert(is_ascii_digit(d[0]));
        assert(spec_parse_biguint(d) == Some(m));
        assert(spec_parse_bigint(s) == Some(n));
        assert(s.len() > 1);
    } else {
        lemma_decimal_digits(n as nat);
        let d = decimal_digits(n as nat);
        assert(s == d);
        assert(is_ascii_digit(d[0]));
        assert(spec_parse_biguint(d) == Some(n as nat));
        assert(spec_parse_bigint(s) == Some(n));
        if s == seq!['0'] {
            assert(s.len() == 1);
            assert(s.last() == '0');
            assert(s.drop_last() =~= Seq::<char>::empty());
            assert(digits_value(s.drop_last()) == 0);
            assert(digits_value(s) == 0);
        }
    }
}

}

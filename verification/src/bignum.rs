//! Arbitrary-precision amounts, held as a sign and big-endian magnitude bytes,
//! with the arithmetic done by `num_bigint`.
use vstd::prelude::*;
use crate::consts::is_ascii_digit;
use crate::encoding::spec_decimal;

verus! {

/// The value of big-endian bytes.
pub open spec fn be_value(s: Seq<u8>) -> nat
    decreases s.len(),
{
    if s.len() == 0 {
        0
    } else {
        be_value(s.drop_last()) * 256 + s.last() as nat
    }
}

/// The shortest big-endian bytes of `n`; zero is the single byte 0
/// (what `BigUint::to_bytes_be` returns).
pub open spec fn canonical_be(n: nat) -> Seq<u8>
    decreases n,
{
    if n < 256 {
        seq![n as u8]
    } else {
        canonical_be(n / 256).push((n % 256) as u8)
    }
}

/// An integer of any size: a sign and the big-endian bytes of its magnitude,
/// as `BigInt::to_bytes_be` gives them.
#[derive(Debug, Clone, PartialEq, Eq)]
pub struct BigNum {
    pub negative: bool,
    pub magnitude: Vec<u8>,
}

impl BigNum {
    /// The number held.
    pub open spec fn value(self) -> int {
        if self.negative {
            -(be_value(self.magnitude@) as int)
        } else {
            be_value(self.magnitude@) as int
        }
    }

    /// The magnitude has no leading zero byte (zero is the single byte 0),
    /// and zero is not negative.
    pub open spec fn wf(self) -> bool {
        &&& self.magnitude@ == canonical_be(be_value(self.magnitude@))
        &&& (self.negative ==> be_value(self.magnitude@) > 0)
    }
}

/// `radix10_value(s)`: the value of a text of ASCII digits in which `_` may
/// stand anywhere and is skipped; `None` if another character occurs.
pub open spec fn radix10_value(s: Seq<char>) -> Option<nat>
    decreases s.len(),
{
    if s.len() == 0 {
        Some(0)
    } else {
        match radix10_value(s.drop_last()) {
            None => None,
            Some(v) => if s.last() == '_' {
                Some(v)
            } else if is_ascii_digit(s.last()) {
                Some(v * 10 + ((s.last() as u32) - 48) as nat)
            } else {
                None
            },
        }
    }
}

/// How `BigUint::from_str` reads a decimal text: one leading `+` is dropped
/// unless a second `+` follows; the rest must be non-empty, must not begin
/// with `_`, and is read by `radix10_value`.
pub open spec fn spec_parse_biguint(s: Seq<char>) -> Option<nat> {
    let t = if s.len() > 0 && s[0] == '+' && !(s.len() > 1 && s[1] == '+') {
        s.drop_first()
    } else {
        s
    };
    if t.len() == 0 || t[0] == '_' {
        None
    } else {
        radix10_value(t)
    }
}

/// How `BigInt::from_str` reads a decimal text: a leading `-` is dropped
/// unless a `+` follows it, and negates what `BigUint::from_str` reads from
/// the rest.
pub open spec fn spec_parse_bigint(s: Seq<char>) -> Option<int> {
    if s.len() > 0 && s[0] == '-' && !(s.len() > 1 && s[1] == '+') {
        match spec_parse_biguint(s.drop_first()) {
            Some(v) => Some(-(v as int)),
            None => None,
        }
    } else {
        match spec_parse_biguint(s) {
            Some(v) => Some(v as int),
            None => None,
        }
    }
}

/// `BigInt::from_str` (radix 10), then `to_bytes_be`: the number the text
/// stands for, by the reading that `spec_parse_bigint` states, or `None`
/// where the crate reports an error.
#[verifier::external_body]
pub(crate) fn bigint_from_str(s: &str) -> (r: Option<BigNum>)
    ensures
        r is Some <==> spec_parse_bigint(s@) is Some,
        r matches Some(b) ==> b.wf() && b.value() == spec_parse_bigint(s@)->0,
{
    match <num_bigint::BigInt as core::str::FromStr>::from_str(s) {
        Ok(b) => {
            let (sign, magnitude) = b.to_bytes_be();
            Some(BigNum { negative: sign == num_bigint::Sign::Minus, magnitude })
        },
        Err(_) => None,
    }
}

/// `FromPrimitive::from_i64` on `BigInt` (num-traits' trait, which
/// num-bigint implements by `Some(BigInt::from(n))`), then `to_bytes_be`:
/// the same number, always.
#[verifier::external_body]
pub(crate) fn bigint_from_i64(n: i64) -> (r: Option<BigNum>)
    ensures
        r is Some,
        r->0.wf(),
        r->0.value() == n as int,
{
    match <num_bigint::BigInt as num_traits::FromPrimitive>::from_i64(n) {
        Some(b) => {
            let (sign, magnitude) = b.to_bytes_be();
            Some(BigNum { negative: sign == num_bigint::Sign::Minus, magnitude })
        },
        None => None,
    }
}

/// `BigInt::from_bytes_be(Sign::Plus, bytes)`, then `to_bytes_be`: the
/// non-negative number whose big-endian bytes are given.
#[verifier::external_body]
pub(crate) fn bigint_from_be_bytes(bytes: &[u8]) -> (r: BigNum)
    ensures
        r.wf(),
        r.value() == be_value(bytes@) as int,
{
    let (sign, magnitude) = num_bigint::BigInt::from_bytes_be(num_bigint::Sign::Plus, bytes)
        .to_bytes_be();
    BigNum { negative: sign == num_bigint::Sign::Minus, magnitude }
}

/// `BigInt` addition: the sum.
#[verifier::external_body]
pub(crate) fn bigint_add(a: &BigNum, b: &BigNum) -> (r: BigNum)
    requires
        a.wf(),
        b.wf(),
    ensures
        r.wf(),
        r.value() == a.value() + b.value(),
{
    let x = num_bigint::BigInt::from_bytes_be(
        if a.negative { num_bigint::Sign::Minus } else { num_bigint::Sign::Plus },
        &a.magnitude,
    );
    let y = num_bigint::BigInt::from_bytes_be(
        if b.negative { num_bigint::Sign::Minus } else { num_bigint::Sign::Plus },
        &b.magnitude,
    );
    let (sign, magnitude) = (x + y).to_bytes_be();
    BigNum { negative: sign == num_bigint::Sign::Minus, magnitude }
}

/// `BigInt` subtraction: the difference.
#[verifier::external_body]
pub(crate) fn bigint_sub(a: &BigNum, b: &BigNum) -> (r: BigNum)
    requires
        a.wf(),
        b.wf(),
    ensures
        r.wf(),
        r.value() == a.value() - b.value(),
{
    let x = num_bigint::BigInt::from_bytes_be(
        if a.negative { num_bigint::Sign::Minus } else { num_bigint::Sign::Plus },
        &a.magnitude,
    );
    let y = num_bigint::BigInt::from_bytes_be(
        if b.negative { num_bigint::Sign::Minus } else { num_bigint::Sign::Plus },
        &b.magnitude,
    );
    let (sign, magnitude) = (x - y).to_bytes_be();
    BigNum { negative: sign == num_bigint::Sign::Minus, magnitude }
}

/// `BigInt` comparison with `>`.
#[verifier::external_body]
pub(crate) fn bigint_greater(a: &BigNum, b: &BigNum) -> (r: bool)
    requires
        a.wf(),
        b.wf(),
    ensures
        r == (a.value() > b.value()),
{
    let x = num_bigint::BigInt::from_bytes_be(
        if a.negative { num_bigint::Sign::Minus } else { num_bigint::Sign::Plus },
        &a.magnitude,
    );
    let y = num_bigint::BigInt::from_bytes_be(
        if b.negative { num_bigint::Sign::Minus } else { num_bigint::Sign::Plus },
        &b.magnitude,
    );
    x > y
}

/// `BigInt::to_str_radix(10)`: decimal text, with `-` before a negative number.
#[verifier::external_body]
pub(crate) fn bigint_to_decimal(a: &BigNum) -> (r: String)
    requires
        a.wf(),
    ensures
        r@ == spec_decimal(a.value()),
{
    num_bigint::BigInt::from_bytes_be(
        if a.negative { num_bigint::Sign::Minus } else { num_bigint::Sign::Plus },
        &a.magnitude,
    ).to_str_radix(10)
}

impl BigNum {
    /// Zero.
    pub fn zero() -> (r: BigNum)
        ensures
            r.wf(),
            r.value() == 0,
    {
        let mut m: Vec<u8> = Vec::new();
        m.push(0u8);
        proof {
            assert(m@.drop_last() =~= Seq::<u8>::empty());
            assert(m@ =~= seq![0u8]);
            assert(be_value(m@.drop_last()) == 0);
            assert(be_value(m@) == 0);
            assert(canonical_be(0) == seq![0u8]);
        }
        BigNum { negative: false, magnitude: m }
    }
}

}

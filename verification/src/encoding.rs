//! The textual encodings that the transaction digest is built from:
//! standard base64, JSON string literals and decimal integers.
use vstd::prelude::*;
use vstd::utf8::encode_utf8;
use vstd::string::StringExecFns;
use crate::text::string_push;

verus! {

/// The `i`-th symbol (0 <= i < 64) of the standard base64 alphabet.
pub open spec fn b64_symbol(i: int) -> char {
    if i < 26 {
        (65 + i) as char
    } else if i < 52 {
        (97 + (i - 26)) as char
    } else if i < 62 {
        (48 + (i - 52)) as char
    } else if i == 62 {
        '+'
    } else {
        '/'
    }
}

/// Standard base64 (RFC 4648 alphabet, `=` padding) of a byte sequence:
/// each group of three bytes gives four symbols; a final group of one or two
/// bytes gives two or three symbols and is padded to four with `=`.
pub open spec fn spec_base64(b: Seq<u8>) -> Seq<char>
    decreases b.len(),
{
    if b.len() == 0 {
        seq![]
    } else if b.len() == 1 {
        seq![b64_symbol(b[0] as int / 4), b64_symbol((b[0] as int % 4) * 16), '=', '=']
    } else if b.len() == 2 {
        seq![
            b64_symbol(b[0] as int / 4),
            b64_symbol((b[0] as int % 4) * 16 + b[1] as int / 16),
            b64_symbol((b[1] as int % 16) * 4),
            '=',
        ]
    } else {
        seq![
            b64_symbol(b[0] as int / 4),
            b64_symbol((b[0] as int % 4) * 16 + b[1] as int / 16),
            b64_symbol((b[1] as int % 16) * 4 + b[2] as int / 64),
            b64_symbol(b[2] as int % 64),
        ] + spec_base64(b.subrange(3, b.len() as int))
    }
}

/// The error that `base64::decode` reports.
#[verifier::external_type_specification]
#[verifier::external_body]
pub struct ExDecodeError(base64::DecodeError);

/// The error type of `serde_json`.
#[verifier::external_type_specification]
#[verifier::external_body]
pub struct ExJsonError(serde_json::Error);

/// `base64::encode` (standard alphabet, padded): the result is the standard
/// base64 text of the input.
#[verifier::external_body]
pub(crate) fn base64_encode(v: &[u8]) -> (r: String)
    ensures
        r@ == spec_base64(v@),
{
    base64::encode(v)
}

/// What `base64::decode` (standard configuration) gives for a text, given as
/// its bytes: the decoded bytes, or `None` where it reports an error.
pub uninterp spec fn base64_decoded(s: Seq<u8>) -> Option<Seq<u8>>;

/// `base64::decode`: succeeds exactly where the named result is `Some`, and
/// then returns those bytes. The crate decodes what its encoder produces back
/// to the encoded bytes, so the UTF-8 bytes of the standard base64 text of
/// some bytes decode to them. Which other inputs the decoder accepts is not
/// stated; it goes by the name.
#[verifier::external_body]
pub(crate) fn base64_decode(s: &[u8]) -> (r: Result<Vec<u8>, base64::DecodeError>)
    ensures
        r is Ok <==> base64_decoded(s@) is Some,
        r matches Ok(v) ==> base64_decoded(s@) == Some(v@),
        forall|x: Seq<u8>| #[trigger] encode_utf8(spec_base64(x)) == s@ ==> r is Ok && r->Ok_0@ == x,
{
    base64::decode(s)
}

/// Lower-case hexadecimal digit of `i` (0 <= i < 16).
pub open spec fn hex_lower(i: int) -> char {
    if i < 10 {
        digit_char(i as nat)
    } else if i == 10 {
        'a'
    } else if i == 11 {
        'b'
    } else if i == 12 {
        'c'
    } else if i == 13 {
        'd'
    } else if i == 14 {
        'e'
    } else {
        'f'
    }
}

/// How serde_json writes one character inside a string literal.
pub open spec fn json_escape(c: char) -> Seq<char> {
    if c == '"' {
        seq!['\\', '"']
    } else if c == '\\' {
        seq!['\\', '\\']
    } else if c == '\u{8}' {
        seq!['\\', 'b']
    } else if c == '\t' {
        seq!['\\', 't']
    } else if c == '\n' {
        seq!['\\', 'n']
    } else if c == '\u{c}' {
        seq!['\\', 'f']
    } else if c == '\r' {
        seq!['\\', 'r']
    } else if (c as u32) < 32 {
        seq!['\\', 'u', '0', '0', hex_lower(c as u32 as int / 16), hex_lower(c as u32 as int % 16)]
    } else {
        seq![c]
    }
}

/// The escaped characters of a whole string.
pub open spec fn json_escape_all(s: Seq<char>) -> Seq<char>
    decreases s.len(),
{
    if s.len() == 0 {
        seq![]
    } else {
        json_escape(s[0]) + json_escape_all(s.drop_first())
    }
}

/// A JSON string literal, as serde_json writes it.
pub open spec fn spec_json_str(s: Seq<char>) -> Seq<char> {
    seq!['"'] + json_escape_all(s) + seq!['"']
}

/// The ASCII digit of `d` (0 <= d < 10).
pub open spec fn digit_char(d: nat) -> char {
    if d == 0 {
        '0'
    } else if d == 1 {
        '1'
    } else if d == 2 {
        '2'
    } else if d == 3 {
        '3'
    } else if d == 4 {
        '4'
    } else if d == 5 {
        '5'
    } else if d == 6 {
        '6'
    } else if d == 7 {
        '7'
    } else if d == 8 {
        '8'
    } else {
        '9'
    }
}

/// Decimal digits of a natural number, without leading zeros.
pub open spec fn decimal_digits(n: nat) -> Seq<char>
    decreases n,
{
    if n < 10 {
        seq![digit_char(n)]
    } else {
        decimal_digits(n / 10) + seq![digit_char(n % 10)]
    }
}

/// Decimal text of an integer, with a leading `-` when it is negative.
pub open spec fn spec_decimal(n: int) -> Seq<char> {
    if n < 0 {
        seq!['-'] + decimal_digits((-n) as nat)
    } else {
        decimal_digits(n as nat)
    }
}

/// JSON text of a boolean.
pub open spec fn spec_json_bool(b: bool) -> Seq<char> {
    if b {
        seq!['t', 'r', 'u', 'e']
    } else {
        seq!['f', 'a', 'l', 's', 'e']
    }
}

/// `serde_json::to_string` on a `str`: a string literal in which `"`, `\` and
/// the control characters below U+0020 are escaped. Serialising a `str` into
/// memory cannot fail in serde_json.
#[verifier::external_body]
pub(crate) fn json_str(s: &str) -> (r: Result<String, serde_json::Error>)
    ensures
        r is Ok,
        r->Ok_0@ == spec_json_str(s@),
{
    serde_json::to_string(s)
}

/// `serde_json::to_string` on an `i64`: its decimal text. Serialising an
/// integer into memory cannot fail in serde_json.
#[verifier::external_body]
pub(crate) fn json_i64(n: i64) -> (r: Result<String, serde_json::Error>)
    ensures
        r is Ok,
        r->Ok_0@ == spec_decimal(n as int),
{
    serde_json::to_string(&n)
}

/// `serde_json::to_string` on an `i32`: its decimal text. Serialising an
/// integer into memory cannot fail in serde_json.
#[verifier::external_body]
pub(crate) fn json_i32(n: i32) -> (r: Result<String, serde_json::Error>)
    ensures
        r is Ok,
        r->Ok_0@ == spec_decimal(n as int),
{
    serde_json::to_string(&n)
}

/// `serde_json::to_string` on a `bool`: `true` or `false`. Serialising a
/// boolean into memory cannot fail in serde_json.
#[verifier::external_body]
pub(crate) fn json_bool(b: bool) -> (r: Result<String, serde_json::Error>)
    ensures
        r is Ok,
        r->Ok_0@ == spec_json_bool(b),
{
    serde_json::to_string(&b)
}


/// A text followed by a line break.
pub open spec fn line(t: Seq<char>) -> Seq<char> {
    t + seq!['\n']
}

/// Texts joined with commas between them.
pub open spec fn join_comma(s: Seq<Seq<char>>) -> Seq<char>
    decreases s.len(),
{
    if s.len() == 0 {
        seq![]
    } else if s.len() == 1 {
        s[0]
    } else {
        join_comma(s.drop_last()) + seq![','] + s.last()
    }
}

/// The characters of each string.
pub open spec fn views(v: Seq<String>) -> Seq<Seq<char>> {
    v.map_values(|s: String| s@)
}

/// The texts `f(x)` of the elements `x` of `s`, one after another.
pub open spec fn concat_map<T>(s: Seq<T>, f: spec_fn(T) -> Seq<char>) -> Seq<char>
    decreases s.len(),
{
    if s.len() == 0 {
        seq![]
    } else {
        concat_map(s.drop_last(), f) + f(s.last())
    }
}

/// One more element adds its text at the end.
pub proof fn lemma_concat_map_step<T>(s: Seq<T>, f: spec_fn(T) -> Seq<char>, i: int)
    requires
        0 <= i < s.len(),
    ensures
        concat_map(s.take(i + 1), f) == concat_map(s.take(i), f) + f(s[i]),
{
    assert(s.take(i + 1).drop_last() =~= s.take(i));
}

/// Appending a string appends its characters to the views.
pub proof fn lemma_views_push(v: Seq<String>, s: String)
    ensures
        views(v.push(s)) == views(v).push(s@),
{
    assert(views(v.push(s)) =~= views(v).push(s@));
}

/// A JSON array of the given element texts, as serde_json writes it.
pub open spec fn spec_json_array(elems: Seq<Seq<char>>) -> Seq<char> {
    seq!['['] + join_comma(elems) + seq![']']
}

/// A JSON object of the given member texts, as serde_json writes it.
pub open spec fn spec_json_object(members: Seq<Seq<char>>) -> Seq<char> {
    seq!['{'] + join_comma(members) + seq!['}']
}

/// A JSON object member: the name as a string literal, `:`, the value.
pub open spec fn spec_member(name: Seq<char>, value: Seq<char>) -> Seq<char> {
    spec_json_str(name) + seq![':'] + value
}

/// `parts` joined with commas between `open` and `close`.
pub(crate) fn join_enclosed(parts: &Vec<String>, open: char, close: char) -> (r: String)
    ensures
        r@ == seq![open] + join_comma(views(parts@)) + seq![close],
{
    let mut out = String::new();
    string_push(&mut out, open);
    let n = parts.len();
    for i in 0..n
        invariant
            n == parts@.len(),
            out@ == seq![open] + join_comma(views(parts@.take(i as int))),
    {
        proof {
            let t = parts@.take(i + 1);
            assert(t.drop_last() =~= parts@.take(i as int));
            assert(views(t).drop_last() =~= views(parts@.take(i as int)));
            assert(views(t).last() == parts@[i as int]@);
        }
        if i > 0 {
            string_push(&mut out, ',');
        } else {
            proof {
                assert(views(parts@.take(0)) =~= Seq::<Seq<char>>::empty());
            }
        }
        out.append(parts[i].as_str());
    }
    assert(parts@.take(n as int) =~= parts@);
    string_push(&mut out, close);
    out
}

/// A JSON object member: `name` as a string literal, `:`, then `value`.
pub(crate) fn json_member(name: &str, value: &str) -> (r: String)
    ensures
        r@ == spec_member(name@, value@),
{
    let mut m = match json_str(name) {
        Ok(t) => t,
        Err(_) => String::new(),
    };
    string_push(&mut m, ':');
    m.append(value);
    m
}


/// The value of a hexadecimal digit (either case).
pub open spec fn hex_value(c: char) -> Option<u8> {
    let n = c as u32;
    if 48 <= n <= 57 {
        Some((n - 48) as u8)
    } else if 65 <= n <= 70 {
        Some((n - 55) as u8)
    } else if 97 <= n <= 102 {
        Some((n - 87) as u8)
    } else {
        None
    }
}

/// The bytes a hexadecimal text stands for, two digits per byte; `None`
/// for an odd number of characters or a character that is not a digit.
pub open spec fn spec_hex_decode(s: Seq<char>) -> Option<Seq<u8>>
    decreases s.len(),
{
    if s.len() == 0 {
        Some(seq![])
    } else if s.len() == 1 {
        None
    } else {
        match (hex_value(s[0]), hex_value(s[1]), spec_hex_decode(s.subrange(2, s.len() as int))) {
            (Some(h), Some(l), Some(rest)) => Some(seq![(h * 16 + l) as u8] + rest),
            _ => None,
        }
    }
}

/// Lower-case hexadecimal text of bytes, two digits per byte.
pub open spec fn spec_hex_encode(b: Seq<u8>) -> Seq<char>
    decreases b.len(),
{
    if b.len() == 0 {
        seq![]
    } else {
        seq![hex_lower(b[0] as int / 16), hex_lower(b[0] as int % 16)] + spec_hex_encode(b.drop_first())
    }
}

/// The error that `hex::decode` reports.
#[verifier::external_type_specification]
#[verifier::external_body]
pub struct ExFromHexError(hex::FromHexError);

/// `hex::encode`: lower-case hexadecimal, two digits per byte.
#[verifier::external_body]
pub(crate) fn hex_encode(b: &[u8]) -> (r: String)
    ensures
        r@ == spec_hex_encode(b@),
{
    hex::encode(b)
}

/// `hex::decode` on the UTF-8 bytes of a text: an odd number of bytes is an
/// error, and each pair of digits (either case) gives a byte; any other byte
/// is an error. A character outside ASCII has bytes that are no digits, so
/// the result is that of `spec_hex_decode` on the characters.
#[verifier::external_body]
pub(crate) fn hex_decode(s: &str) -> (r: Result<Vec<u8>, hex::FromHexError>)
    ensures
        r is Ok <==> spec_hex_decode(s@) is Some,
        r matches Ok(v) ==> spec_hex_decode(s@) == Some(v@),
{
    hex::decode(s)
}

/// The ASCII digit of `d`.
pub(crate) fn digit_of(d: u64) -> (c: char)
    requires
        d < 10,
    ensures
        c == digit_char(d as nat),
{
    if d == 0 {
        '0'
    } else if d == 1 {
        '1'
    } else if d == 2 {
        '2'
    } else if d == 3 {
        '3'
    } else if d == 4 {
        '4'
    } else if d == 5 {
        '5'
    } else if d == 6 {
        '6'
    } else if d == 7 {
        '7'
    } else if d == 8 {
        '8'
    } else {
        '9'
    }
}

/// Appends the decimal digits of `n` to `buf`.
fn push_decimal_digits(n: u64, buf: &mut String)
    ensures
        final(buf)@ == old(buf)@ + decimal_digits(n as nat),
    decreases n,
{
    if n >= 10 {
        push_decimal_digits(n / 10, buf);
    }
    string_push(buf, digit_of(n % 10));
    assert(final(buf)@ =~= old(buf)@ + decimal_digits(n as nat));
}

/// Appends the decimal text of `n` (with `-` before a negative number) to
/// `buf`.
pub(crate) fn push_decimal(n: i64, buf: &mut String)
    ensures
        final(buf)@ == old(buf)@ + spec_decimal(n as int),
{
    if n < 0 {
        string_push(buf, '-');
        let m: u64 = (-(n as i128)) as u64;
        push_decimal_digits(m, buf);
    } else {
        push_decimal_digits(n as u64, buf);
    }
    assert(final(buf)@ =~= old(buf)@ + spec_decimal(n as int));
}

/// The decimal text of an `i32`, as its `to_string` writes it.
pub(crate) fn i32_to_string(n: i32) -> (r: String)
    ensures
        r@ == spec_decimal(n as int),
{
    let mut s = String::new();
    push_decimal(n as i64, &mut s);
    assert(s@ =~= spec_decimal(n as int));
    s
}

}

//! Character-level helpers on strings.
use vstd::prelude::*;
use vstd::std_specs::iter::IteratorSpec;
use vstd::string::StringExecFns;

verus! {

/// The characters of `s`, in order.
pub(crate) fn str_chars(s: &str) -> (r: Vec<char>)
    ensures
        r@ == s@,
{
    let mut out: Vec<char> = Vec::new();
    let mut it = s.chars();
    proof {
        broadcast use vstd::string::group_string_axioms;
    }
    loop
        invariant
            out@ + it.remaining() == s@,
            it.decrease() is Some,
        decreases it.decrease()->0,
    {
        let ghost before = it.remaining();
        match it.next() {
            Some(c) => {
                proof {
                    broadcast use vstd::string::group_string_axioms;
                    assert(before.len() > 0);
                }
                out.push(c);
                assert(out@ + it.remaining() =~= s@);
            },
            None => {
                proof {
                    broadcast use vstd::string::group_string_axioms;
                }
                assert(out@ =~= s@);
                return out;
            },
        }
    }
}


/// `String::push` from std: appends one character.
#[verifier::external_body]
pub(crate) fn string_push(s: &mut String, c: char)
    ensures
        final(s)@ == old(s)@.push(c),
{
    s.push(c);
}

/// Appends `t` and then a line break to `buf`.
pub(crate) fn push_line(buf: &mut String, t: &str)
    ensures
        final(buf)@ == old(buf)@ + t@ + seq!['\n'],
{
    buf.append(t);
    string_push(buf, '\n');
}

/// The two byte strings are equal.
pub(crate) fn bytes_eq(a: &[u8], b: &[u8]) -> (r: bool)
    ensures
        r == (a@ == b@),
{
    if a.len() != b.len() {
        return false;
    }
    let mut i: usize = 0;
    while i < a.len()
        invariant
            a@.len() == b@.len(),
            i <= a@.len(),
            forall|k: int| 0 <= k < i ==> a@[k] == b@[k],
        decreases a@.len() - i,
    {
        if a[i] != b[i] {
            return false;
        }
        i = i + 1;
    }
    assert(a@ =~= b@);
    true
}

}

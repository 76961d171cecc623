//! The account, the text of a transaction that its digest and its id are
//! computed from, and the JSON forms of the transaction's fields.
use vstd::prelude::*;
use vstd::string::StringExecFns;
use vstd::utf8::encode_utf8;
use vstd::slice::slice_to_vec;
use crate::encoding::{
    base64_decode, base64_decoded, base64_encode, join_enclosed, json_bool, json_i32, json_i64,
    json_member, json_str, line, spec_base64, spec_decimal, spec_json_array, spec_json_bool,
    spec_json_object, spec_json_str, spec_member, views, lemma_views_push, concat_map, digit_char,
    digit_of, push_decimal,
    lemma_concat_map_step,
};
use crate::errors::{ErrorKind, Result};
use crate::text::{push_line, string_push};
use crate::consts::now_as_secs;
use crate::ordmap::{
    byte_entry_views, canonical_entries, entries_sorted, entry_lt, entry_views, fold_map, keys_distinct,
    lemma_fold_map_distinct, lemma_fold_map_dom, lemma_fold_map_update, lemma_insert_sorted,
    lemma_sorted_is_canonical, str_less,
};
use crate::xchain::{
    duplicate_all, seq_view, Duplicate, HDInfo, InvokeRequest, ResourceLimit,
    ResourceType, SignatureInfo, Transaction, TxInput, TxInputExt, TxOutput, TxOutputExt,
    XuperSignature,
};

verus! {

/// The account that signs: the contract it calls, the contract account it
/// acts for, its address, and where its private key is kept.
#[derive(Debug, Clone, PartialEq, Eq, Default)]
pub struct Account {
    pub contract_name: String,
    pub contract_account: String,
    pub address: String,
    pub path: String,
}

impl Account {
    /// The account whose private key is kept at `path`, whose address (as
    /// derived from that key) is `address`, calling the contract
    /// `contract_name` for the contract account `contract_account`.
    pub fn new(path: &str, contract_name: &str, contract_account: &str, address: String) -> (r: Self)
        ensures
            r.path@ == path@,
            r.contract_name@ == contract_name@,
            r.contract_account@ == contract_account@,
            r.address@ == address@,
    {
        Account {
            address,
            path: String::from_str(path),
            contract_account: String::from_str(contract_account),
            contract_name: String::from_str(contract_name),
        }
    }
}

/// A byte field in the transaction text: nothing when empty, otherwise its
/// base64 as a JSON string literal on a line of its own.
pub open spec fn spec_encode_bytes(v: Seq<u8>) -> Seq<char> {
    if v.len() == 0 {
        seq![]
    } else {
        line(spec_json_str(spec_base64(v)))
    }
}

/// Appends the text of a byte field (see `spec_encode_bytes`) to `buf`.
pub fn encode_bytes(v: &Vec<u8>, buf: &mut String) -> (r: Result<()>)
    ensures
        r is Ok,
        final(buf)@ == old(buf)@ + spec_encode_bytes(v@),
{
    if v.len() == 0 {
        assert(old(buf)@ + spec_encode_bytes(v@) =~= old(buf)@);
        return Ok(());
    }
    let b64 = base64_encode(v.as_slice());
    let ti = match json_str(b64.as_str()) {
        Ok(t) => t,
        Err(_) => return Err(ErrorKind::JsonError),
    };
    push_line(buf, ti.as_str());
    Ok(())
}

/// A list field in the transaction text: `null` when the list is empty,
/// otherwise the JSON array of its elements, then a line break.
pub open spec fn spec_encode_array(elems: Seq<Seq<char>>) -> Seq<char> {
    if elems.len() > 0 {
        line(spec_json_array(elems))
    } else {
        line(seq!['n', 'u', 'l', 'l'])
    }
}

/// Appends the text of a list field (see `spec_encode_array`), whose
/// elements' JSON texts are given, to `buf`.
pub fn encode_array(elems: &Vec<String>, buf: &mut String) -> (r: Result<()>)
    ensures
        r is Ok,
        final(buf)@ == old(buf)@ + spec_encode_array(views(elems@)),
{
    if elems.len() > 0 {
        let s = join_enclosed(elems, '[', ']');
        push_line(buf, s.as_str());
        return Ok(());
    }
    assert(views(elems@).len() == 0);
    string_push(buf, 'n');
    string_push(buf, 'u');
    string_push(buf, 'l');
    string_push(buf, 'l');
    string_push(buf, '\n');
    assert(final(buf)@ =~= old(buf)@ + spec_encode_array(views(elems@)));
    Ok(())
}

/// What a byte field is handed to a serializer as: nothing (`null`) when it
/// is empty, otherwise its base64 text.
pub fn serialize_bytes(v: &Vec<u8>) -> (r: Option<String>)
    ensures
        v@.len() == 0 ==> r is None,
        v@.len() > 0 ==> (r matches Some(s) && s@ == spec_base64(v@)),
{
    if v.len() == 0 {
        return None;
    }
    Some(base64_encode(v.as_slice()))
}

/// Reads a byte field from its base64 text; `Base64Error` where
/// `base64::decode` fails.
pub fn deserialize_bytes(s: &str) -> (r: Result<Vec<u8>>)
    ensures
        match base64_decoded(encode_utf8(s@)) {
            None => r == Err::<Vec<u8>, ErrorKind>(ErrorKind::Base64Error),
            Some(b) => r matches Ok(v) && v@ == b,
        },
        forall|x: Seq<u8>| s@ == #[trigger] spec_base64(x) ==> (r matches Ok(v) && v@ == x),
{
    match base64_decode(s.as_bytes()) {
        Ok(v) => Ok(v),
        Err(_) => Err(ErrorKind::Base64Error),
    }
}

/// The JSON value of a byte field written through `serialize_bytes`: `null`
/// when it is empty, otherwise its base64 as a string literal.
pub open spec fn spec_bytes_json(v: Seq<u8>) -> Seq<char> {
    if v.len() == 0 {
        seq!['n', 'u', 'l', 'l']
    } else {
        spec_json_str(spec_base64(v))
    }
}

/// The JSON value of a byte field written through `serialize_bytes`.
fn bytes_json(v: &Vec<u8>) -> (r: String)
    ensures
        r@ == spec_bytes_json(v@),
{
    if v.len() == 0 {
        let mut s = String::new();
        string_push(&mut s, 'n');
        string_push(&mut s, 'u');
        string_push(&mut s, 'l');
        string_push(&mut s, 'l');
        assert(s@ =~= seq!['n', 'u', 'l', 'l']);
        return s;
    }
    let b64 = base64_encode(v.as_slice());
    match json_str(b64.as_str()) {
        Ok(t) => t,
        Err(_) => String::new(),
    }
}

/// What a list of byte strings is handed to a serializer as: the base64
/// text of each, in order.
pub fn serialize_bytes_arr(v: &Vec<Vec<u8>>) -> (r: Vec<String>)
    ensures
        r@.len() == v@.len(),
        forall|i: int| 0 <= i < v@.len() ==> #[trigger] r@[i]@ == spec_base64(v@[i]@),
{
    let mut out: Vec<String> = Vec::new();
    for i in 0..v.len()
        invariant
            out@.len() == i,
            forall|j: int| 0 <= j < i ==> #[trigger] out@[j]@ == spec_base64(v@[j]@),
    {
        out.push(base64_encode(v[i].as_slice()));
    }
    out
}

/// Reads a list of byte strings as the serializer's counterpart does: the
/// field is read as one byte string (`None` where that fails, giving the
/// empty list), and that byte string is decoded from base64 as the single
/// element; `Base64Error` where the decoding fails.
pub fn deserialize_bytes_arr(raw: Option<Vec<u8>>) -> (r: Result<Vec<Vec<u8>>>)
    ensures
        raw is None ==> (r matches Ok(v) && v@.len() == 0),
        raw matches Some(b) ==> match base64_decoded(b@) {
            None => r == Err::<Vec<Vec<u8>>, ErrorKind>(ErrorKind::Base64Error),
            Some(d) => r matches Ok(v) && v@.len() == 1 && v@[0]@ == d,
        },
{
    let mut out: Vec<Vec<u8>> = Vec::new();
    match raw {
        None => Ok(out),
        Some(elem) => match base64_decode(elem.as_slice()) {
            Ok(d) => {
                out.push(d);
                Ok(out)
            },
            Err(_) => Err(ErrorKind::Base64Error),
        },
    }
}

/// The field is zero (and left out of the JSON form).
pub fn is_zero(t: &i64) -> (r: bool)
    ensures
        r == (*t == 0),
{
    *t == 0
}

/// The resource type is `CPU` (and left out of the JSON form).
#[allow(non_snake_case)]
pub fn is_CPU(t: &ResourceType) -> (r: bool)
    ensures
        r == (*t == ResourceType::CPU),
{
    match t {
        ResourceType::CPU => true,
        _ => false,
    }
}

/// The list is empty (and left out of the JSON form).
pub fn is_empty<T>(t: &Vec<T>) -> (r: bool)
    ensures
        r == (t@.len() == 0),
{
    t.len() == 0
}


/// Entries with each value replaced by its base64 text.
pub open spec fn base64_values(s: Seq<(Seq<char>, Seq<u8>)>) -> Seq<(Seq<char>, Seq<char>)> {
    s.map_values(|e: (Seq<char>, Seq<u8>)| (e.0, spec_base64(e.1)))
}

/// The entries of a byte map with each value replaced by its base64 text.
pub open spec fn encoded_entries(value: Seq<(String, Vec<u8>)>) -> Seq<(Seq<char>, Seq<char>)> {
    base64_values(byte_entry_views(value))
}

/// What a byte map is handed to a serializer as: its entries sorted by key,
/// each value replaced by its base64 text. The result is the one sorted
/// arrangement of those entries, whatever order they come in.
pub fn serialize_ordered_map(value: &Vec<(String, Vec<u8>)>) -> (r: Vec<(String, String)>)
    ensures
        entries_sorted(entry_views(r@)),
        entry_views(r@).to_multiset() == encoded_entries(value@).to_multiset(),
        entry_views(r@) == canonical_entries(encoded_entries(value@)),
{
    broadcast use vstd::seq_lib::group_to_multiset_ensures;
    let mut out: Vec<(String, String)> = Vec::new();
    let n = value.len();
    for i in 0..n
        invariant
            n == value@.len(),
            entries_sorted(entry_views(out@)),
            entry_views(out@).to_multiset() == encoded_entries(value@.take(i as int)).to_multiset(),
    {
        let k = &value[i].0;
        let enc = base64_encode(value[i].1.as_slice());
        let mut p: usize = 0;
        while p < out.len() && (str_less(out[p].0.as_str(), k.as_str()) || (out[p].0 == *k && str_less(
            out[p].1.as_str(),
            enc.as_str(),
        )))
            invariant
                p <= out@.len(),
                forall|q: int| 0 <= q < p ==> entry_lt(#[trigger] entry_views(out@)[q], (k@, enc@)),
            decreases out@.len() - p,
        {
            assert(entry_views(out@)[p as int] == (out@[p as int].0@, out@[p as int].1@));
            p = p + 1;
        }
        proof {
            if p < out@.len() {
                assert(entry_views(out@)[p as int] == (out@[p as int].0@, out@[p as int].1@));
            }
            lemma_insert_sorted(entry_views(out@), p as int, (k@, enc@));
        }
        let entry = (k.clone(), enc);
        let ghost old_out = out@;
        out.insert(p, entry);
        proof {
            assert(entry_views(out@) =~= entry_views(old_out).insert(p as int, (entry.0@, entry.1@)));
            assert(encoded_entries(value@.take(i + 1)) =~= encoded_entries(value@.take(i as int)).push(
                (entry.0@, entry.1@),
            ));
            vstd::seq_lib::to_multiset_insert(entry_views(old_out), p as int, (entry.0@, entry.1@));
            vstd::seq_lib::to_multiset_build(encoded_entries(value@.take(i as int)), (entry.0@, entry.1@));
        }
    }
    assert(value@.take(n as int) =~= value@);
    proof {
        lemma_sorted_is_canonical(entry_views(out@), encoded_entries(value@));
    }
    out
}

/// Builds a map of strings from the entries a deserializer hands over, one
/// after another.
#[derive(Debug)]
pub struct MyMapVisitor {}

impl MyMapVisitor {
    pub fn new() -> (r: MyMapVisitor) {
        MyMapVisitor {}
    }

    /// Inserts the entries in order into a map (a later entry replaces an
    /// earlier one with the same key) and returns the map's entries, each key
    /// once.
    pub fn visit_map(&self, entries: &Vec<(String, String)>) -> (r: Vec<(String, String)>)
        ensures
            keys_distinct(r@),
            fold_map(entry_views(r@)) == fold_map(entry_views(entries@)),
    {
        let mut out: Vec<(String, String)> = Vec::new();
        let n = entries.len();
        for i in 0..n
            invariant
                n == entries@.len(),
                keys_distinct(out@),
                fold_map(entry_views(out@)) == fold_map(entry_views(entries@.take(i as int))),
        {
            let k = &entries[i].0;
            let v = &entries[i].1;
            let mut p: usize = 0;
            while p < out.len() && !(out[p].0 == *k)
                invariant
                    p <= out@.len(),
                    forall|q: int| 0 <= q < p ==> #[trigger] out@[q].0@ != k@,
                decreases out@.len() - p,
            {
                p = p + 1;
            }
            let e = (k.clone(), v.clone());
            let ghost old_out = out@;
            proof {
                let a = entry_views(entries@.take(i + 1));
                assert(a.drop_last() =~= entry_views(entries@.take(i as int)));
                assert(a.last() == (e.0@, e.1@));
                assert(fold_map(a) == fold_map(entry_views(entries@.take(i as int))).insert(e.0@, e.1@));
            }
            if p < out.len() {
                out.set(p, e);
                proof {
                    assert(entry_views(out@) =~= entry_views(old_out).update(p as int, (e.0@, e.1@)));
                    assert forall|q: int| 0 <= q < old_out.len() && q != p implies #[trigger] entry_views(old_out)[q].0 != e.0@ by {
                        assert(old_out[q].0@ != old_out[p as int].0@);
                    }
                    lemma_fold_map_update(entry_views(old_out), p as int, (e.0@, e.1@));
                    assert forall|a: int, b: int| 0 <= a < out@.len() && 0 <= b < out@.len() && a != b implies #[trigger] out@[a].0@ != #[trigger] out@[b].0@ by {
                        if a != p && b != p {
                            assert(out@[a] == old_out[a] && out@[b] == old_out[b]);
                        } else if a == p {
                            assert(out@[b] == old_out[b]);
                            assert(old_out[b].0@ != old_out[p as int].0@);
                        } else {
                            assert(out@[a] == old_out[a]);
                            assert(old_out[a].0@ != old_out[p as int].0@);
                        }
                    }
                }
            } else {
                out.push(e);
                proof {
                    assert(entry_views(out@) =~= entry_views(old_out).push((e.0@, e.1@)));
                    assert(entry_views(out@).drop_last() =~= entry_views(old_out));
                    assert(fold_map(entry_views(out@)) == fold_map(entry_views(old_out)).insert(e.0@, e.1@));
                    assert forall|a: int, b: int| 0 <= a < out@.len() && 0 <= b < out@.len() && a != b implies #[trigger] out@[a].0@ != #[trigger] out@[b].0@ by {
                        if a < old_out.len() && b < old_out.len() {
                            assert(out@[a] == old_out[a] && out@[b] == old_out[b]);
                        } else if a < old_out.len() {
                            assert(out@[a] == old_out[a]);
                        } else {
                            assert(out@[b] == old_out[b]);
                        }
                    }
                }
            }
        }
        assert(entries@.take(n as int) =~= entries@);
        out
    }
}

/// `v` is the byte map read back from the string map `m`: each key of `m`
/// once, with the bytes that `base64::decode` gives for its value, which are
/// the bytes whose base64 text the value is wherever it is one.
pub open spec fn map_read_back(m: Map<Seq<char>, Seq<char>>, v: Seq<(String, Vec<u8>)>) -> bool {
    &&& keys_distinct(v)
    &&& v.len() == m.dom().len()
    &&& forall|j: int| 0 <= j < v.len() ==> m.dom().contains(#[trigger] v[j].0@)
        && base64_decoded(encode_utf8(m[v[j].0@])) == Some(v[j].1@)
    &&& forall|j: int, x: Seq<u8>| 0 <= j < v.len() && #[trigger] spec_base64(x) == m[#[trigger] v[j].0@]
        ==> v[j].1@ == x
}

/// Reads a byte map from the string map a deserializer hands over: the
/// entries are inserted in order (a later one replaces an earlier one with the
/// same key), then every value is decoded from base64. `Base64Error` where a
/// value of the map does not decode.
pub fn deserialize_ordered_map(entries: &Vec<(String, String)>) -> (r: Result<Vec<(String, Vec<u8>)>>)
    ensures
        r is Err <==> exists|k: Seq<char>|
            #[trigger] fold_map(entry_views(entries@)).dom().contains(k)
            && base64_decoded(encode_utf8(fold_map(entry_views(entries@))[k])) is None,
        r is Err ==> r == Err::<Vec<(String, Vec<u8>)>, ErrorKind>(ErrorKind::Base64Error),
        r matches Ok(v) ==> map_read_back(fold_map(entry_views(entries@)), v@),
        (forall|k: Seq<char>| #[trigger] fold_map(entry_views(entries@)).dom().contains(k)
            ==> exists|x: Seq<u8>| #[trigger] spec_base64(x) == fold_map(entry_views(entries@))[k]) ==> r is Ok,
{
    let visitor = MyMapVisitor::new();
    let res = visitor.visit_map(entries);
    let ghost m = fold_map(entry_views(entries@));
    proof {
        let ev = entry_views(res@);
        assert forall|a: int, b: int| 0 <= a < ev.len() && 0 <= b < ev.len() && a != b implies #[trigger] ev[a].0 != #[trigger] ev[b].0 by {
            assert(res@[a].0@ != res@[b].0@);
        }
        lemma_fold_map_distinct(ev);
        lemma_fold_map_dom(ev);
        assert forall|j: int| 0 <= j < res@.len() implies m.dom().contains(#[trigger] res@[j].0@) && m[res@[j].0@] == res@[j].1@ by {
            assert(ev[j] == (res@[j].0@, res@[j].1@));
        }
        assert forall|k: Seq<char>| #[trigger] m.dom().contains(k) implies exists|j: int| 0 <= j < res@.len() && res@[j].0@ == k by {
            let j = choose|j: int| 0 <= j < ev.len() && ev[j].0 == k;
            assert(ev[j] == (res@[j].0@, res@[j].1@));
        }
    }
    let mut ret: Vec<(String, Vec<u8>)> = Vec::new();
    let n = res.len();
    for i in 0..n
        invariant
            n == res@.len(),
            keys_distinct(res@),
            m == fold_map(entry_views(res@)),
            m == fold_map(entry_views(entries@)),
            forall|j: int| 0 <= j < n ==> m.dom().contains(#[trigger] res@[j].0@) && m[res@[j].0@] == res@[j].1@,
            forall|k: Seq<char>| #[trigger] m.dom().contains(k) ==> exists|j: int| 0 <= j < n && res@[j].0@ == k,
            ret@.len() == i,
            forall|j: int| 0 <= j < i ==> (#[trigger] ret@[j]).0@ == res@[j].0@,
            forall|j: int| 0 <= j < i ==> base64_decoded(encode_utf8(res@[j].1@)) == Some((#[trigger] ret@[j]).1@),
            forall|j: int| 0 <= j < i ==> base64_decoded(encode_utf8(#[trigger] res@[j].1@)) is Some,
            forall|j: int, x: Seq<u8>| 0 <= j < i && #[trigger] spec_base64(x) == res@[j].1@ ==> (#[trigger] ret@[j]).1@ == x,
    {
        assert(entry_views(res@)[i as int] == (res@[i as int].0@, res@[i as int].1@));
        match base64_decode(res[i].1.as_str().as_bytes()) {
            Ok(b) => {
                let ghost old_ret = ret@;
                let key = res[i].0.clone();
                ret.push((key, b));
                assert forall|j: int| 0 <= j < i + 1 implies (#[trigger] ret@[j]).0@ == res@[j].0@
                    && base64_decoded(encode_utf8(res@[j].1@)) == Some(ret@[j].1@) by {
                    if j < i {
                        assert(ret@[j] == old_ret[j]);
                    }
                }
                assert forall|j: int, x: Seq<u8>| 0 <= j < i + 1 && #[trigger] spec_base64(x) == res@[j].1@ implies (#[trigger] ret@[j]).1@ == x by {
                    if j < i {
                        assert(ret@[j] == old_ret[j]);
                    } else {
                        assert(encode_utf8(spec_base64(x)) == encode_utf8(res@[i as int].1@));
                    }
                }
            },
            Err(_) => {
                assert(m.dom().contains(res@[i as int].0@));
                assert(m[res@[i as int].0@] == res@[i as int].1@);
                assert(base64_decoded(encode_utf8(m[res@[i as int].0@])) is None);
                proof {
                    let k = res@[i as int].0@;
                    if forall|k: Seq<char>| #[trigger] m.dom().contains(k) ==> exists|x: Seq<u8>| #[trigger] spec_base64(x) == m[k] {
                        assert(m.dom().contains(k));
                        let x = choose|x: Seq<u8>| #[trigger] spec_base64(x) == m[k];
                        assert(encode_utf8(spec_base64(x)) == encode_utf8(res@[i as int].1@));
                    }
                }
                return Err(ErrorKind::Base64Error);
            },
        }
    }
    proof {
        assert forall|a: int, b: int| 0 <= a < ret@.len() && 0 <= b < ret@.len() && a != b implies #[trigger] ret@[a].0@ != #[trigger] ret@[b].0@ by {
            assert(res@[a].0@ != res@[b].0@);
        }
        assert forall|k: Seq<char>| #[trigger] m.dom().contains(k) implies base64_decoded(encode_utf8(m[k])) is Some by {
            let j = choose|j: int| 0 <= j < n && res@[j].0@ == k;
            assert(base64_decoded(encode_utf8(res@[j].1@)) is Some);
        }
        // The map's keys are the n distinct keys of `res`.
        let keys = res@.map_values(|e: (String, String)| e.0@);
        assert(keys.no_duplicates()) by {
            assert forall|a: int, b: int| 0 <= a < keys.len() && 0 <= b < keys.len() && a != b implies keys[a] != keys[b] by {
                assert(res@[a].0@ != res@[b].0@);
            }
        }
        assert(m.dom() =~= keys.to_set()) by {
            assert forall|k: Seq<char>| m.dom().contains(k) <==> keys.to_set().contains(k) by {
                if m.dom().contains(k) {
                    let j = choose|j: int| 0 <= j < n && res@[j].0@ == k;
                    assert(keys[j] == k);
                }
                if keys.to_set().contains(k) {
                    assert(keys.contains(k));
                    let j = choose|j: int| 0 <= j < keys.len() && keys[j] == k;
                    assert(res@[j].0@ == k);
                }
            }
        }
        keys.unique_seq_to_set();
        assert forall|j: int, x: Seq<u8>| 0 <= j < ret@.len() && #[trigger] spec_base64(x) == m[#[trigger] ret@[j].0@] implies ret@[j].1@ == x by {
            assert(ret@[j].0@ == res@[j].0@);
            assert(m[res@[j].0@] == res@[j].1@);
        }
    }
    Ok(ret)
}


/// Decimal text of an `i64`, through serde_json.
fn decimal_i64(n: i64) -> (r: String)
    ensures
        r@ == spec_decimal(n as int),
{
    match json_i64(n) {
        Ok(t) => t,
        Err(_) => String::new(),
    }
}

/// Decimal text of an `i32`, through serde_json.
fn decimal_i32(n: i32) -> (r: String)
    ensures
        r@ == spec_decimal(n as int),
{
    match json_i32(n) {
        Ok(t) => t,
        Err(_) => String::new(),
    }
}

/// A JSON string literal, through serde_json.
fn quoted(s: &str) -> (r: String)
    ensures
        r@ == spec_json_str(s@),
{
    match json_str(s) {
        Ok(t) => t,
        Err(_) => String::new(),
    }
}

/// `true` or `false`, through serde_json.
fn bool_text(b: bool) -> (r: String)
    ensures
        r@ == spec_json_bool(b),
{
    match json_bool(b) {
        Ok(t) => t,
        Err(_) => String::new(),
    }
}

/// The JSON form of a transaction output: `amount` and `to_addr` (see
/// `spec_bytes_json`), then `frozen_height` unless it is zero.
pub open spec fn spec_output_json(o: (Seq<u8>, Seq<u8>, i64)) -> Seq<char> {
    spec_json_object(
        seq![spec_member("amount"@, spec_bytes_json(o.0)), spec_member("to_addr"@, spec_bytes_json(o.1))]
            + if o.2 != 0 {
            seq![spec_member("frozen_height"@, spec_decimal(o.2 as int))]
        } else {
            seq![]
        },
    )
}

/// The JSON form of a signature: `PublicKey` as a string, `Sign` (see
/// `spec_bytes_json`).
pub open spec fn spec_signature_json(s: (Seq<char>, Seq<u8>)) -> Seq<char> {
    spec_json_object(
        seq![spec_member("PublicKey"@, spec_json_str(s.0)), spec_member("Sign"@, spec_bytes_json(s.1))],
    )
}

/// The number a resource type is written as.
pub open spec fn resource_type_number(t: ResourceType) -> int {
    match t {
        ResourceType::CPU => 0,
        ResourceType::MEMORY => 1,
        ResourceType::DISK => 2,
        ResourceType::XFEE => 3,
    }
}

/// The JSON form of a resource limit: `type` as a number unless it is `CPU`,
/// `limit` unless it is zero.
pub open spec fn spec_limit_json(l: ResourceLimit) -> Seq<char> {
    spec_json_object(
        (if l.resource_type != ResourceType::CPU {
            seq![spec_member("type"@, spec_decimal(resource_type_number(l.resource_type)))]
        } else {
            seq![]
        }) + if l.limit != 0 {
            seq![spec_member("limit"@, spec_decimal(l.limit as int))]
        } else {
            seq![]
        },
    )
}

/// The JSON form of a byte map: an object whose members are the entries in
/// the order of their keys, each value as the string literal of its base64.
pub open spec fn spec_args_json(args: Seq<(Seq<char>, Seq<u8>)>) -> Seq<char> {
    spec_json_object(
        canonical_entries(base64_values(args)).map_values(
            |e: (Seq<char>, Seq<char>)| spec_member(e.0, spec_json_str(e.1)),
        ),
    )
}

/// The JSON form of a contract call: `module_name`, `contract_name`,
/// `method_name`, `args` (see `spec_args_json`), `resource_limits` unless
/// there are none, and `amount`.
pub open spec fn spec_request_json(
    q: (Seq<char>, Seq<char>, Seq<char>, Seq<(Seq<char>, Seq<u8>)>, Seq<ResourceLimit>, Seq<char>),
) -> Seq<char> {
    spec_json_object(
        seq![
            spec_member("module_name"@, spec_json_str(q.0)),
            spec_member("contract_name"@, spec_json_str(q.1)),
            spec_member("method_name"@, spec_json_str(q.2)),
            spec_member("args"@, spec_args_json(q.3)),
        ] + (if q.4.len() > 0 {
            seq![spec_member("resource_limits"@, spec_json_array(q.4.map_values(|l: ResourceLimit| spec_limit_json(l))))]
        } else {
            seq![]
        }) + seq![spec_member("amount"@, spec_json_str(q.5))],
    )
}

/// The JSON form of the HD information of a transaction: `null` when there is
/// none, otherwise `hd_public_key` and `original_hash` (see `spec_bytes_json`).
pub open spec fn spec_hd_json(h: Option<(Seq<u8>, Seq<u8>)>) -> Seq<char> {
    match h {
        None => seq!['n', 'u', 'l', 'l'],
        Some(v) => spec_json_object(
            seq![
                spec_member("hd_public_key"@, spec_bytes_json(v.0)),
                spec_member("original_hash"@, spec_bytes_json(v.1)),
            ],
        ),
    }
}

/// A transaction output as it is written into the transaction text.
#[derive(Debug)]
pub struct TxOutputDef {
    pub amount: Vec<u8>,
    pub to_addr: Vec<u8>,
    pub frozen_height: i64,
}

impl View for TxOutputDef {
    type V = (Seq<u8>, Seq<u8>, i64);

    open spec fn view(&self) -> Self::V {
        (self.amount@, self.to_addr@, self.frozen_height)
    }
}

impl TxOutputDef {
    /// The same output.
    pub fn from(to: &TxOutput) -> (r: Self)
        ensures
            r@ == to@,
    {
        TxOutputDef {
            amount: slice_to_vec(to.amount.as_slice()),
            to_addr: slice_to_vec(to.to_addr.as_slice()),
            frozen_height: to.frozen_height,
        }
    }

    /// The JSON form of the output (see `spec_output_json`).
    pub fn to_json(&self) -> (r: String)
        ensures
            r@ == spec_output_json(self@),
    {
        let mut members: Vec<String> = Vec::new();
        let a = bytes_json(&self.amount);
        members.push(json_member("amount", a.as_str()));
        let t = bytes_json(&self.to_addr);
        members.push(json_member("to_addr", t.as_str()));
        if self.frozen_height != 0 {
            let h = decimal_i64(self.frozen_height);
            members.push(json_member("frozen_height", h.as_str()));
        }
        assert(views(members@) =~= seq![
            spec_member("amount"@, spec_bytes_json(self.amount@)),
            spec_member("to_addr"@, spec_bytes_json(self.to_addr@)),
        ] + if self.frozen_height != 0 {
            seq![spec_member("frozen_height"@, spec_decimal(self.frozen_height as int))]
        } else {
            seq![]
        });
        join_enclosed(&members, '{', '}')
    }
}

/// A signature as it is written into the transaction text.
#[allow(non_snake_case)]
#[derive(Debug)]
pub struct SignatureInfoDef {
    pub PublicKey: String,
    pub Sign: Vec<u8>,
}

impl View for SignatureInfoDef {
    type V = (Seq<char>, Seq<u8>);

    open spec fn view(&self) -> Self::V {
        (self.PublicKey@, self.Sign@)
    }
}

impl SignatureInfoDef {
    /// The same signature.
    pub fn from(si: &SignatureInfo) -> (r: Self)
        ensures
            r@ == si@,
    {
        SignatureInfoDef { PublicKey: si.PublicKey.clone(), Sign: slice_to_vec(si.Sign.as_slice()) }
    }

    /// The JSON form of the signature (see `spec_signature_json`).
    pub fn to_json(&self) -> (r: String)
        ensures
            r@ == spec_signature_json(self@),
    {
        let mut members: Vec<String> = Vec::new();
        let p = quoted(self.PublicKey.as_str());
        members.push(json_member("PublicKey", p.as_str()));
        let g = bytes_json(&self.Sign);
        members.push(json_member("Sign", g.as_str()));
        assert(views(members@) =~= seq![
            spec_member("PublicKey"@, spec_json_str(self.PublicKey@)),
            spec_member("Sign"@, spec_bytes_json(self.Sign@)),
        ]);
        join_enclosed(&members, '{', '}')
    }
}


/// The JSON form of a resource limit (see `spec_limit_json`).
fn limit_json(l: &ResourceLimit) -> (r: String)
    ensures
        r@ == spec_limit_json(*l),
{
    let mut members: Vec<String> = Vec::new();
    if !is_CPU(&l.resource_type) {
        let n: i32 = match l.resource_type {
            ResourceType::CPU => 0,
            ResourceType::MEMORY => 1,
            ResourceType::DISK => 2,
            ResourceType::XFEE => 3,
        };
        let t = decimal_i32(n);
        members.push(json_member("type", t.as_str()));
    }
    if !is_zero(&l.limit) {
        let t = decimal_i64(l.limit);
        members.push(json_member("limit", t.as_str()));
    }
    assert(views(members@) =~= (if l.resource_type != ResourceType::CPU {
        seq![spec_member("type"@, spec_decimal(resource_type_number(l.resource_type)))]
    } else {
        seq![]
    }) + if l.limit != 0 {
        seq![spec_member("limit"@, spec_decimal(l.limit as int))]
    } else {
        seq![]
    });
    join_enclosed(&members, '{', '}')
}

/// The JSON form of a byte map (see `spec_args_json`).
fn args_json(args: &Vec<(String, Vec<u8>)>) -> (r: String)
    ensures
        r@ == spec_args_json(byte_entry_views(args@)),
{
    let sorted = serialize_ordered_map(args);
    let ghost target = canonical_entries(base64_values(byte_entry_views(args@))).map_values(
        |e: (Seq<char>, Seq<char>)| spec_member(e.0, spec_json_str(e.1)),
    );
    let mut members: Vec<String> = Vec::new();
    let n = sorted.len();
    for i in 0..n
        invariant
            n == sorted@.len(),
            entry_views(sorted@) == canonical_entries(base64_values(byte_entry_views(args@))),
            target == canonical_entries(base64_values(byte_entry_views(args@))).map_values(
                |e: (Seq<char>, Seq<char>)| spec_member(e.0, spec_json_str(e.1)),
            ),
            views(members@) == target.take(i as int),
    {
        let v = quoted(sorted[i].1.as_str());
        let m = json_member(sorted[i].0.as_str(), v.as_str());
        assert(entry_views(sorted@)[i as int] == (sorted@[i as int].0@, sorted@[i as int].1@));
        proof {
            lemma_views_push(members@, m);
            assert(target.take(i + 1) =~= target.take(i as int).push(target[i as int]));
        }
        members.push(m);
    }
    assert(target.take(n as int) =~= target);
    join_enclosed(&members, '{', '}')
}

/// The JSON form of a contract call (see `spec_request_json`).
fn request_json(q: &InvokeRequest) -> (r: String)
    ensures
        r@ == spec_request_json(q@),
{
    let mut members: Vec<String> = Vec::new();
    let t = quoted(q.module_name.as_str());
    members.push(json_member("module_name", t.as_str()));
    let t = quoted(q.contract_name.as_str());
    members.push(json_member("contract_name", t.as_str()));
    let t = quoted(q.method_name.as_str());
    members.push(json_member("method_name", t.as_str()));
    let t = args_json(&q.args);
    members.push(json_member("args", t.as_str()));
    if !is_empty(&q.resource_limits) {
        let mut limits: Vec<String> = Vec::new();
        for i in 0..q.resource_limits.len()
            invariant
                views(limits@) == q.resource_limits@.take(i as int).map_values(|l: ResourceLimit| spec_limit_json(l)),
        {
            let t = limit_json(&q.resource_limits[i]);
            proof {
                lemma_views_push(limits@, t);
                assert(q.resource_limits@.take(i + 1).map_values(|l: ResourceLimit| spec_limit_json(l))
                    =~= q.resource_limits@.take(i as int).map_values(|l: ResourceLimit| spec_limit_json(l)).push(
                    spec_limit_json(q.resource_limits@[i as int]),
                ));
            }
            limits.push(t);
        }
        assert(q.resource_limits@.take(q.resource_limits@.len() as int) =~= q.resource_limits@);
        let t = join_enclosed(&limits, '[', ']');
        members.push(json_member("resource_limits", t.as_str()));
    }
    let t = quoted(q.amount.as_str());
    members.push(json_member("amount", t.as_str()));
    assert(views(members@) =~= seq![
        spec_member("module_name"@, spec_json_str(q.module_name@)),
        spec_member("contract_name"@, spec_json_str(q.contract_name@)),
        spec_member("method_name"@, spec_json_str(q.method_name@)),
        spec_member("args"@, spec_args_json(byte_entry_views(q.args@))),
    ] + (if q.resource_limits@.len() > 0 {
        seq![spec_member("resource_limits"@, spec_json_array(q.resource_limits@.map_values(|l: ResourceLimit| spec_limit_json(l))))]
    } else {
        seq![]
    }) + seq![spec_member("amount"@, spec_json_str(q.amount@))]);
    join_enclosed(&members, '{', '}')
}

/// The JSON form of the HD information of a transaction (see `spec_hd_json`).
fn hd_json(h: &Option<HDInfo>) -> (r: String)
    ensures
        r@ == spec_hd_json(match h {
            None => None,
            Some(v) => Some(v@),
        }),
{
    match h {
        None => {
            let mut s = String::new();
            string_push(&mut s, 'n');
            string_push(&mut s, 'u');
            string_push(&mut s, 'l');
            string_push(&mut s, 'l');
            assert(s@ =~= seq!['n', 'u', 'l', 'l']);
            s
        },
        Some(v) => {
            let mut members: Vec<String> = Vec::new();
            let t = bytes_json(&v.hd_public_key);
            members.push(json_member("hd_public_key", t.as_str()));
            let t = bytes_json(&v.original_hash);
            members.push(json_member("original_hash", t.as_str()));
            assert(views(members@) =~= seq![
                spec_member("hd_public_key"@, spec_bytes_json(v.hd_public_key@)),
                spec_member("original_hash"@, spec_bytes_json(v.original_hash@)),
            ]);
            join_enclosed(&members, '{', '}')
        },
    }
}


/// The text of a transaction input: `ref_txid`, `ref_offset`, `from_addr`,
/// `amount`, `frozen_height`, each byte field by `spec_encode_bytes` and each
/// number as a decimal line.
pub open spec fn spec_input_text(t: (Seq<u8>, i32, Seq<u8>, Seq<u8>, i64)) -> Seq<char> {
    spec_encode_bytes(t.0) + line(spec_decimal(t.1 as int)) + spec_encode_bytes(t.2)
        + spec_encode_bytes(t.3) + line(spec_decimal(t.4 as int))
}

/// The text of a contract state read: `bucket` as a string line, `key` and
/// `ref_txid` by `spec_encode_bytes`, `ref_offset` as a decimal line.
pub open spec fn spec_input_ext_text(e: (Seq<char>, Seq<u8>, Seq<u8>, i32)) -> Seq<char> {
    line(spec_json_str(e.0)) + spec_encode_bytes(e.1) + spec_encode_bytes(e.2) + line(
        spec_decimal(e.3 as int),
    )
}

/// The text of a contract state write: `bucket` as a string line, `key` and
/// `value` by `spec_encode_bytes`.
pub open spec fn spec_output_ext_text(e: (Seq<char>, Seq<u8>, Seq<u8>)) -> Seq<char> {
    line(spec_json_str(e.0)) + spec_encode_bytes(e.1) + spec_encode_bytes(e.2)
}

/// Appends the text of a transaction input.
fn write_input(t: &TxInput, j: &mut String) -> (r: Result<()>)
    ensures
        r is Ok,
        final(j)@ == old(j)@ + spec_input_text(t@),
{
    encode_bytes(&t.ref_txid, j)?;
    let s = decimal_i32(t.ref_offset);
    push_line(j, s.as_str());
    encode_bytes(&t.from_addr, j)?;
    encode_bytes(&t.amount, j)?;
    let s = decimal_i64(t.frozen_height);
    push_line(j, s.as_str());
    assert(final(j)@ =~= old(j)@ + spec_input_text(t@));
    Ok(())
}

/// Appends the text of a contract state read.
fn write_input_ext(e: &TxInputExt, j: &mut String) -> (r: Result<()>)
    ensures
        r is Ok,
        final(j)@ == old(j)@ + spec_input_ext_text(e@),
{
    let s = quoted(e.bucket.as_str());
    push_line(j, s.as_str());
    encode_bytes(&e.key, j)?;
    encode_bytes(&e.ref_txid, j)?;
    let s = decimal_i32(e.ref_offset);
    push_line(j, s.as_str());
    assert(final(j)@ =~= old(j)@ + spec_input_ext_text(e@));
    Ok(())
}

/// Appends the text of a contract state write.
fn write_output_ext(e: &TxOutputExt, j: &mut String) -> (r: Result<()>)
    ensures
        r is Ok,
        final(j)@ == old(j)@ + spec_output_ext_text(e@),
{
    let s = quoted(e.bucket.as_str());
    push_line(j, s.as_str());
    encode_bytes(&e.key, j)?;
    encode_bytes(&e.value, j)?;
    assert(final(j)@ =~= old(j)@ + spec_output_ext_text(e@));
    Ok(())
}

/// A contract state write as it is written into a JSON string.
#[allow(non_snake_case)]
#[derive(Debug)]
pub struct TxOutputExtDef {
    pub bucket: String,
    pub key: Vec<u8>,
    pub value: Vec<u8>,
}

impl View for TxOutputExtDef {
    type V = (Seq<char>, Seq<u8>, Seq<u8>);

    open spec fn view(&self) -> Self::V {
        (self.bucket@, self.key@, self.value@)
    }
}

impl TxOutputExtDef {
    /// The same state write.
    pub fn from(tie: &TxOutputExt) -> (r: Self)
        ensures
            r@ == tie@,
    {
        TxOutputExtDef {
            bucket: tie.bucket.clone(),
            key: slice_to_vec(tie.key.as_slice()),
            value: slice_to_vec(tie.value.as_slice()),
        }
    }

    /// The text that is handed to a serializer for the state write (which
    /// writes it as one string value): `bucket` as a JSON string literal on a
    /// line, then `key` and `value` by `spec_encode_bytes`.
    pub fn serialize(&self) -> (r: Result<String>)
        ensures
            r matches Ok(j) && j@ == spec_output_ext_text(self@),
    {
        let mut j = String::new();
        let s = quoted(self.bucket.as_str());
        push_line(&mut j, s.as_str());
        encode_bytes(&self.key, &mut j)?;
        encode_bytes(&self.value, &mut j)?;
        assert(j@ =~= spec_output_ext_text(self@));
        Ok(j)
    }
}


/// The text that a transaction's digest (without signatures) and its id
/// (with signatures) are computed from, one line per field, in this order:
/// the inputs (`spec_input_text` each); the JSON array of the outputs; the
/// description (`spec_encode_bytes`); the nonce as a string; the timestamp
/// and the version in decimal; the contract state reads and writes; the
/// contract calls and the required authorizations (`spec_encode_array`); the
/// initiator as a string. With signatures follow the initiator's and the
/// authorizers' signatures (`spec_encode_array`) and, where a multi-signature
/// is present, once more the JSON array of the authorizers' signatures. Then
/// `coinbase` and `autogen`, and from version 3 on the HD information.
pub open spec fn spec_tx_text(
    inputs: Seq<(Seq<u8>, i32, Seq<u8>, Seq<u8>, i64)>,
    outputs: Seq<(Seq<u8>, Seq<u8>, i64)>,
    desc: Seq<u8>,
    nonce: Seq<char>,
    timestamp: i64,
    version: i32,
    inputs_ext: Seq<(Seq<char>, Seq<u8>, Seq<u8>, i32)>,
    outputs_ext: Seq<(Seq<char>, Seq<u8>, Seq<u8>)>,
    requests: Seq<(Seq<char>, Seq<char>, Seq<char>, Seq<(Seq<char>, Seq<u8>)>, Seq<ResourceLimit>, Seq<char>)>,
    initiator: Seq<char>,
    auth_require: Seq<Seq<char>>,
    initiator_signs: Seq<(Seq<char>, Seq<u8>)>,
    auth_require_signs: Seq<(Seq<char>, Seq<u8>)>,
    has_xuper_sign: bool,
    coinbase: bool,
    autogen: bool,
    hd_info: Option<(Seq<u8>, Seq<u8>)>,
    include_signs: bool,
) -> Seq<char> {
    concat_map(inputs, |t: (Seq<u8>, i32, Seq<u8>, Seq<u8>, i64)| spec_input_text(t))
        + spec_header_text(outputs, desc, nonce, timestamp, version)
        + concat_map(inputs_ext, |e: (Seq<char>, Seq<u8>, Seq<u8>, i32)| spec_input_ext_text(e))
        + concat_map(outputs_ext, |e: (Seq<char>, Seq<u8>, Seq<u8>)| spec_output_ext_text(e))
        + spec_calls_text(requests, initiator, auth_require)
        + spec_signatures_text(initiator_signs, auth_require_signs, has_xuper_sign, include_signs)
        + spec_trailer_text(coinbase, autogen, version, hd_info)
}

/// The lines from the outputs to the version: the JSON array of the
/// outputs, the description (`spec_encode_bytes`), the nonce as a string,
/// the timestamp and the version in decimal.
pub open spec fn spec_header_text(
    outputs: Seq<(Seq<u8>, Seq<u8>, i64)>,
    desc: Seq<u8>,
    nonce: Seq<char>,
    timestamp: i64,
    version: i32,
) -> Seq<char> {
    line(spec_json_array(outputs.map_values(|o: (Seq<u8>, Seq<u8>, i64)| spec_output_json(o))))
        + spec_encode_bytes(desc)
        + line(spec_json_str(nonce))
        + line(spec_decimal(timestamp as int))
        + line(spec_decimal(version as int))
}

/// The lines of the contract calls and the required authorizations
/// (`spec_encode_array`), with the initiator as a string between them.
pub open spec fn spec_calls_text(
    requests: Seq<(Seq<char>, Seq<char>, Seq<char>, Seq<(Seq<char>, Seq<u8>)>, Seq<ResourceLimit>, Seq<char>)>,
    initiator: Seq<char>,
    auth_require: Seq<Seq<char>>,
) -> Seq<char> {
    spec_encode_array(requests.map_values(
        |q: (Seq<char>, Seq<char>, Seq<char>, Seq<(Seq<char>, Seq<u8>)>, Seq<ResourceLimit>, Seq<char>)|
            spec_request_json(q),
    )) + line(spec_json_str(initiator)) + spec_encode_array(
        auth_require.map_values(|a: Seq<char>| spec_json_str(a)),
    )
}

/// The lines of the signatures: none without signatures; otherwise the
/// initiator's and the authorizers' signatures (`spec_encode_array`) and,
/// where a multi-signature is present, once more the JSON array of the
/// authorizers' signatures.
pub open spec fn spec_signatures_text(
    initiator_signs: Seq<(Seq<char>, Seq<u8>)>,
    auth_require_signs: Seq<(Seq<char>, Seq<u8>)>,
    has_xuper_sign: bool,
    include_signs: bool,
) -> Seq<char> {
    let init_signs = initiator_signs.map_values(|x: (Seq<char>, Seq<u8>)| spec_signature_json(x));
    let auth_signs = auth_require_signs.map_values(|x: (Seq<char>, Seq<u8>)| spec_signature_json(x));
    if include_signs {
        spec_encode_array(init_signs) + spec_encode_array(auth_signs) + if has_xuper_sign {
            line(spec_json_array(auth_signs))
        } else {
            seq![]
        }
    } else {
        seq![]
    }
}

/// The closing lines: `coinbase` and `autogen`, and from version 3 on the HD
/// information.
pub open spec fn spec_trailer_text(
    coinbase: bool,
    autogen: bool,
    version: i32,
    hd_info: Option<(Seq<u8>, Seq<u8>)>,
) -> Seq<char> {
    line(spec_json_bool(coinbase)) + line(spec_json_bool(autogen)) + if version > 2 {
        line(spec_hd_json(hd_info))
    } else {
        seq![]
    }
}

/// The view of an optional multi-signature.
pub open spec fn xuper_sign_view(x: Option<XuperSignature>) -> Option<(Seq<Seq<char>>, Seq<u8>)> {
    match x {
        None => None,
        Some(v) => Some(v@),
    }
}

/// The view of an optional HD information.
pub open spec fn hd_view(h: Option<HDInfo>) -> Option<(Seq<u8>, Seq<u8>)> {
    match h {
        None => None,
        Some(v) => Some(v@),
    }
}

impl Transaction {
    /// The text of the transaction (see `spec_tx_text`), with or without
    /// the signatures.
    pub open spec fn text(self, include_signs: bool) -> Seq<char> {
        spec_tx_text(
            seq_view(self.tx_inputs@),
            seq_view(self.tx_outputs@),
            self.desc@,
            self.nonce@,
            self.timestamp,
            self.version,
            seq_view(self.tx_inputs_ext@),
            seq_view(self.tx_outputs_ext@),
            seq_view(self.contract_requests@),
            self.initiator@,
            views(self.auth_require@),
            seq_view(self.initiator_signs@),
            seq_view(self.auth_require_signs@),
            self.xuper_sign is Some,
            self.coinbase,
            self.autogen,
            hd_view(self.HD_info),
            include_signs,
        )
    }
}

/// A transaction with its fields as they are written into its text.
#[allow(non_snake_case)]
#[derive(Debug)]
pub struct TransactionDef {
    pub tx_inputs: Vec<TxInput>,
    pub tx_outputs: Vec<TxOutputDef>,
    pub desc: Vec<u8>,
    pub nonce: String,
    pub timestamp: i64,
    pub version: i32,
    pub tx_inputs_ext: Vec<TxInputExt>,
    pub tx_outputs_ext: Vec<TxOutputExt>,
    pub contract_requests: Vec<InvokeRequest>,
    pub initiator: String,
    pub auth_require: Vec<String>,
    pub initiator_signs: Vec<SignatureInfoDef>,
    pub auth_require_signs: Vec<SignatureInfoDef>,
    pub xuper_sign: Option<XuperSignature>,
    pub coinbase: bool,
    pub autogen: bool,
    pub HD_info: Option<HDInfo>,
    pub include_signes: bool,
}

impl TransactionDef {
    /// The text that `serialize` writes (see `spec_tx_text`).
    pub open spec fn text(self) -> Seq<char> {
        spec_tx_text(
            seq_view(self.tx_inputs@),
            seq_view(self.tx_outputs@),
            self.desc@,
            self.nonce@,
            self.timestamp,
            self.version,
            seq_view(self.tx_inputs_ext@),
            seq_view(self.tx_outputs_ext@),
            seq_view(self.contract_requests@),
            self.initiator@,
            views(self.auth_require@),
            seq_view(self.initiator_signs@),
            seq_view(self.auth_require_signs@),
            self.xuper_sign is Some,
            self.coinbase,
            self.autogen,
            hd_view(self.HD_info),
            self.include_signes,
        )
    }
}


impl TransactionDef {
    /// The fields of a transaction, without signatures in its text.
    pub fn from(tx: &Transaction) -> (r: Self)
        ensures
            r.include_signes == false,
            seq_view(r.tx_inputs@) == seq_view(tx.tx_inputs@),
            seq_view(r.tx_outputs@) == seq_view(tx.tx_outputs@),
            r.desc@ == tx.desc@,
            r.nonce@ == tx.nonce@,
            r.timestamp == tx.timestamp,
            r.version == tx.version,
            seq_view(r.tx_inputs_ext@) == seq_view(tx.tx_inputs_ext@),
            seq_view(r.tx_outputs_ext@) == seq_view(tx.tx_outputs_ext@),
            seq_view(r.contract_requests@) == seq_view(tx.contract_requests@),
            r.initiator@ == tx.initiator@,
            views(r.auth_require@) == views(tx.auth_require@),
            seq_view(r.initiator_signs@) == seq_view(tx.initiator_signs@),
            seq_view(r.auth_require_signs@) == seq_view(tx.auth_require_signs@),
            xuper_sign_view(r.xuper_sign) == xuper_sign_view(tx.xuper_sign),
            r.coinbase == tx.coinbase,
            r.autogen == tx.autogen,
            hd_view(r.HD_info) == hd_view(tx.HD_info),
            r.text() == tx.text(false),
    {
        let mut outputs: Vec<TxOutputDef> = Vec::new();
        for i in 0..tx.tx_outputs.len()
            invariant
                outputs@.len() == i,
                forall|k: int| 0 <= k < i ==> #[trigger] outputs@[k]@ == tx.tx_outputs@[k]@,
        {
            outputs.push(TxOutputDef::from(&tx.tx_outputs[i]));
        }
        assert(seq_view(outputs@) =~= seq_view(tx.tx_outputs@));
        let mut init_signs: Vec<SignatureInfoDef> = Vec::new();
        for i in 0..tx.initiator_signs.len()
            invariant
                init_signs@.len() == i,
                forall|k: int| 0 <= k < i ==> #[trigger] init_signs@[k]@ == tx.initiator_signs@[k]@,
        {
            init_signs.push(SignatureInfoDef::from(&tx.initiator_signs[i]));
        }
        assert(seq_view(init_signs@) =~= seq_view(tx.initiator_signs@));
        let mut auth_signs: Vec<SignatureInfoDef> = Vec::new();
        for i in 0..tx.auth_require_signs.len()
            invariant
                auth_signs@.len() == i,
                forall|k: int| 0 <= k < i ==> #[trigger] auth_signs@[k]@ == tx.auth_require_signs@[k]@,
        {
            auth_signs.push(SignatureInfoDef::from(&tx.auth_require_signs[i]));
        }
        assert(seq_view(auth_signs@) =~= seq_view(tx.auth_require_signs@));
        let mut auth: Vec<String> = Vec::new();
        for i in 0..tx.auth_require.len()
            invariant
                auth@.len() == i,
                forall|k: int| 0 <= k < i ==> #[trigger] auth@[k]@ == tx.auth_require@[k]@,
        {
            auth.push(tx.auth_require[i].clone());
        }
        assert(views(auth@) =~= views(tx.auth_require@));
        let xuper_sign = match &tx.xuper_sign {
            None => None,
            Some(x) => Some(x.duplicate()),
        };
        let hd = match &tx.HD_info {
            None => None,
            Some(h) => Some(h.duplicate()),
        };
        let requests = duplicate_all(&tx.contract_requests);
        TransactionDef {
            include_signes: false,
            tx_inputs: duplicate_all(&tx.tx_inputs),
            tx_outputs: outputs,
            desc: slice_to_vec(tx.desc.as_slice()),
            nonce: tx.nonce.clone(),
            timestamp: tx.timestamp,
            version: tx.version,
            tx_inputs_ext: duplicate_all(&tx.tx_inputs_ext),
            tx_outputs_ext: duplicate_all(&tx.tx_outputs_ext),
            contract_requests: requests,
            initiator: tx.initiator.clone(),
            auth_require: auth,
            initiator_signs: init_signs,
            auth_require_signs: auth_signs,
            xuper_sign,
            coinbase: tx.coinbase,
            autogen: tx.autogen,
            HD_info: hd,
        }
    }
}


/// The JSON texts of a list of outputs.
fn outputs_json(v: &Vec<TxOutputDef>) -> (r: Vec<String>)
    ensures
        views(r@) == seq_view(v@).map_values(|o: (Seq<u8>, Seq<u8>, i64)| spec_output_json(o)),
{
    let mut out: Vec<String> = Vec::new();
    for i in 0..v.len()
        invariant
            out@.len() == i,
            forall|k: int| 0 <= k < i ==> #[trigger] out@[k]@ == spec_output_json(v@[k]@),
    {
        out.push(v[i].to_json());
    }
    assert(views(out@) =~= seq_view(v@).map_values(|o: (Seq<u8>, Seq<u8>, i64)| spec_output_json(o)));
    out
}

/// The JSON texts of a list of signatures.
fn signatures_json(v: &Vec<SignatureInfoDef>) -> (r: Vec<String>)
    ensures
        views(r@) == seq_view(v@).map_values(|x: (Seq<char>, Seq<u8>)| spec_signature_json(x)),
{
    let mut out: Vec<String> = Vec::new();
    for i in 0..v.len()
        invariant
            out@.len() == i,
            forall|k: int| 0 <= k < i ==> #[trigger] out@[k]@ == spec_signature_json(v@[k]@),
    {
        out.push(v[i].to_json());
    }
    assert(views(out@) =~= seq_view(v@).map_values(|x: (Seq<char>, Seq<u8>)| spec_signature_json(x)));
    out
}

/// The JSON texts of a list of contract calls.
fn requests_json(v: &Vec<InvokeRequest>) -> (r: Vec<String>)
    ensures
        views(r@) == seq_view(v@).map_values(
            |q: (Seq<char>, Seq<char>, Seq<char>, Seq<(Seq<char>, Seq<u8>)>, Seq<ResourceLimit>, Seq<char>)|
                spec_request_json(q),
        ),
{
    let mut out: Vec<String> = Vec::new();
    for i in 0..v.len()
        invariant
            out@.len() == i,
            forall|k: int| 0 <= k < i ==> #[trigger] out@[k]@ == spec_request_json(v@[k]@),
    {
        out.push(request_json(&v[i]));
    }
    assert(views(out@) =~= seq_view(v@).map_values(
        |q: (Seq<char>, Seq<char>, Seq<char>, Seq<(Seq<char>, Seq<u8>)>, Seq<ResourceLimit>, Seq<char>)|
            spec_request_json(q),
    ));
    out
}

/// The JSON string literals of a list of strings.
fn strings_json(v: &Vec<String>) -> (r: Vec<String>)
    ensures
        views(r@) == views(v@).map_values(|a: Seq<char>| spec_json_str(a)),
{
    let mut out: Vec<String> = Vec::new();
    for i in 0..v.len()
        invariant
            out@.len() == i,
            forall|k: int| 0 <= k < i ==> #[trigger] out@[k]@ == spec_json_str(v@[k]@),
    {
        out.push(quoted(v[i].as_str()));
    }
    assert(views(out@) =~= views(v@).map_values(|a: Seq<char>| spec_json_str(a)));
    out
}

/// The texts of the inputs, one after another.
fn inputs_text(v: &Vec<TxInput>) -> (r: String)
    ensures
        r@ == concat_map(seq_view(v@), |t: (Seq<u8>, i32, Seq<u8>, Seq<u8>, i64)| spec_input_text(t)),
{
    let mut j = String::new();
    let ghost f = |t: (Seq<u8>, i32, Seq<u8>, Seq<u8>, i64)| spec_input_text(t);
    let ghost sv = seq_view(v@);
    assert(sv.take(0) =~= Seq::<(Seq<u8>, i32, Seq<u8>, Seq<u8>, i64)>::empty());
    for i in 0..v.len()
        invariant
            sv == seq_view(v@),
            f == (|t: (Seq<u8>, i32, Seq<u8>, Seq<u8>, i64)| spec_input_text(t)),
            j@ == concat_map(sv.take(i as int), f),
    {
        proof {
            lemma_concat_map_step(sv, f, i as int);
        }
        let _ = write_input(&v[i], &mut j);
    }
    assert(sv.take(sv.len() as int) =~= sv);
    j
}

/// The texts of the contract state reads, one after another.
fn inputs_ext_text(v: &Vec<TxInputExt>) -> (r: String)
    ensures
        r@ == concat_map(seq_view(v@), |e: (Seq<char>, Seq<u8>, Seq<u8>, i32)| spec_input_ext_text(e)),
{
    let mut j = String::new();
    let ghost f = |e: (Seq<char>, Seq<u8>, Seq<u8>, i32)| spec_input_ext_text(e);
    let ghost sv = seq_view(v@);
    assert(sv.take(0) =~= Seq::<(Seq<char>, Seq<u8>, Seq<u8>, i32)>::empty());
    for i in 0..v.len()
        invariant
            sv == seq_view(v@),
            f == (|e: (Seq<char>, Seq<u8>, Seq<u8>, i32)| spec_input_ext_text(e)),
            j@ == concat_map(sv.take(i as int), f),
    {
        proof {
            lemma_concat_map_step(sv, f, i as int);
        }
        let _ = write_input_ext(&v[i], &mut j);
    }
    assert(sv.take(sv.len() as int) =~= sv);
    j
}

/// The texts of the contract state writes, one after another.
fn outputs_ext_text(v: &Vec<TxOutputExt>) -> (r: String)
    ensures
        r@ == concat_map(seq_view(v@), |e: (Seq<char>, Seq<u8>, Seq<u8>)| spec_output_ext_text(e)),
{
    let mut j = String::new();
    let ghost f = |e: (Seq<char>, Seq<u8>, Seq<u8>)| spec_output_ext_text(e);
    let ghost sv = seq_view(v@);
    assert(sv.take(0) =~= Seq::<(Seq<char>, Seq<u8>, Seq<u8>)>::empty());
    for i in 0..v.len()
        invariant
            sv == seq_view(v@),
            f == (|e: (Seq<char>, Seq<u8>, Seq<u8>)| spec_output_ext_text(e)),
            j@ == concat_map(sv.take(i as int), f),
    {
        proof {
            lemma_concat_map_step(sv, f, i as int);
        }
        let _ = write_output_ext(&v[i], &mut j);
    }
    assert(sv.take(sv.len() as int) =~= sv);
    j
}

impl TransactionDef {
    /// The lines from the outputs to the version.
    fn header_text(&self) -> (r: String)
        ensures
            r@ == spec_header_text(seq_view(self.tx_outputs@), self.desc@, self.nonce@, self.timestamp, self.version),
    {
        let mut j = String::new();
        let outs = outputs_json(&self.tx_outputs);
        let s = join_enclosed(&outs, '[', ']');
        push_line(&mut j, s.as_str());
        let _ = encode_bytes(&self.desc, &mut j);
        let s = quoted(self.nonce.as_str());
        push_line(&mut j, s.as_str());
        let s = decimal_i64(self.timestamp);
        push_line(&mut j, s.as_str());
        let s = decimal_i32(self.version);
        push_line(&mut j, s.as_str());
        assert(j@ =~= spec_header_text(seq_view(self.tx_outputs@), self.desc@, self.nonce@, self.timestamp, self.version));
        j
    }

    /// The lines of the contract calls, the initiator and the required
    /// authorizations.
    fn calls_text(&self) -> (r: String)
        ensures
            r@ == spec_calls_text(seq_view(self.contract_requests@), self.initiator@, views(self.auth_require@)),
    {
        let mut j = String::new();
        let reqs = requests_json(&self.contract_requests);
        let _ = encode_array(&reqs, &mut j);
        let s = quoted(self.initiator.as_str());
        push_line(&mut j, s.as_str());
        let auths = strings_json(&self.auth_require);
        let _ = encode_array(&auths, &mut j);
        assert(j@ =~= spec_calls_text(seq_view(self.contract_requests@), self.initiator@, views(self.auth_require@)));
        j
    }

    /// The lines of the signatures, when `include_signes` is set.
    fn signatures_text(&self) -> (r: String)
        ensures
            r@ == spec_signatures_text(seq_view(self.initiator_signs@), seq_view(self.auth_require_signs@), self.xuper_sign is Some, self.include_signes),
    {
        let mut j = String::new();
        if self.include_signes {
            let init_signs = signatures_json(&self.initiator_signs);
            let _ = encode_array(&init_signs, &mut j);
            let auth_signs = signatures_json(&self.auth_require_signs);
            let _ = encode_array(&auth_signs, &mut j);
            if self.xuper_sign.is_some() {
                let s = join_enclosed(&auth_signs, '[', ']');
                push_line(&mut j, s.as_str());
            }
        }
        assert(j@ =~= spec_signatures_text(seq_view(self.initiator_signs@), seq_view(self.auth_require_signs@), self.xuper_sign is Some, self.include_signes));
        j
    }

    /// The closing lines: `coinbase`, `autogen`, and from version 3 on the
    /// HD information.
    fn trailer_text(&self) -> (r: String)
        ensures
            r@ == spec_trailer_text(self.coinbase, self.autogen, self.version, hd_view(self.HD_info)),
    {
        let mut j = String::new();
        let s = bool_text(self.coinbase);
        push_line(&mut j, s.as_str());
        let s = bool_text(self.autogen);
        push_line(&mut j, s.as_str());
        if self.version > 2 {
            let s = hd_json(&self.HD_info);
            push_line(&mut j, s.as_str());
        }
        assert(j@ =~= spec_trailer_text(self.coinbase, self.autogen, self.version, hd_view(self.HD_info)));
        j
    }

    /// Writes the transaction text (see `spec_tx_text`); the signatures are
    /// in it when `include_signes` is set.
    pub fn serialize(&self) -> (r: Result<String>)
        ensures
            r matches Ok(j) && j@ == self.text(),
    {
        let mut j = inputs_text(&self.tx_inputs);
        let s = self.header_text();
        j.append(s.as_str());
        let s = inputs_ext_text(&self.tx_inputs_ext);
        j.append(s.as_str());
        let s = outputs_ext_text(&self.tx_outputs_ext);
        j.append(s.as_str());
        let s = self.calls_text();
        j.append(s.as_str());
        let s = self.signatures_text();
        j.append(s.as_str());
        let s = self.trailer_text();
        j.append(s.as_str());
        assert(j@ == self.text());
        Ok(j)
    }
}


/// The text that a transaction's digest is computed from: its text without
/// the signatures. The digest is what the initiator signs.
pub fn tx_digest_text(tx: &Transaction) -> (r: Result<String>)
    ensures
        r matches Ok(j) && j@ == tx.text(false),
{
    let d = TransactionDef::from(tx);
    d.serialize()
}

/// The text that a transaction's id is computed from: its text with the
/// signatures.
pub fn tx_id_text(tx: &Transaction) -> (r: Result<String>)
    ensures
        r matches Ok(j) && j@ == tx.text(true),
{
    let mut d = TransactionDef::from(tx);
    d.include_signes = true;
    d.serialize()
}


/// The first `u32` that rand's `StdRng` (ChaCha with 12 rounds) yields when
/// seeded with the given 32 bytes.
pub uninterp spec fn std_rng_first_u32(seed: Seq<u8>) -> u32;

/// `StdRng::from_seed` with the 32 bytes, then `next_u32`: the generator is
/// deterministic for a seed, so the result is the name applied to the seed.
#[verifier::external_body]
fn first_u32_of_seed(seed: &[u8]) -> (r: u32)
    requires
        seed@.len() == 32,
    ensures
        r == std_rng_first_u32(seed@),
{
    let mut bytes = [0u8; 32];
    bytes.copy_from_slice(seed);
    let mut rng = <rand::rngs::StdRng as rand_core::SeedableRng>::from_seed(bytes);
    rand_core::RngCore::next_u32(&mut rng)
}

/// `n` (below 10^8) in decimal, padded with zeros on the left to 8 digits.
pub open spec fn spec_pad8(n: u32) -> Seq<char> {
    seq![
        digit_char((n / 10000000 % 10) as nat),
        digit_char((n / 1000000 % 10) as nat),
        digit_char((n / 100000 % 10) as nat),
        digit_char((n / 10000 % 10) as nat),
        digit_char((n / 1000 % 10) as nat),
        digit_char((n / 100 % 10) as nat),
        digit_char((n / 10 % 10) as nat),
        digit_char((n % 10) as nat),
    ]
}

/// `t` in decimal, then `r` (below 10^8) in decimal padded with zeros to 8
/// digits, as `format!("{}{:08}", t, r)` writes them.
fn format_nonce(t: i64, r: u32) -> (s: String)
    requires
        r < 100_000_000,
    ensures
        s@ == spec_decimal(t as int) + spec_pad8(r),
{
    let mut s = String::new();
    push_decimal(t, &mut s);
    let r = r as u64;
    string_push(&mut s, digit_of(r / 10000000 % 10));
    string_push(&mut s, digit_of(r / 1000000 % 10));
    string_push(&mut s, digit_of(r / 100000 % 10));
    string_push(&mut s, digit_of(r / 10000 % 10));
    string_push(&mut s, digit_of(r / 1000 % 10));
    string_push(&mut s, digit_of(r / 100 % 10));
    string_push(&mut s, digit_of(r / 10 % 10));
    string_push(&mut s, digit_of(r % 10));
    assert(s@ =~= spec_decimal(t as int) + spec_pad8(r as u32));
    s
}

/// A nonce: the time `t` in decimal, then the random number `r` reduced
/// below 10^8 and written with 8 digits.
pub open spec fn spec_nonce(t: i64, r: u32) -> Seq<char> {
    spec_decimal(t as int) + spec_pad8((r % 100_000_000) as u32)
}

/// The nonce of the time `t` (in seconds) and the random number `r`.
pub fn nonce_text(t: i64, r: u32) -> (s: String)
    ensures
        s@ == spec_nonce(t, r),
{
    let m: u32 = 100000000;
    format_nonce(t, r % m)
}

/// A fresh nonce: the current time in seconds and the first number of rand's
/// `StdRng` seeded with the first 32 bytes of `seed` (see `spec_nonce`).
/// `None` while the clock reads earlier than the Unix epoch.
pub fn get_nonce(seed: &[u8]) -> (r: Option<String>)
    requires
        seed@.len() >= 32,
    ensures
        r matches Some(n) ==> exists|t: i64| n@ == #[trigger] spec_nonce(t, std_rng_first_u32(seed@.take(32))),
{
    let t = now_as_secs()?;
    let same_seed = vstd::slice::slice_subrange(seed, 0, 32);
    assert(same_seed@ =~= seed@.take(32));
    let r = first_u32_of_seed(same_seed);
    Some(nonce_text(t, r))
}

}

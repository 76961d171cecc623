//! The layout of the transaction text, line by line, stated from the
//! primitive encodings alone.
use vstd::prelude::*;
use crate::encoding::{concat_map, spec_base64, spec_decimal, spec_json_array, spec_json_bool, spec_json_str, views};
use crate::wallet::{
    spec_args_json, spec_limit_json, hd_view, spec_calls_text, spec_hd_json, spec_header_text, spec_output_json, spec_request_json,
    spec_signature_json, spec_signatures_text, spec_trailer_text,
};
use crate::xchain::{seq_view, ResourceLimit, ResourceType, Transaction};

verus! {

/// A byte field: nothing when empty, otherwise its base64 as a string
/// literal and a line break.
pub open spec fn bytes_line(v: Seq<u8>) -> Seq<char> {
    if v.len() == 0 {
        seq![]
    } else {
        spec_json_str(spec_base64(v)) + seq!['\n']
    }
}

/// A number in decimal and a line break.
pub open spec fn number_line(n: int) -> Seq<char> {
    spec_decimal(n) + seq!['\n']
}

/// A string literal and a line break.
pub open spec fn string_line(s: Seq<char>) -> Seq<char> {
    spec_json_str(s) + seq!['\n']
}

/// A list: `null` when empty, otherwise the JSON array; then a line break.
pub open spec fn list_line(elems: Seq<Seq<char>>) -> Seq<char> {
    if elems.len() == 0 {
        seq!['n', 'u', 'l', 'l', '\n']
    } else {
        spec_json_array(elems) + seq!['\n']
    }
}

/// The lines of a transaction input: its `ref_txid`, then its `ref_offset`
/// in decimal, then `from_addr` and `amount`, and last its `frozen_height`
/// in decimal.
pub open spec fn input_lines(t: (Seq<u8>, i32, Seq<u8>, Seq<u8>, i64)) -> Seq<char> {
    bytes_line(t.0) + number_line(t.1 as int) + bytes_line(t.2) + bytes_line(t.3) + number_line(t.4 as int)
}

/// The lines of a contract state read: its bucket as a string, then its
/// `key`, then its `ref_txid`, then its `ref_offset` in decimal.
pub open spec fn state_read_lines(e: (Seq<char>, Seq<u8>, Seq<u8>, i32)) -> Seq<char> {
    string_line(e.0) + bytes_line(e.1) + bytes_line(e.2) + number_line(e.3 as int)
}

/// The lines of a contract state write: its bucket as a string, then its
/// `key`, then its `value`.
pub open spec fn state_write_lines(e: (Seq<char>, Seq<u8>, Seq<u8>)) -> Seq<char> {
    string_line(e.0) + bytes_line(e.1) + bytes_line(e.2)
}

/// The transaction text, line by line: the inputs; the outputs; the
/// description, nonce, timestamp and version; the contract state reads and
/// writes; the contract calls, the initiator and the required
/// authorizations; with signatures, the initiator's and the authorizers'
/// signatures (and once more the authorizers' where a multi-signature is
/// present); `coinbase`, `autogen`; from version 3 on the HD information.
/// The lines from the outputs to the version.
pub open spec fn header_lines(tx: Transaction) -> Seq<char> {
    spec_json_array(seq_view(tx.tx_outputs@).map_values(|o: (Seq<u8>, Seq<u8>, i64)| spec_output_json(o)))
        + seq!['\n'] + bytes_line(tx.desc@) + string_line(tx.nonce@) + number_line(tx.timestamp as int)
        + number_line(tx.version as int)
}

/// The lines of the contract calls, the initiator and the required
/// authorizations.
pub open spec fn call_lines(tx: Transaction) -> Seq<char> {
    list_line(seq_view(tx.contract_requests@).map_values(
        |q: (Seq<char>, Seq<char>, Seq<char>, Seq<(Seq<char>, Seq<u8>)>, Seq<ResourceLimit>, Seq<char>)|
            spec_request_json(q),
    )) + string_line(tx.initiator@) + list_line(views(tx.auth_require@).map_values(|a: Seq<char>| spec_json_str(a)))
}

/// The lines of the signatures: with signatures, the initiator's and the
/// authorizers' lists, and once more the authorizers' where a
/// multi-signature is present; nothing without.
pub open spec fn signature_lines(tx: Transaction, with_signs: bool) -> Seq<char> {
    let auth = seq_view(tx.auth_require_signs@).map_values(|x: (Seq<char>, Seq<u8>)| spec_signature_json(x));
    if with_signs {
        list_line(seq_view(tx.initiator_signs@).map_values(|x: (Seq<char>, Seq<u8>)| spec_signature_json(x)))
            + list_line(auth) + if tx.xuper_sign is Some {
            spec_json_array(auth) + seq!['\n']
        } else {
            seq![]
        }
    } else {
        seq![]
    }
}

/// The closing lines: `coinbase`, `autogen`, and from version 3 on the HD
/// information.
pub open spec fn closing_lines(tx: Transaction) -> Seq<char> {
    spec_json_bool(tx.coinbase) + seq!['\n'] + spec_json_bool(tx.autogen) + seq!['\n'] + if tx.version > 2 {
        spec_hd_json(hd_view(tx.HD_info)) + seq!['\n']
    } else {
        seq![]
    }
}

/// The transaction text, line by line: the inputs (`input_lines` each); the
/// outputs, description, nonce, timestamp and version (`header_lines`); the
/// contract state reads (`state_read_lines` each) and writes
/// (`state_write_lines` each); the contract calls, the initiator and the
/// required authorizations (`call_lines`); with signatures, the signatures
/// (`signature_lines`); then `closing_lines`.
pub proof fn law_transaction_text_layout(tx: Transaction, with_signs: bool)
    ensures
        tx.text(with_signs) == concat_map(seq_view(tx.tx_inputs@), |t: (Seq<u8>, i32, Seq<u8>, Seq<u8>, i64)| input_lines(t))
            + header_lines(tx)
            + concat_map(seq_view(tx.tx_inputs_ext@), |e: (Seq<char>, Seq<u8>, Seq<u8>, i32)| state_read_lines(e))
            + concat_map(seq_view(tx.tx_outputs_ext@), |e: (Seq<char>, Seq<u8>, Seq<u8>)| state_write_lines(e))
            + call_lines(tx) + signature_lines(tx, with_signs) + closing_lines(tx),
{
    lemma_inputs_part(seq_view(tx.tx_inputs@));
    lemma_reads_part(seq_view(tx.tx_inputs_ext@));
    lemma_writes_part(seq_view(tx.tx_outputs_ext@));
    lemma_header_part(tx);
    lemma_calls_part(tx);
    lemma_signatures_part(tx, with_signs);
    lemma_closing_part(tx);
}

proof fn lemma_inputs_part(s: Seq<(Seq<u8>, i32, Seq<u8>, Seq<u8>, i64)>)
    ensures
        concat_map(s, |t: (Seq<u8>, i32, Seq<u8>, Seq<u8>, i64)| crate::wallet::spec_input_text(t))
            == concat_map(s, |t: (Seq<u8>, i32, Seq<u8>, Seq<u8>, i64)| input_lines(t)),
{
    let f1 = |t: (Seq<u8>, i32, Seq<u8>, Seq<u8>, i64)| crate::wallet::spec_input_text(t);
    let f2 = |t: (Seq<u8>, i32, Seq<u8>, Seq<u8>, i64)| input_lines(t);
    assert(f1 =~= f2);
}

proof fn lemma_reads_part(s: Seq<(Seq<char>, Seq<u8>, Seq<u8>, i32)>)
    ensures
        concat_map(s, |e: (Seq<char>, Seq<u8>, Seq<u8>, i32)| crate::wallet::spec_input_ext_text(e))
            == concat_map(s, |e: (Seq<char>, Seq<u8>, Seq<u8>, i32)| state_read_lines(e)),
{
    let f1 = |e: (Seq<char>, Seq<u8>, Seq<u8>, i32)| crate::wallet::spec_input_ext_text(e);
    let f2 = |e: (Seq<char>, Seq<u8>, Seq<u8>, i32)| state_read_lines(e);
    assert(f1 =~= f2);
}

proof fn lemma_writes_part(s: Seq<(Seq<char>, Seq<u8>, Seq<u8>)>)
    ensures
        concat_map(s, |e: (Seq<char>, Seq<u8>, Seq<u8>)| crate::wallet::spec_output_ext_text(e))
            == concat_map(s, |e: (Seq<char>, Seq<u8>, Seq<u8>)| state_write_lines(e)),
{
    let f1 = |e: (Seq<char>, Seq<u8>, Seq<u8>)| crate::wallet::spec_output_ext_text(e);
    let f2 = |e: (Seq<char>, Seq<u8>, Seq<u8>)| state_write_lines(e);
    assert(f1 =~= f2);
}

proof fn lemma_header_part(tx: Transaction)
    ensures
        spec_header_text(seq_view(tx.tx_outputs@), tx.desc@, tx.nonce@, tx.timestamp, tx.version) == header_lines(tx),
{
}

proof fn lemma_calls_part(tx: Transaction)
    ensures
        spec_calls_text(seq_view(tx.contract_requests@), tx.initiator@, views(tx.auth_require@)) == call_lines(tx),
{
    assert(seq!['n', 'u', 'l', 'l'] + seq!['\n'] =~= seq!['n', 'u', 'l', 'l', '\n']);
}

proof fn lemma_signatures_part(tx: Transaction, with_signs: bool)
    ensures
        spec_signatures_text(
            seq_view(tx.initiator_signs@),
            seq_view(tx.auth_require_signs@),
            tx.xuper_sign is Some,
            with_signs,
        ) == signature_lines(tx, with_signs),
{
    assert(seq!['n', 'u', 'l', 'l'] + seq!['\n'] =~= seq!['n', 'u', 'l', 'l', '\n']);
}

proof fn lemma_closing_part(tx: Transaction)
    ensures
        spec_trailer_text(tx.coinbase, tx.autogen, tx.version, hd_view(tx.HD_info)) == closing_lines(tx),
{
}

/// The JSON value of a byte field: `null` when empty, otherwise its base64
/// as a string literal.
pub open spec fn bytes_value(v: Seq<u8>) -> Seq<char> {
    if v.len() == 0 {
        seq!['n', 'u', 'l', 'l']
    } else {
        spec_json_str(spec_base64(v))
    }
}

/// `"name":value`.
pub open spec fn field(name: Seq<char>, value: Seq<char>) -> Seq<char> {
    spec_json_str(name) + seq![':'] + value
}

proof fn lemma_join_two(a: Seq<char>, b: Seq<char>)
    ensures
        crate::encoding::join_comma(seq![a, b]) == a + seq![','] + b,
{
    assert(seq![a, b].drop_last() =~= seq![a]);
    assert(crate::encoding::join_comma(seq![a]) == a);
    assert(seq![a, b].last() == b);
}

proof fn lemma_join_three(a: Seq<char>, b: Seq<char>, c: Seq<char>)
    ensures
        crate::encoding::join_comma(seq![a, b, c]) == a + seq![','] + b + seq![','] + c,
{
    assert(seq![a, b, c].drop_last() =~= seq![a, b]);
    lemma_join_two(a, b);
    assert(seq![a, b, c].last() == c);
}

/// A transaction output is written as `{"amount":..,"to_addr":..}` with
/// `,"frozen_height":n` before the brace when its frozen height is not zero;
/// the byte fields as `bytes_value`.
pub proof fn law_output_json(o: (Seq<u8>, Seq<u8>, i64))
    ensures
        spec_output_json(o) == if o.2 != 0 {
            seq!['{'] + field("amount"@, bytes_value(o.0)) + seq![','] + field("to_addr"@, bytes_value(o.1))
                + seq![','] + field("frozen_height"@, spec_decimal(o.2 as int)) + seq!['}']
        } else {
            seq!['{'] + field("amount"@, bytes_value(o.0)) + seq![','] + field("to_addr"@, bytes_value(o.1)) + seq!['}']
        },
{
    let a = field("amount"@, bytes_value(o.0));
    let t = field("to_addr"@, bytes_value(o.1));
    let h = field("frozen_height"@, spec_decimal(o.2 as int));
    lemma_join_two(a, t);
    lemma_join_three(a, t, h);
    assert(seq![a, t] + seq![h] =~= seq![a, t, h]);
    assert(seq![a, t] + Seq::<Seq<char>>::empty() =~= seq![a, t]);
    if o.2 != 0 {
        assert(spec_output_json(o) =~= seq!['{'] + a + seq![','] + t + seq![','] + h + seq!['}']);
    } else {
        assert(spec_output_json(o) =~= seq!['{'] + a + seq![','] + t + seq!['}']);
    }
}

/// A signature is written as `{"PublicKey":"..","Sign":..}`.
pub proof fn law_signature_json(x: (Seq<char>, Seq<u8>))
    ensures
        spec_signature_json(x) == seq!['{'] + field("PublicKey"@, spec_json_str(x.0)) + seq![',']
            + field("Sign"@, bytes_value(x.1)) + seq!['}'],
{
    let p = field("PublicKey"@, spec_json_str(x.0));
    let g = field("Sign"@, bytes_value(x.1));
    lemma_join_two(p, g);
    assert(spec_signature_json(x) =~= seq!['{'] + p + seq![','] + g + seq!['}']);
}

/// The HD information is written as `null` when absent, otherwise as
/// `{"hd_public_key":..,"original_hash":..}`.
pub proof fn law_hd_json(h: Option<(Seq<u8>, Seq<u8>)>)
    ensures
        spec_hd_json(h) == match h {
            None => seq!['n', 'u', 'l', 'l'],
            Some(v) => seq!['{'] + field("hd_public_key"@, bytes_value(v.0)) + seq![',']
                + field("original_hash"@, bytes_value(v.1)) + seq!['}'],
        },
{
    if let Some(v) = h {
        let p = field("hd_public_key"@, bytes_value(v.0));
        let o = field("original_hash"@, bytes_value(v.1));
        lemma_join_two(p, o);
        assert(spec_hd_json(h) =~= seq!['{'] + p + seq![','] + o + seq!['}']);
    }
}

proof fn lemma_join_push(s: Seq<Seq<char>>, x: Seq<char>)
    requires
        s.len() > 0,
    ensures
        crate::encoding::join_comma(s.push(x)) == crate::encoding::join_comma(s) + seq![','] + x,
{
    assert(s.push(x).drop_last() =~= s);
}

/// The number a resource type is written as: `MEMORY` 1, `DISK` 2, `XFEE` 3
/// (`CPU`, 0, is left out).
pub open spec fn resource_number(t: ResourceType) -> int {
    match t {
        ResourceType::CPU => 0,
        ResourceType::MEMORY => 1,
        ResourceType::DISK => 2,
        ResourceType::XFEE => 3,
    }
}

/// A resource limit is written as an object with `"type":n` unless the type
/// is `CPU`, then `"limit":n` unless the limit is zero.
pub proof fn law_limit_json(l: ResourceLimit)
    ensures
        spec_limit_json(l) == seq!['{'] + (if l.resource_type != ResourceType::CPU && l.limit != 0 {
            field("type"@, spec_decimal(resource_number(l.resource_type))) + seq![',']
                + field("limit"@, spec_decimal(l.limit as int))
        } else if l.resource_type != ResourceType::CPU {
            field("type"@, spec_decimal(resource_number(l.resource_type)))
        } else if l.limit != 0 {
            field("limit"@, spec_decimal(l.limit as int))
        } else {
            seq![]
        }) + seq!['}'],
{
    let t = field("type"@, spec_decimal(resource_number(l.resource_type)));
    let m = field("limit"@, spec_decimal(l.limit as int));
    lemma_join_two(t, m);
    assert(crate::encoding::join_comma(seq![t]) == t);
    assert(crate::encoding::join_comma(seq![m]) == m);
    assert(seq![t] + seq![m] =~= seq![t, m]);
    assert(seq![t] + Seq::<Seq<char>>::empty() =~= seq![t]);
    assert(Seq::<Seq<char>>::empty() + seq![m] =~= seq![m]);
    assert(Seq::<Seq<char>>::empty() + Seq::<Seq<char>>::empty() =~= Seq::<Seq<char>>::empty());
    assert(crate::encoding::join_comma(Seq::<Seq<char>>::empty()) == Seq::<char>::empty());
    assert(Seq::<char>::empty() + seq!['}'] =~= seq!['}']);
    assert(seq!['{'] + Seq::<char>::empty() =~= seq!['{']);
}

/// A contract call is written as `{"module_name":..,"contract_name":..,
/// "method_name":..,"args":..`, then `,"resource_limits":[..]` when it has
/// limits, then `,"amount":..}`.
pub proof fn law_request_json(
    q: (Seq<char>, Seq<char>, Seq<char>, Seq<(Seq<char>, Seq<u8>)>, Seq<ResourceLimit>, Seq<char>),
)
    ensures
        spec_request_json(q) == seq!['{'] + (if q.4.len() > 0 {
            field("module_name"@, spec_json_str(q.0)) + seq![','] + field("contract_name"@, spec_json_str(q.1))
                + seq![','] + field("method_name"@, spec_json_str(q.2)) + seq![','] + field("args"@, spec_args_json(q.3))
                + seq![','] + field(
                "resource_limits"@,
                spec_json_array(q.4.map_values(|l: ResourceLimit| spec_limit_json(l))),
            ) + seq![','] + field("amount"@, spec_json_str(q.5))
        } else {
            field("module_name"@, spec_json_str(q.0)) + seq![','] + field("contract_name"@, spec_json_str(q.1))
                + seq![','] + field("method_name"@, spec_json_str(q.2)) + seq![','] + field("args"@, spec_args_json(q.3))
                + seq![','] + field("amount"@, spec_json_str(q.5))
        }) + seq!['}'],
{
    let m0 = field("module_name"@, spec_json_str(q.0));
    let m1 = field("contract_name"@, spec_json_str(q.1));
    let m2 = field("method_name"@, spec_json_str(q.2));
    let m3 = field("args"@, spec_args_json(q.3));
    let rl = field("resource_limits"@, spec_json_array(q.4.map_values(|l: ResourceLimit| spec_limit_json(l))));
    let am = field("amount"@, spec_json_str(q.5));
    let base = seq![m0, m1, m2, m3];
    lemma_join_two(m0, m1);
    lemma_join_push(seq![m0, m1], m2);
    assert(seq![m0, m1].push(m2) =~= seq![m0, m1, m2]);
    lemma_join_push(seq![m0, m1, m2], m3);
    assert(seq![m0, m1, m2].push(m3) =~= base);
    if q.4.len() > 0 {
        lemma_join_push(base, rl);
        lemma_join_push(base.push(rl), am);
        assert(base + seq![rl] + seq![am] =~= base.push(rl).push(am));
    } else {
        lemma_join_push(base, am);
        assert(base + Seq::<Seq<char>>::empty() + seq![am] =~= base.push(am));
    }
}
}

//! Properties of the library that relate several of its functions.
use vstd::prelude::*;
use crate::bignum::{be_value, canonical_be};
use crate::consts::{lemma_parse_i64_decimal, lemma_str_as_bigint_decimal, spec_epoch_nanos, spec_str_as_bigint};
use vstd::utf8::{decode_utf8, encode_utf8};
use crate::encoding::{digit_char, spec_decimal, spec_hex_decode, spec_hex_encode, hex_lower, hex_value, views};
use crate::ordmap::{
    byte_entry_views, canonical_entries, chars_lt, entry_leq, fold_map, keys_distinct, lemma_entry_leq_total_ordering,
    lemma_fold_map_distinct, lemma_fold_map_dom, lemma_fold_map_value,
};
use crate::rpc::{
    inputs_total, magnitude, outputs_total, spec_change_output, spec_inputs_of, spec_select_utxos, spec_tx_outputs,
    spec_utxo_total,
};
use crate::transfer::{spec_read_amount, spec_transfer_total};
use crate::errors::ErrorKind;
use crate::consts::{all_digits, digits_value, is_ascii_digit};
use crate::wallet::{spec_nonce, spec_pad8, base64_values, encoded_entries, hd_view, map_read_back};
use crate::xchain::{seq_view, Transaction};

verus! {

/// The text that a transaction's digest is computed from does not depend on
/// its signatures or its id: signing a transaction, or adding an
/// endorsement to it, leaves its digest as it was.
pub proof fn law_digest_ignores_signatures(a: Transaction, b: Transaction)
    requires
        seq_view(a.tx_inputs@) == seq_view(b.tx_inputs@),
        seq_view(a.tx_outputs@) == seq_view(b.tx_outputs@),
        a.desc@ == b.desc@,
        a.nonce@ == b.nonce@,
        a.timestamp == b.timestamp,
        a.version == b.version,
        seq_view(a.tx_inputs_ext@) == seq_view(b.tx_inputs_ext@),
        seq_view(a.tx_outputs_ext@) == seq_view(b.tx_outputs_ext@),
        seq_view(a.contract_requests@) == seq_view(b.contract_requests@),
        a.initiator@ == b.initiator@,
        views(a.auth_require@) == views(b.auth_require@),
        a.coinbase == b.coinbase,
        a.autogen == b.autogen,
        hd_view(a.HD_info) == hd_view(b.HD_info),
    ensures
        a.text(false) == b.text(false),
{
}

proof fn lemma_map_values_multiset<A, B>(s: Seq<A>, t: Seq<A>, f: spec_fn(A) -> B)
    requires
        s.to_multiset() == t.to_multiset(),
    ensures
        s.map_values(f).to_multiset() == t.map_values(f).to_multiset(),
    decreases s.len(),
{
    broadcast use vstd::seq_lib::group_to_multiset_ensures;
    broadcast use vstd::multiset::group_multiset_axioms;
    assert(s.to_multiset().len() == s.len());
    assert(t.to_multiset().len() == t.len());
    if s.len() == 0 {
        assert(t.len() == 0);
        assert(s.map_values(f) =~= t.map_values(f));
    } else {
        let x = s.last();
        assert(s.to_multiset().count(x) > 0) by {
            assert(s.contains(x)) by {
                assert(s[s.len() - 1] == x);
            }
        }
        assert(t.contains(x));
        let j = choose|j: int| 0 <= j < t.len() && t[j] == x;
        let s1 = s.drop_last();
        let t1 = t.remove(j);
        assert(s =~= s1.push(x));
        vstd::seq_lib::to_multiset_build(s1, x);
        vstd::seq_lib::to_multiset_remove(t, j);
        assert(s1.to_multiset() =~= t1.to_multiset());
        lemma_map_values_multiset(s1, t1, f);
        assert(s.map_values(f) =~= s1.map_values(f).push(f(x)));
        assert(t.map_values(f) =~= t1.map_values(f).insert(j, f(x)));
        vstd::seq_lib::to_multiset_build(s1.map_values(f), f(x));
        vstd::seq_lib::to_multiset_insert(t1.map_values(f), j, f(x));
    }
}

/// The form a byte map is serialized in depends only on the map's entries,
/// not on the order in which they come (a `HashMap` yields them in an order
/// of its own).
pub proof fn law_ordered_map_order_independent(a: Seq<(String, Vec<u8>)>, b: Seq<(String, Vec<u8>)>)
    requires
        byte_entry_views(a).to_multiset() == byte_entry_views(b).to_multiset(),
    ensures
        canonical_entries(encoded_entries(a)) == canonical_entries(encoded_entries(b)),
{
    let f = |e: (Seq<char>, Seq<u8>)| (e.0, crate::encoding::spec_base64(e.1));
    lemma_map_values_multiset(byte_entry_views(a), byte_entry_views(b), f);
    assert(base64_values(byte_entry_views(a)) == byte_entry_views(a).map_values(f));
    assert(base64_values(byte_entry_views(b)) == byte_entry_views(b).map_values(f));
    let leq = |x: (Seq<char>, Seq<char>), y: (Seq<char>, Seq<char>)| entry_leq(x, y);
    lemma_entry_leq_total_ordering();
    let ea = encoded_entries(a);
    let eb = encoded_entries(b);
    ea.lemma_sort_by_ensures(leq);
    eb.lemma_sort_by_ensures(leq);
    vstd::seq_lib::lemma_sorted_unique(ea.sort_by(leq), eb.sort_by(leq), leq);
}

proof fn lemma_be_value_canonical(n: nat)
    ensures
        be_value(canonical_be(n)) == n,
    decreases n,
{
    let c = canonical_be(n);
    if n < 256 {
        assert(c.drop_last() =~= Seq::<u8>::empty());
        assert(c.last() == n as u8);
        assert((n as u8) as nat == n);
        assert(be_value(c.drop_last()) == 0);
        assert(be_value(c) == be_value(c.drop_last()) * 256 + c.last() as nat);
    } else {
        lemma_be_value_canonical(n / 256);
        assert(c.drop_last() =~= canonical_be(n / 256));
        assert(c.last() == (n % 256) as u8);
        assert(((n % 256) as u8) as nat == n % 256);
        assert(n == (n / 256) * 256 + n % 256);
        assert(be_value(c.drop_last()) == n / 256);
        assert(be_value(c) == be_value(c.drop_last()) * 256 + c.last() as nat);
    }
}

/// The change a payment returns, added to what the payment needs, is the
/// total of the unspent outputs it spends.
pub proof fn law_change_balances(total: int, need: int, address: Seq<char>)
    requires
        total > need,
    ensures
        be_value(spec_change_output(total, need, address).0) + need == total,
{
    lemma_be_value_canonical((total - need) as nat);
}

proof fn lemma_hex_digit(i: int)
    requires
        0 <= i < 16,
    ensures
        hex_value(hex_lower(i)) == Some(i as u8),
{
}

/// A transaction id written in hexadecimal reads back as the same id.
pub proof fn law_txid_hex_roundtrip(b: Seq<u8>)
    ensures
        spec_hex_decode(spec_hex_encode(b)) == Some(b),
    decreases b.len(),
{
    if b.len() > 0 {
        let e = spec_hex_encode(b);
        law_txid_hex_roundtrip(b.drop_first());
        lemma_hex_digit(b[0] as int / 16);
        lemma_hex_digit(b[0] as int % 16);
        assert(e.subrange(2, e.len() as int) =~= spec_hex_encode(b.drop_first()));
        assert(b =~= seq![b[0]] + b.drop_first());
    }
}

/// An amount written in decimal reads back as the same amount.
pub proof fn law_amount_decimal_roundtrip(n: i64)
    requires
        n >= 0,
    ensures
        spec_read_amount(spec_decimal(n as int)) == Ok::<i64, crate::errors::ErrorKind>(n),
{
    lemma_parse_i64_decimal(n);
}

/// A number of any size written in decimal reads back as the same number.
pub proof fn law_bigint_decimal_roundtrip(n: int)
    ensures
        spec_str_as_bigint(spec_decimal(n)) == Some(n),
{
    lemma_str_as_bigint_decimal(n);
}

/// A sequence of entries with no key twice has no element twice.
proof fn lemma_distinct_keys_no_duplicates(e: Seq<(Seq<char>, Seq<char>)>)
    requires
        forall|i: int, j: int| 0 <= i < e.len() && 0 <= j < e.len() && i != j ==> #[trigger] e[i].0 != #[trigger] e[j].0,
    ensures
        e.no_duplicates(),
{
    assert forall|i: int, j: int| 0 <= i < e.len() && 0 <= j < e.len() && i != j implies e[i] != e[j] by {
        assert(e[i].0 != e[j].0);
    }
}

/// A rearrangement of entries with no key twice has no key twice.
proof fn lemma_permutation_keeps_keys_distinct(s: Seq<(Seq<char>, Seq<char>)>, e: Seq<(Seq<char>, Seq<char>)>)
    requires
        s.to_multiset() == e.to_multiset(),
        forall|i: int, j: int| 0 <= i < e.len() && 0 <= j < e.len() && i != j ==> #[trigger] e[i].0 != #[trigger] e[j].0,
    ensures
        forall|i: int, j: int| 0 <= i < s.len() && 0 <= j < s.len() && i != j ==> #[trigger] s[i].0 != #[trigger] s[j].0,
{
    broadcast use vstd::seq_lib::group_to_multiset_ensures;
    broadcast use vstd::multiset::group_multiset_axioms;
    lemma_distinct_keys_no_duplicates(e);
    e.lemma_multiset_has_no_duplicates();
    s.lemma_multiset_has_no_duplicates_conv();
    assert forall|i: int, j: int| 0 <= i < s.len() && 0 <= j < s.len() && i != j implies #[trigger] s[i].0 != #[trigger] s[j].0 by {
        assert(s.contains(s[i]));
        assert(s.contains(s[j]));
        assert(s.to_multiset().count(s[i]) > 0);
        assert(s.to_multiset().count(s[j]) > 0);
        assert(e.to_multiset().count(s[i]) > 0);
        assert(e.to_multiset().count(s[j]) > 0);
        assert(e.contains(s[i]));
        assert(e.contains(s[j]));
        let p = choose|p: int| 0 <= p < e.len() && e[p] == s[i];
        let q = choose|q: int| 0 <= q < e.len() && e[q] == s[j];
        assert(s[i] != s[j]);
    }
}

/// What `serialize_ordered_map` writes for any byte map is read back by
/// `deserialize_ordered_map` without error: every value of the map that the
/// written entries fold into is the base64 text of some bytes, which is what
/// that function needs to return `Ok`.
pub proof fn law_ordered_map_written_reads(a: Seq<(String, Vec<u8>)>)
    ensures
        forall|k: Seq<char>| #[trigger] fold_map(canonical_entries(encoded_entries(a))).dom().contains(k)
            ==> exists|x: Seq<u8>| #[trigger] crate::encoding::spec_base64(x)
                == fold_map(canonical_entries(encoded_entries(a)))[k],
{
    broadcast use vstd::seq_lib::group_to_multiset_ensures;
    let e = encoded_entries(a);
    let leq = |x: (Seq<char>, Seq<char>), y: (Seq<char>, Seq<char>)| entry_leq(x, y);
    lemma_entry_leq_total_ordering();
    e.lemma_sort_by_ensures(leq);
    let s = canonical_entries(e);
    let m = fold_map(s);
    lemma_fold_map_value(s);
    assert forall|k: Seq<char>| #[trigger] m.dom().contains(k) implies exists|x: Seq<u8>|
        #[trigger] crate::encoding::spec_base64(x) == m[k] by {
        let j = choose|j: int| 0 <= j < s.len() && s[j].0 == k && s[j].1 == m[k];
        assert(s.contains(s[j]));
        assert(s.to_multiset().count(s[j]) > 0);
        assert(e.to_multiset().count(s[j]) > 0);
        assert(e.contains(s[j]));
        let i = choose|i: int| 0 <= i < e.len() && e[i] == s[j];
        assert(e[i] == (a[i].0@, crate::encoding::spec_base64(a[i].1@)));
        assert(crate::encoding::spec_base64(a[i].1@) == m[k]);
    }
}

/// Reading back a serialized byte map gives the map: the entries that
/// `deserialize_ordered_map` returns (it succeeds, by
/// `law_ordered_map_written_reads`) from the entries that
/// `serialize_ordered_map` wrote for a map, no key occurring twice in it as
/// in any map, are the map's entries, each key once with its bytes.
pub proof fn law_ordered_map_roundtrip(a: Seq<(String, Vec<u8>)>, back: Seq<(String, Vec<u8>)>)
    requires
        keys_distinct(a),
        map_read_back(fold_map(canonical_entries(encoded_entries(a))), back),
    ensures
        back.len() == a.len(),
        forall|j: int| 0 <= j < a.len() ==> exists|i: int|
            0 <= i < back.len() && #[trigger] back[i].0@ == #[trigger] a[j].0@ && back[i].1@ == a[j].1@,
        forall|i: int| 0 <= i < back.len() ==> exists|j: int|
            0 <= j < a.len() && #[trigger] back[i].0@ == #[trigger] a[j].0@ && back[i].1@ == a[j].1@,
{
    broadcast use vstd::seq_lib::group_to_multiset_ensures;
    broadcast use vstd::set::group_set_axioms;
    let e = encoded_entries(a);
    let leq = |x: (Seq<char>, Seq<char>), y: (Seq<char>, Seq<char>)| entry_leq(x, y);
    lemma_entry_leq_total_ordering();
    e.lemma_sort_by_ensures(leq);
    let s = canonical_entries(e);
    let m = fold_map(s);
    assert(e.len() == a.len());
    assert forall|j: int| 0 <= j < e.len() implies #[trigger] e[j] == (a[j].0@, crate::encoding::spec_base64(a[j].1@)) by {}
    assert forall|i: int, j: int| 0 <= i < e.len() && 0 <= j < e.len() && i != j implies #[trigger] e[i].0 != #[trigger] e[j].0 by {
        assert(e[i].0 == a[i].0@ && e[j].0 == a[j].0@);
    }
    lemma_permutation_keeps_keys_distinct(s, e);
    lemma_fold_map_distinct(s);
    lemma_fold_map_dom(s);
    // Each entry of the map is one of the serialized entries.
    assert forall|j: int| 0 <= j < a.len() implies m.dom().contains(#[trigger] a[j].0@)
        && m[a[j].0@] == crate::encoding::spec_base64(a[j].1@) by {
        assert(e.contains(e[j]));
        assert(e.to_multiset().count(e[j]) > 0);
        assert(s.to_multiset().count(e[j]) > 0);
        assert(s.contains(e[j]));
        let i = choose|i: int| 0 <= i < s.len() && s[i] == e[j];
        assert(m.dom().contains(s[i].0) && m[s[i].0] == s[i].1);
    }
    // The map's keys are the keys of `a`.
    let keys = a.map_values(|x: (String, Vec<u8>)| x.0@);
    assert(keys.no_duplicates()) by {
        assert forall|p: int, q: int| 0 <= p < keys.len() && 0 <= q < keys.len() && p != q implies keys[p] != keys[q] by {
            assert(keys[p] == a[p].0@ && keys[q] == a[q].0@);
        }
    }
    assert(m.dom() =~= keys.to_set()) by {
        assert forall|k: Seq<char>| m.dom().contains(k) <==> keys.to_set().contains(k) by {
            if m.dom().contains(k) {
                let i = choose|i: int| 0 <= i < s.len() && s[i].0 == k;
                assert(s.contains(s[i]));
                assert(s.to_multiset().count(s[i]) > 0);
                assert(e.to_multiset().count(s[i]) > 0);
                assert(e.contains(s[i]));
                let j = choose|j: int| 0 <= j < e.len() && e[j] == s[i];
                assert(keys[j] == k);
                assert(keys.contains(k));
            }
            if keys.to_set().contains(k) {
                assert(keys.contains(k));
                let j = choose|j: int| 0 <= j < keys.len() && keys[j] == k;
                assert(a[j].0@ == k);
            }
        }
    }
    keys.unique_seq_to_set();
    assert(back.len() == a.len());
    // Every entry read back is an entry of `a`.
    assert forall|i: int| 0 <= i < back.len() implies exists|j: int|
        0 <= j < a.len() && #[trigger] back[i].0@ == #[trigger] a[j].0@ && back[i].1@ == a[j].1@ by {
        let k = back[i].0@;
        assert(m.dom().contains(k));
        assert(keys.to_set().contains(k));
        assert(keys.contains(k));
        let j = choose|j: int| 0 <= j < keys.len() && keys[j] == k;
        assert(a[j].0@ == k);
        assert(m[a[j].0@] == crate::encoding::spec_base64(a[j].1@));
        assert(crate::encoding::spec_base64(a[j].1@) == m[back[i].0@]);
    }
    // Every key of `a` is read back: the keys read back are as many as the
    // map's, all distinct and all among them.
    let bkeys = back.map_values(|x: (String, Vec<u8>)| x.0@);
    assert(bkeys.no_duplicates()) by {
        assert forall|p: int, q: int| 0 <= p < bkeys.len() && 0 <= q < bkeys.len() && p != q implies bkeys[p] != bkeys[q] by {
            assert(bkeys[p] == back[p].0@ && bkeys[q] == back[q].0@);
        }
    }
    bkeys.unique_seq_to_set();
    assert(bkeys.to_set().subset_of(m.dom())) by {
        assert forall|k: Seq<char>| bkeys.to_set().contains(k) implies m.dom().contains(k) by {
            assert(bkeys.contains(k));
            let i = choose|i: int| 0 <= i < bkeys.len() && bkeys[i] == k;
            assert(m.dom().contains(back[i].0@));
        }
    }
    vstd::set_lib::lemma_subset_equality(bkeys.to_set(), m.dom());
    assert forall|j: int| 0 <= j < a.len() implies exists|i: int|
        0 <= i < back.len() && #[trigger] back[i].0@ == #[trigger] a[j].0@ && back[i].1@ == a[j].1@ by {
        let k = a[j].0@;
        assert(m.dom().contains(k));
        assert(bkeys.to_set().contains(k));
        assert(bkeys.contains(k));
        let i = choose|i: int| 0 <= i < bkeys.len() && bkeys[i] == k;
        assert(back[i].0@ == k);
        assert(crate::encoding::spec_base64(a[j].1@) == m[back[i].0@]);
    }
}

proof fn lemma_outputs_total_append(a: Seq<(Seq<u8>, Seq<u8>, i64)>, b: Seq<(Seq<u8>, Seq<u8>, i64)>)
    ensures
        outputs_total(a + b) == outputs_total(a) + outputs_total(b),
    decreases b.len(),
{
    if b.len() > 0 {
        lemma_outputs_total_append(a, b.drop_last());
        assert((a + b).drop_last() =~= a + b.drop_last());
        assert((a + b).last() == b.last());
    } else {
        assert(a + b =~= a);
    }
}

proof fn lemma_inputs_total_of_utxos(sel: Seq<(Seq<u8>, Seq<u8>, Seq<u8>, i32)>)
    ensures
        inputs_total(spec_inputs_of(sel)) == spec_utxo_total(sel),
    decreases sel.len(),
{
    if sel.len() > 0 {
        lemma_inputs_total_of_utxos(sel.drop_last());
        assert(spec_inputs_of(sel).drop_last() =~= spec_inputs_of(sel.drop_last()));
    }
}

/// A payment spends what it pays: where the selected unspent outputs cover
/// the amount and the fee, the amounts of the outputs of the transaction
/// that `gen_real_tx` composes (to the payee, the fee, and the change back
/// to the account) add up to the amounts of its inputs.
pub proof fn law_payment_conserves_value(
    sel: Seq<(Seq<u8>, Seq<u8>, Seq<u8>, i32)>,
    to: Seq<char>,
    amount: Seq<char>,
    fee: Seq<char>,
    address: Seq<char>,
)
    requires
        to.len() > 0,
        address.len() > 0,
        spec_str_as_bigint(amount) matches Some(a) && a >= 0,
        spec_str_as_bigint(fee) matches Some(f) && f >= 0,
        spec_utxo_total(sel) >= spec_str_as_bigint(amount)->0 + spec_str_as_bigint(fee)->0,
    ensures
        ({
            let need = spec_str_as_bigint(amount)->0 + spec_str_as_bigint(fee)->0;
            let change = spec_change_output(spec_utxo_total(sel) as int, need, address);
            outputs_total(spec_tx_outputs(to, amount, fee)->0 + if change.1.len() > 0 {
                seq![change]
            } else {
                seq![]
            }) == inputs_total(spec_inputs_of(sel))
        }),
{
    let a = spec_str_as_bigint(amount)->0;
    let f = spec_str_as_bigint(fee)->0;
    let total = spec_utxo_total(sel) as int;
    let change = spec_change_output(total, a + f, address);
    let tail: Seq<(Seq<u8>, Seq<u8>, i64)> = if change.1.len() > 0 { seq![change] } else { seq![] };
    let outs = spec_tx_outputs(to, amount, fee)->0;
    lemma_inputs_total_of_utxos(sel);
    lemma_be_value_canonical(magnitude(a));
    lemma_be_value_canonical(magnitude(f));
    let pays_fee = fee.len() > 0 && fee != seq!['0'];
    let first = seq![(canonical_be(magnitude(a)), encode_utf8(to), 0i64)];
    assert(outputs_total(first) == a) by {
        assert(first.drop_last() =~= Seq::<(Seq<u8>, Seq<u8>, i64)>::empty());
        assert(outputs_total(first.drop_last()) == 0);
        assert(magnitude(a) == a);
    }
    if pays_fee {
        let second = seq![(canonical_be(magnitude(f)), seq![36u8], 0i64)];
        assert(outs == first + second);
        lemma_outputs_total_append(first, second);
        assert(outputs_total(second) == f) by {
            assert(second.drop_last() =~= Seq::<(Seq<u8>, Seq<u8>, i64)>::empty());
            assert(outputs_total(second.drop_last()) == 0);
            assert(magnitude(f) == f);
        }
    } else {
        assert(outs == first);
        if fee.len() > 0 {
            assert(fee =~= seq!['0']);
        }
        assert(f == 0);
    }
    assert(outputs_total(outs) == a + f);
    lemma_outputs_total_append(outs, tail);
    if total > a + f {
        assert(change.1 == encode_utf8(address));
        assert(change.1.len() > 0) by {
            if change.1.len() == 0 {
                assert(change.1 =~= Seq::<u8>::empty());
                vstd::utf8::encode_utf8_decode_utf8(address);
                assert(decode_utf8(Seq::<u8>::empty()) =~= Seq::<char>::empty());
            }
        }
        lemma_be_value_canonical((total - (a + f)) as nat);
        assert(outputs_total(tail) == total - (a + f)) by {
            assert(tail.drop_last() =~= Seq::<(Seq<u8>, Seq<u8>, i64)>::empty());
            assert(outputs_total(tail.drop_last()) == 0);
            assert(tail.last() == change);
        }
    } else {
        assert(change.1.len() == 0);
        assert(outputs_total(tail) == 0);
    }
}

/// For one reading of the clock, `secs` seconds and `nanos` nanoseconds after
/// the Unix epoch, the whole seconds reported are the nanoseconds reported
/// divided by 10^9, as long as the nanoseconds fit in an `i64` (until the
/// year 2262).
pub proof fn law_seconds_are_whole_nanoseconds(secs: u64, nanos: u32)
    requires
        nanos < 1_000_000_000,
        secs as int * 1_000_000_000 + nanos as int <= i64::MAX,
    ensures
        spec_epoch_nanos(secs, nanos) as int / 1_000_000_000 == secs as i64,
        spec_epoch_nanos(secs, nanos) as int == secs as int * 1_000_000_000 + nanos as int,
{
    let total: int = secs as int * 1_000_000_000 + nanos as int;
    assert(0 <= total <= i64::MAX) by (nonlinear_arith)
        requires
            total == secs as int * 1_000_000_000 + nanos as int,
            total <= i64::MAX,
    ;
    assert(spec_epoch_nanos(secs, nanos) as int == total);
    assert(secs as int <= i64::MAX) by (nonlinear_arith)
        requires
            secs as int * 1_000_000_000 + nanos as int <= i64::MAX,
    ;
    assert(total / 1_000_000_000 == secs as int) by (nonlinear_arith)
        requires
            total == secs as int * 1_000_000_000 + nanos as int,
            0 <= nanos < 1_000_000_000,
            secs >= 0,
    ;
}

/// `a` comes before `b` in the lexicographic order of characters by code
/// point: `a` is a proper prefix of `b`, or at the first position where
/// they differ `a` has the smaller character. The length of a key decides
/// nothing beyond that.
pub open spec fn lexicographically_before(a: Seq<char>, b: Seq<char>) -> bool {
    ||| (a.len() < b.len() && b.take(a.len() as int) == a)
    ||| exists|i: int| 0 <= i < a.len() && i < b.len() && a.take(i) == b.take(i) && (#[trigger] a[i] as u32) < (b[i] as u32)
}

/// The order in which `serialize_ordered_map` writes keys (and in which
/// `str_less` compares strings) is the lexicographic order of `String`'s
/// `Ord`.
pub proof fn law_key_order_is_lexicographic(a: Seq<char>, b: Seq<char>)
    ensures
        chars_lt(a, b) == lexicographically_before(a, b),
    decreases a.len(),
{
    if a.len() == 0 {
        if b.len() > 0 {
            assert(b.take(0) =~= a);
        }
    } else if b.len() == 0 {
    } else if a[0] != b[0] {
        if a.len() < b.len() && b.take(a.len() as int) == a {
            assert(b.take(a.len() as int)[0] == b[0]);
        }
        if (a[0] as u32) < (b[0] as u32) {
            assert(a.take(0) =~= b.take(0));
            assert(a.take(0) == b.take(0) && (a[0] as u32) < (b[0] as u32));
        }
        assert forall|i: int| 0 <= i < a.len() && i < b.len() && a.take(i) == b.take(i) && (#[trigger] a[i] as u32) < (b[i] as u32) implies i == 0 by {
            if i > 0 {
                assert(a.take(i)[0] == b.take(i)[0]);
            }
        }
    } else {
        let a1 = a.drop_first();
        let b1 = b.drop_first();
        law_key_order_is_lexicographic(a1, b1);
        // The prefix case moves down one character.
        if a.len() < b.len() && b.take(a.len() as int) == a {
            assert(b1.take(a1.len() as int) =~= a1) by {
                assert forall|k: int| 0 <= k < a1.len() implies #[trigger] b1.take(a1.len() as int)[k] == a1[k] by {
                    assert(b.take(a.len() as int)[k + 1] == a[k + 1]);
                }
            }
        }
        if a1.len() < b1.len() && b1.take(a1.len() as int) == a1 {
            assert(b.take(a.len() as int) =~= a) by {
                assert forall|k: int| 0 <= k < a.len() implies #[trigger] b.take(a.len() as int)[k] == a[k] by {
                    if k > 0 {
                        assert(b1.take(a1.len() as int)[k - 1] == a1[k - 1]);
                    }
                }
            }
        }
        // So does the case of a first difference.
        if exists|i: int| 0 <= i < a.len() && i < b.len() && a.take(i) == b.take(i) && (#[trigger] a[i] as u32) < (b[i] as u32) {
            let i = choose|i: int| 0 <= i < a.len() && i < b.len() && a.take(i) == b.take(i) && (#[trigger] a[i] as u32) < (b[i] as u32);
            assert(i > 0);
            assert(a1.take(i - 1) =~= b1.take(i - 1)) by {
                assert forall|k: int| 0 <= k < i - 1 implies #[trigger] a1.take(i - 1)[k] == b1.take(i - 1)[k] by {
                    assert(a.take(i)[k + 1] == b.take(i)[k + 1]);
                }
            }
            assert(a1[i - 1] == a[i] && b1[i - 1] == b[i]);
        }
        if exists|i: int| 0 <= i < a1.len() && i < b1.len() && a1.take(i) == b1.take(i) && (#[trigger] a1[i] as u32) < (b1[i] as u32) {
            let i = choose|i: int| 0 <= i < a1.len() && i < b1.len() && a1.take(i) == b1.take(i) && (#[trigger] a1[i] as u32) < (b1[i] as u32);
            assert(a.take(i + 1) =~= b.take(i + 1)) by {
                assert forall|k: int| 0 <= k < i + 1 implies #[trigger] a.take(i + 1)[k] == b.take(i + 1)[k] by {
                    if k > 0 {
                        assert(a1.take(i)[k - 1] == b1.take(i)[k - 1]);
                    }
                }
            }
            assert(a[i + 1] == a1[i] && b[i + 1] == b1[i]);
        }
    }
}

/// A payment whose compliance-check service fee is greater than the amount
/// paid is refused with `InvalidArguments`, whatever its own fee; so is a
/// negative service fee. Otherwise, unless the total leaves the range of
/// `i64`, the total asked for is the amount, the fee and the service fee
/// together.
pub proof fn law_transfer_service_fee_within_amount(amount: Seq<char>, fee: Seq<char>, service_fee: i32)
    requires
        spec_read_amount(amount) is Ok,
        spec_read_amount(fee) is Ok,
    ensures
        (service_fee > spec_read_amount(amount)->Ok_0 || service_fee < 0) ==> spec_transfer_total(amount, fee, service_fee)
            == Err::<i64, ErrorKind>(ErrorKind::InvalidArguments),
        (0 <= service_fee <= spec_read_amount(amount)->Ok_0
            && spec_read_amount(amount)->Ok_0 + spec_read_amount(fee)->Ok_0 + service_fee <= i64::MAX)
            ==> (spec_transfer_total(amount, fee, service_fee) matches Ok(t)
            && t == spec_read_amount(amount)->Ok_0 + spec_read_amount(fee)->Ok_0 + service_fee),
{
}

proof fn lemma_digit_char_value(d: nat)
    requires
        d < 10,
    ensures
        is_ascii_digit(digit_char(d)),
        ((digit_char(d) as u32) - 48) as nat == d,
{
}

/// The nonce of a time `t` and a random number `r` is the decimal text of
/// `t` followed by exactly eight ASCII digits, which read as a number give
/// `r` modulo 10^8.
pub proof fn law_nonce_ends_in_eight_digits_of_r(t: i64, r: u32)
    ensures
        spec_nonce(t, r).len() == spec_decimal(t as int).len() + 8,
        spec_nonce(t, r).take(spec_decimal(t as int).len() as int) == spec_decimal(t as int),
        all_digits(spec_nonce(t, r).skip(spec_decimal(t as int).len() as int)),
        digits_value(spec_nonce(t, r).skip(spec_decimal(t as int).len() as int)) == r % 100_000_000,
{
    let x: u32 = (r % 100_000_000) as u32;
    let p = spec_pad8(x);
    let d = spec_decimal(t as int);
    assert(spec_nonce(t, r) == d + p);
    assert((d + p).take(d.len() as int) =~= d);
    assert((d + p).skip(d.len() as int) =~= p);
    let d7 = (x / 10000000 % 10) as nat;
    let d6 = (x / 1000000 % 10) as nat;
    let d5 = (x / 100000 % 10) as nat;
    let d4 = (x / 10000 % 10) as nat;
    let d3 = (x / 1000 % 10) as nat;
    let d2 = (x / 100 % 10) as nat;
    let d1 = (x / 10 % 10) as nat;
    let d0 = (x % 10) as nat;
    lemma_digit_char_value(d7);
    lemma_digit_char_value(d6);
    lemma_digit_char_value(d5);
    lemma_digit_char_value(d4);
    lemma_digit_char_value(d3);
    lemma_digit_char_value(d2);
    lemma_digit_char_value(d1);
    lemma_digit_char_value(d0);
    assert forall|i: int| 0 <= i < p.len() implies #[trigger] is_ascii_digit(p[i]) by {}
    assert(p.take(1) =~= seq![digit_char(d7)]);
    assert(p.take(2).drop_last() =~= p.take(1));
    assert(p.take(3).drop_last() =~= p.take(2));
    assert(p.take(4).drop_last() =~= p.take(3));
    assert(p.take(5).drop_last() =~= p.take(4));
    assert(p.take(6).drop_last() =~= p.take(5));
    assert(p.take(7).drop_last() =~= p.take(6));
    assert(p.take(8) =~= p);
    assert(p.drop_last() =~= p.take(7));
    assert(p.take(1).drop_last() =~= Seq::<char>::empty());
    assert(digits_value(Seq::<char>::empty()) == 0);
    assert(p.take(1).last() == digit_char(d7));
    assert(digits_value(p.take(1)) == d7);
    assert(digits_value(p.take(2)) == d7 * 10 + d6);
    assert(digits_value(p.take(3)) == (d7 * 10 + d6) * 10 + d5);
    assert(digits_value(p.take(4)) == ((d7 * 10 + d6) * 10 + d5) * 10 + d4);
    assert(digits_value(p.take(5)) == (((d7 * 10 + d6) * 10 + d5) * 10 + d4) * 10 + d3);
    assert(digits_value(p.take(6)) == ((((d7 * 10 + d6) * 10 + d5) * 10 + d4) * 10 + d3) * 10 + d2);
    assert(digits_value(p.take(7)) == (((((d7 * 10 + d6) * 10 + d5) * 10 + d4) * 10 + d3) * 10 + d2) * 10 + d1);
    assert(digits_value(p) == ((((((d7 * 10 + d6) * 10 + d5) * 10 + d4) * 10 + d3) * 10 + d2) * 10 + d1) * 10 + d0);
    let y0 = x as int;
    let y1 = y0 / 10;
    let y2 = y1 / 10;
    let y3 = y2 / 10;
    let y4 = y3 / 10;
    let y5 = y4 / 10;
    let y6 = y5 / 10;
    let y7 = y6 / 10;
    assert(y2 == y0 / 100) by (nonlinear_arith) requires y1 == y0 / 10, y2 == y1 / 10, y0 >= 0;
    assert(y3 == y0 / 1000) by (nonlinear_arith) requires y2 == y0 / 100, y3 == y2 / 10, y0 >= 0;
    assert(y4 == y0 / 10000) by (nonlinear_arith) requires y3 == y0 / 1000, y4 == y3 / 10, y0 >= 0;
    assert(y5 == y0 / 100000) by (nonlinear_arith) requires y4 == y0 / 10000, y5 == y4 / 10, y0 >= 0;
    assert(y6 == y0 / 1000000) by (nonlinear_arith) requires y5 == y0 / 100000, y6 == y5 / 10, y0 >= 0;
    assert(y7 == y0 / 10000000) by (nonlinear_arith) requires y6 == y0 / 1000000, y7 == y6 / 10, y0 >= 0;
    assert(y7 < 10);
}

/// The unspent outputs that the real transaction spends, chosen from the
/// outputs of the compliance-check transaction `txid`: each is an output
/// of that transaction paying `owner`, with its amount and its offset; the
/// offsets increase; and every output paying `owner` is chosen.
proof fn lemma_select_utxos(outs: Seq<(Seq<u8>, Seq<u8>, i64)>, owner: Seq<u8>, txid: Seq<u8>)
    requires
        outs.len() <= i32::MAX,
    ensures
        ({
            let sel = spec_select_utxos(outs, owner, txid);
            &&& forall|k: int| 0 <= k < sel.len() ==> {
                &&& 0 <= (#[trigger] sel[k]).3 < outs.len()
                &&& sel[k].2 == txid
                &&& sel[k].1 == owner
                &&& outs[sel[k].3 as int].1 == owner
                &&& sel[k].0 == outs[sel[k].3 as int].0
            }
            &&& forall|k1: int, k2: int| 0 <= k1 < k2 < sel.len() ==> (#[trigger] sel[k1]).3 < (#[trigger] sel[k2]).3
            &&& forall|j: int| 0 <= j < outs.len() && (#[trigger] outs[j]).1 == owner ==> exists|k: int|
                0 <= k < sel.len() && sel[k].3 == j
        }),
    decreases outs.len(),
{
    if outs.len() > 0 {
        let d = outs.drop_last();
        lemma_select_utxos(d, owner, txid);
        let prev = spec_select_utxos(d, owner, txid);
        let sel = spec_select_utxos(outs, owner, txid);
        assert forall|j: int| 0 <= j < d.len() implies #[trigger] d[j] == outs[j] by {}
        let n = outs.len() - 1;
        assert(forall|k: int| 0 <= k < prev.len() ==> (#[trigger] prev[k]).3 < n);
        if outs.last().1 == owner {
            assert(sel == prev.push((outs.last().0, outs.last().1, txid, n as i32)));
            assert(sel[prev.len() as int].3 == n);
            assert forall|j: int| 0 <= j < outs.len() && (#[trigger] outs[j]).1 == owner implies exists|k: int|
                0 <= k < sel.len() && sel[k].3 == j by {
                if j < n {
                    assert(d[j].1 == owner);
                    let k = choose|k: int| 0 <= k < prev.len() && prev[k].3 == j;
                    assert(sel[k] == prev[k]);
                } else {
                    assert(sel[prev.len() as int].3 == j);
                }
            }
        } else {
            assert forall|j: int| 0 <= j < outs.len() && (#[trigger] outs[j]).1 == owner implies exists|k: int|
                0 <= k < sel.len() && sel[k].3 == j by {
                assert(j < n);
                assert(d[j].1 == owner);
            }
        }
    }
}

/// The inputs of the transaction that `gen_real_tx` composes spend exactly
/// the outputs of the compliance-check transaction `txid` that pay the
/// initiator (`owner`), in the order of their offsets: each input refers to
/// `txid` and to the offset of such an output, comes from `owner`, carries
/// that output's amount and is not frozen; and every output paying `owner`
/// is spent by one of them.
pub proof fn law_real_tx_spends_initiators_outputs(
    outs: Seq<(Seq<u8>, Seq<u8>, i64)>,
    owner: Seq<u8>,
    txid: Seq<u8>,
)
    requires
        outs.len() <= i32::MAX,
    ensures
        ({
            let ins = spec_inputs_of(spec_select_utxos(outs, owner, txid));
            &&& forall|k: int| 0 <= k < ins.len() ==> {
                &&& (#[trigger] ins[k]).0 == txid
                &&& 0 <= ins[k].1 < outs.len()
                &&& outs[ins[k].1 as int].1 == owner
                &&& ins[k].2 == owner
                &&& ins[k].3 == outs[ins[k].1 as int].0
                &&& ins[k].4 == 0
            }
            &&& forall|k1: int, k2: int| 0 <= k1 < k2 < ins.len() ==> (#[trigger] ins[k1]).1 < (#[trigger] ins[k2]).1
            &&& forall|j: int| 0 <= j < outs.len() && (#[trigger] outs[j]).1 == owner ==> exists|k: int|
                0 <= k < ins.len() && ins[k].1 == j
        }),
{
    lemma_select_utxos(outs, owner, txid);
    let sel = spec_select_utxos(outs, owner, txid);
    let ins = spec_inputs_of(sel);
    assert forall|k: int| 0 <= k < ins.len() implies #[trigger] ins[k] == (sel[k].2, sel[k].3, sel[k].1, sel[k].0, 0i64) by {}
    assert forall|k1: int, k2: int| 0 <= k1 < k2 < ins.len() implies (#[trigger] ins[k1]).1 < (#[trigger] ins[k2]).1 by {
        assert(ins[k1].1 == sel[k1].3 && ins[k2].1 == sel[k2].3);
    }
    assert forall|j: int| 0 <= j < outs.len() && (#[trigger] outs[j]).1 == owner implies exists|k: int|
        0 <= k < ins.len() && ins[k].1 == j by {
        let k = choose|k: int| 0 <= k < sel.len() && sel[k].3 == j;
        assert(ins[k].1 == sel[k].3);
    }
}

/// The outputs a payment makes: when `to` is not empty, a first output to
/// `to` (its UTF-8 bytes) of the amount's magnitude (as big-endian bytes of
/// that value); when the fee is neither empty nor `0`, a last output to `$`
/// of the fee's magnitude; nothing else, and none of them frozen.
pub proof fn law_payment_outputs(to: Seq<char>, amount: Seq<char>, fee: Seq<char>)
    requires
        to.len() > 0 ==> spec_str_as_bigint(amount) is Some,
        spec_str_as_bigint(fee) is Some,
    ensures
        ({
            let outs = spec_tx_outputs(to, amount, fee)->0;
            let pays = to.len() > 0;
            let charges = fee.len() > 0 && fee != seq!['0'];
            &&& spec_tx_outputs(to, amount, fee) is Some
            &&& outs.len() == (if pays { 1int } else { 0int }) + (if charges { 1int } else { 0int })
            &&& pays ==> outs[0].1 == encode_utf8(to) && be_value(outs[0].0) == magnitude(spec_str_as_bigint(amount)->0)
                && outs[0].2 == 0
            &&& charges ==> outs[outs.len() - 1].1 == seq![36u8]
                && be_value(outs[outs.len() - 1].0) == magnitude(spec_str_as_bigint(fee)->0)
                && outs[outs.len() - 1].2 == 0
        }),
{
    if to.len() > 0 {
        lemma_be_value_canonical(magnitude(spec_str_as_bigint(amount)->0));
    }
    lemma_be_value_canonical(magnitude(spec_str_as_bigint(fee)->0));
}

}

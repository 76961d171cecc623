use xuper_rust_sdk::errors::ErrorKind;
use xuper_rust_sdk::wallet::{
    deserialize_bytes, deserialize_bytes_arr, deserialize_ordered_map, encode_array, encode_bytes,
    is_empty, is_zero, is_CPU, nonce_text, serialize_bytes, serialize_bytes_arr,
    serialize_ordered_map, tx_digest_text, tx_id_text, Account, MyMapVisitor, SignatureInfoDef,
    TransactionDef, TxOutputDef, TxOutputExtDef,
};
use xuper_rust_sdk::xchain::{
    InvokeRequest, ResourceLimit, ResourceType, SignatureInfo, Transaction, TxInput, TxOutput,
    TxOutputExt, XuperSignature,
};

#[test]
fn test_load_account() {
    // The address is derived from the key file by the key-handling code of
    // the client; the library's account keeps the address it is given.
    let path = "key/private.key";
    let address = String::from("dpzuVdosQrF2kmzumhVeFQZa1aYcdgFpN");
    let acc = Account::new(path, "counter", "XC1111111111000000@xuper", address.clone());
    println!("{:?}", acc);
    assert_eq!(acc.address, address);
    assert_eq!(acc.contract_name, "counter");
    assert_eq!(acc.contract_account, "XC1111111111000000@xuper");
    assert_eq!(acc.path, path);
}

fn sample_tx() -> Transaction {
    let mut tx = Transaction::default();
    tx.tx_inputs.push(TxInput {
        ref_txid: vec![1, 2, 3],
        ref_offset: 0,
        from_addr: b"alice".to_vec(),
        amount: vec![100],
        frozen_height: 0,
    });
    tx.tx_outputs.push(TxOutput { amount: vec![60], to_addr: b"bob".to_vec(), frozen_height: 0 });
    tx.desc = b"hi".to_vec();
    tx.nonce = String::from("n1");
    tx.timestamp = 5;
    tx.version = 1;
    tx.initiator = String::from("alice");
    tx.auth_require = vec![String::from("x")];
    tx
}

const SAMPLE_DIGEST_TEXT: &str = "\"AQID\"\n0\n\"YWxpY2U=\"\n\"ZA==\"\n0\n[{\"amount\":\"PA==\",\"to_addr\":\"Ym9i\"}]\n\"aGk=\"\n\"n1\"\n5\n1\nnull\n\"alice\"\n[\"x\"]\nfalse\nfalse\n";

#[test]
fn digest_text_of_sample_transaction() {
    let tx = sample_tx();
    assert_eq!(tx_digest_text(&tx).unwrap(), SAMPLE_DIGEST_TEXT);
}

#[test]
fn id_text_adds_signatures() {
    let mut tx = sample_tx();
    tx.initiator_signs.push(SignatureInfo { PublicKey: String::from("pk"), Sign: vec![7] });
    let expected = "\"AQID\"\n0\n\"YWxpY2U=\"\n\"ZA==\"\n0\n[{\"amount\":\"PA==\",\"to_addr\":\"Ym9i\"}]\n\"aGk=\"\n\"n1\"\n5\n1\nnull\n\"alice\"\n[\"x\"]\n[{\"PublicKey\":\"pk\",\"Sign\":\"Bw==\"}]\nnull\nfalse\nfalse\n";
    assert_eq!(tx_id_text(&tx).unwrap(), expected);
    // The digest leaves the signatures out.
    assert_eq!(tx_digest_text(&tx).unwrap(), SAMPLE_DIGEST_TEXT);
}

#[test]
fn id_text_repeats_authorizer_signatures_with_multisignature() {
    let mut tx = sample_tx();
    tx.auth_require_signs.push(SignatureInfo { PublicKey: String::from("k"), Sign: vec![] });
    tx.xuper_sign = Some(XuperSignature { public_keys: vec![], signature: vec![1] });
    let text = tx_id_text(&tx).unwrap();
    assert!(text.contains("null\n[{\"PublicKey\":\"k\",\"Sign\":null}]\n[{\"PublicKey\":\"k\",\"Sign\":null}]\nfalse\nfalse\n"));
}

#[test]
fn digest_text_with_contract_call_and_state() {
    let mut tx = sample_tx();
    tx.contract_requests.push(InvokeRequest {
        module_name: String::from("wasm"),
        contract_name: String::from("c"),
        method_name: String::from("m"),
        args: vec![(String::from("b"), vec![1]), (String::from("a"), vec![2])],
        resource_limits: vec![
            ResourceLimit { resource_type: ResourceType::CPU, limit: 0 },
            ResourceLimit { resource_type: ResourceType::MEMORY, limit: 10 },
        ],
        amount: String::from("0"),
    });
    tx.tx_outputs_ext.push(TxOutputExt { bucket: String::from("bk"), key: vec![1], value: vec![] });
    tx.version = 3;
    let text = tx_digest_text(&tx).unwrap();
    let expected = "\"AQID\"\n0\n\"YWxpY2U=\"\n\"ZA==\"\n0\n[{\"amount\":\"PA==\",\"to_addr\":\"Ym9i\"}]\n\"aGk=\"\n\"n1\"\n5\n3\n\"bk\"\n\"AQ==\"\n[{\"module_name\":\"wasm\",\"contract_name\":\"c\",\"method_name\":\"m\",\"args\":{\"a\":\"Ag==\",\"b\":\"AQ==\"},\"resource_limits\":[{},{\"type\":1,\"limit\":10}],\"amount\":\"0\"}]\n\"alice\"\n[\"x\"]\nfalse\nfalse\nnull\n";
    assert_eq!(text, expected);
}

#[test]
fn transaction_def_serialize_matches_digest_text() {
    let tx = sample_tx();
    let d = TransactionDef::from(&tx);
    assert!(!d.include_signes);
    assert_eq!(d.serialize().unwrap(), SAMPLE_DIGEST_TEXT);
}

#[test]
fn encode_bytes_writes_base64_line() {
    let mut buf = String::from("x");
    encode_bytes(&vec![1, 2, 3], &mut buf).unwrap();
    assert_eq!(buf, "x\"AQID\"\n");
    encode_bytes(&vec![], &mut buf).unwrap();
    assert_eq!(buf, "x\"AQID\"\n");
}

#[test]
fn encode_array_null_when_empty() {
    let mut buf = String::new();
    encode_array(&vec![], &mut buf).unwrap();
    assert_eq!(buf, "null\n");
    encode_array(&vec![String::from("1"), String::from("\"a\"")], &mut buf).unwrap();
    assert_eq!(buf, "null\n[1,\"a\"]\n");
}

#[test]
fn serialize_bytes_empty_is_none() {
    assert_eq!(serialize_bytes(&vec![]), None);
    assert_eq!(serialize_bytes(&b"counter".to_vec()), Some(String::from("Y291bnRlcg==")));
}

#[test]
fn bytes_roundtrip() {
    let v = vec![0u8, 255, 17, 3];
    let s = serialize_bytes(&v).unwrap();
    assert_eq!(deserialize_bytes(&s).unwrap(), v);
}

#[test]
fn deserialize_bytes_rejects_bad_text() {
    assert_eq!(deserialize_bytes("!!!!"), Err(ErrorKind::Base64Error));
    assert_eq!(deserialize_bytes("aGk=").unwrap(), b"hi".to_vec());
}

#[test]
fn bytes_arr_forms() {
    let v = vec![vec![1u8], vec![2u8]];
    assert_eq!(serialize_bytes_arr(&v), vec![String::from("AQ=="), String::from("Ag==")]);
    assert_eq!(deserialize_bytes_arr(None).unwrap(), Vec::<Vec<u8>>::new());
    assert_eq!(deserialize_bytes_arr(Some(b"aGk=".to_vec())).unwrap(), vec![b"hi".to_vec()]);
    assert_eq!(deserialize_bytes_arr(Some(b"?".to_vec())), Err(ErrorKind::Base64Error));
}

#[test]
fn field_predicates() {
    assert!(is_zero(&0));
    assert!(!is_zero(&-3));
    assert!(is_CPU(&ResourceType::CPU));
    assert!(!is_CPU(&ResourceType::DISK));
    assert!(is_empty::<u8>(&vec![]));
    assert!(!is_empty(&vec![1]));
}

#[test]
fn ordered_map_sorts_by_key() {
    let m = vec![(String::from("b"), vec![1u8]), (String::from("a"), vec![2u8])];
    let r = serialize_ordered_map(&m);
    assert_eq!(r, vec![(String::from("a"), String::from("Ag==")), (String::from("b"), String::from("AQ=="))]);
}

#[test]
fn ordered_map_ignores_entry_order() {
    let m1 = vec![
        (String::from("zeta"), vec![1u8]),
        (String::from("alpha"), vec![2u8]),
        (String::from("ab"), vec![3u8]),
    ];
    let m2 = vec![
        (String::from("ab"), vec![3u8]),
        (String::from("zeta"), vec![1u8]),
        (String::from("alpha"), vec![2u8]),
    ];
    assert_eq!(serialize_ordered_map(&m1), serialize_ordered_map(&m2));
    assert_eq!(serialize_ordered_map(&m1)[0].0, "ab");
}

#[test]
fn map_visitor_keeps_last_value() {
    let v = MyMapVisitor::new();
    let r = v.visit_map(&vec![
        (String::from("k"), String::from("1")),
        (String::from("j"), String::from("2")),
        (String::from("k"), String::from("3")),
    ]);
    assert_eq!(r.len(), 2);
    assert!(r.contains(&(String::from("k"), String::from("3"))));
    assert!(r.contains(&(String::from("j"), String::from("2"))));
}

#[test]
fn ordered_map_roundtrip() {
    let m = vec![(String::from("b"), vec![1u8, 2]), (String::from("a"), vec![])];
    let s = serialize_ordered_map(&m);
    let mut back = deserialize_ordered_map(&s).unwrap();
    back.sort();
    assert_eq!(back, vec![(String::from("a"), vec![]), (String::from("b"), vec![1u8, 2])]);
}

#[test]
fn deserialize_ordered_map_rejects_bad_value() {
    let r = deserialize_ordered_map(&vec![(String::from("a"), String::from("%%"))]);
    assert_eq!(r, Err(ErrorKind::Base64Error));
}

#[test]
fn output_def_json() {
    let o = TxOutputDef::from(&TxOutput { amount: vec![1], to_addr: vec![], frozen_height: 7 });
    assert_eq!(o.to_json(), "{\"amount\":\"AQ==\",\"to_addr\":null,\"frozen_height\":7}");
}

#[test]
fn signature_def_json_escapes() {
    let s = SignatureInfoDef::from(&SignatureInfo { PublicKey: String::from("a\"b\n\u{1}"), Sign: vec![] });
    assert_eq!(s.to_json(), "{\"PublicKey\":\"a\\\"b\\n\\u0001\",\"Sign\":null}");
}

#[test]
fn output_ext_def_text() {
    let d = TxOutputExtDef::from(&TxOutputExt { bucket: String::from("b"), key: vec![1], value: vec![2] });
    assert_eq!(d.serialize().unwrap(), "\"b\"\n\"AQ==\"\n\"Ag==\"\n");
}

#[test]
fn nonce_is_time_and_eight_digits() {
    assert_eq!(nonce_text(1600000000, 123), "160000000000000123");
    assert_eq!(nonce_text(7, 4294967295), "794967295");
    assert_eq!(nonce_text(0, 100000000), "000000000");
    assert_eq!(nonce_text(-5, 3), "-500000003");
    assert_eq!(nonce_text(i64::MIN, 99999999), "-922337203685477580899999999");
}

use xuper_rust_sdk::config::{CommConfig, ComplianceCheckConfig};
use xuper_rust_sdk::errors::ErrorKind;
use xuper_rust_sdk::rpc::{
    decode_txid, encode_txid, post_tx_outcome, query_tx_outcome, ChainClient, Message, Session,
};
use xuper_rust_sdk::wallet::Account;
use xuper_rust_sdk::xchain::{
    ContractResponse, InvokeRPCRequest, InvokeRequest, InvokeResponse,
    PreExecWithSelectUTXORequest, PreExecWithSelectUTXOResponse, SignatureInfo, Transaction,
    TxInput, TxInputExt, TxOutput, TxOutputExt, Utxo, UtxoOutput,
};

fn check_config() -> ComplianceCheckConfig {
    ComplianceCheckConfig {
        is_need_compliance_check: true,
        is_need_compliance_fee: true,
        compliance_check_endorse_service_fee: 10,
        compliance_check_endorse_service_fee_addr: String::from("feeaddr"),
        compliance_check_endorse_service_addr: String::from("svcaddr"),
    }
}

fn comm_config() -> CommConfig {
    CommConfig {
        node: String::from("127.0.0.1"),
        node_port: 37101,
        endorse_port: 8848,
        compliance_check: check_config(),
        min_new_chain_amount: String::from("100"),
        crypto: String::from("default"),
    }
}

fn account() -> Account {
    Account {
        contract_name: String::from("counter"),
        contract_account: String::new(),
        address: String::from("me"),
        path: String::from("key/private.key"),
    }
}

fn message(to: &str, amount: &str, fee: &str) -> Message {
    Message {
        to: String::from(to),
        amount: String::from(amount),
        fee: String::from(fee),
        desc: String::new(),
        frozen_height: 0,
        invoke_rpc_req: InvokeRPCRequest::default(),
        pre_sel_utxo_req: PreExecWithSelectUTXORequest::default(),
        initiator: String::from("alice"),
        auth_require: vec![String::from("svcaddr")],
    }
}

fn output(amount: Vec<u8>, to: &str) -> TxOutput {
    TxOutput { amount, to_addr: to.as_bytes().to_vec(), frozen_height: 0 }
}

#[test]
fn chain_client_takes_node_from_config() {
    let c = ChainClient::new(&String::from("xuper"), &comm_config());
    assert_eq!(c.chain_name, "xuper");
    assert_eq!(c.node, "127.0.0.1");
    assert_eq!(c.endorse_port, 8848);
    assert_eq!(c.node_port, 37101);
}

#[test]
fn session_holds_its_parts() {
    let c = ChainClient::new(&String::from("xuper"), &comm_config());
    let a = account();
    let m = message("bob", "1", "0");
    let s = Session::new(&c, &a, &m);
    assert_eq!(s.client.chain_name, "xuper");
    assert_eq!(s.account.address, "me");
    assert_eq!(s.msg.to, "bob");
}

#[test]
fn check_resp_code_rejects_status_above_400() {
    let c = ChainClient::new(&String::from("xuper"), &comm_config());
    let a = account();
    let m = message("", "0", "0");
    let s = Session::new(&c, &a, &m);
    let ok = ContractResponse { status: 200, message: String::new(), body: vec![] };
    let edge = ContractResponse { status: 400, message: String::new(), body: vec![] };
    let bad = ContractResponse { status: 401, message: String::from("no"), body: vec![] };
    assert_eq!(s.check_resp_code(&[ok.clone(), edge.clone()]), Ok(()));
    assert_eq!(s.check_resp_code(&[]), Ok(()));
    assert_eq!(s.check_resp_code(&[ok, bad, edge]), Err(ErrorKind::ContractCodeGT400));
}

#[test]
fn generate_tx_output_pays_amount_and_fee() {
    let c = ChainClient::new(&String::from("xuper"), &comm_config());
    let a = account();
    let m = message("", "0", "0");
    let s = Session::new(&c, &a, &m);
    let outs = s.generate_tx_output(&String::from("bob"), &String::from("300"), "10").unwrap();
    assert_eq!(outs, vec![output(vec![1, 44], "bob"), output(vec![10], "$")]);
    // No payee and no fee: no outputs, and the amount is not read.
    let outs = s.generate_tx_output(&String::new(), &String::from("junk"), "0").unwrap();
    assert!(outs.is_empty());
    let outs = s.generate_tx_output(&String::new(), &String::new(), "").unwrap();
    assert!(outs.is_empty());
    // A zero amount is the single byte 0.
    let outs = s.generate_tx_output(&String::from("bob"), &String::from("0"), "0").unwrap();
    assert_eq!(outs, vec![output(vec![0], "bob")]);
    // A negative amount pays its magnitude.
    let outs = s.generate_tx_output(&String::from("bob"), &String::from("-5"), "").unwrap();
    assert_eq!(outs, vec![output(vec![5], "bob")]);
}

#[test]
fn generate_tx_output_errors() {
    let c = ChainClient::new(&String::from("xuper"), &comm_config());
    let a = account();
    let m = message("", "0", "0");
    let s = Session::new(&c, &a, &m);
    assert_eq!(s.generate_tx_output(&String::from("bob"), &String::from("3x"), "0"), Err(ErrorKind::ParseError));
    assert_eq!(s.generate_tx_output(&String::new(), &String::from("1"), "ten"), Err(ErrorKind::ParseError));
}

#[test]
fn generate_tx_input_spends_and_returns_change() {
    let c = ChainClient::new(&String::from("xuper"), &comm_config());
    let a = account();
    let m = message("", "0", "0");
    let s = Session::new(&c, &a, &m);
    let utxos = UtxoOutput {
        utxoList: vec![
            Utxo { amount: vec![60], toAddr: b"me".to_vec(), refTxid: vec![1], refOffset: 0 },
            Utxo { amount: vec![40], toAddr: b"me".to_vec(), refTxid: vec![2], refOffset: 3 },
        ],
        totalSelected: String::from("100"),
    };
    let need = xuper_rust_sdk::consts::str_as_bigint("30").unwrap();
    let (ins, change) = s.generate_tx_input(&utxos, &need).unwrap();
    assert_eq!(
        ins,
        vec![
            TxInput { ref_txid: vec![1], ref_offset: 0, from_addr: b"me".to_vec(), amount: vec![60], frozen_height: 0 },
            TxInput { ref_txid: vec![2], ref_offset: 3, from_addr: b"me".to_vec(), amount: vec![40], frozen_height: 0 },
        ]
    );
    assert_eq!(change, output(vec![70], "me"));
    // Exactly enough: no change.
    let need = xuper_rust_sdk::consts::str_as_bigint("100").unwrap();
    let (_, change) = s.generate_tx_input(&utxos, &need).unwrap();
    assert_eq!(change, TxOutput::default());
    // A total that cannot be read.
    let bad = UtxoOutput { utxoList: vec![], totalSelected: String::from("1e3") };
    assert_eq!(s.generate_tx_input(&bad, &need).unwrap_err(), ErrorKind::ParseError);
}

fn pre_exec_response(total: &str) -> PreExecWithSelectUTXOResponse {
    PreExecWithSelectUTXOResponse {
        bcname: String::from("xuper"),
        response: Some(InvokeResponse {
            inputs: vec![TxInputExt { bucket: String::from("b"), key: vec![1], ref_txid: vec![2], ref_offset: 0 }],
            outputs: vec![TxOutputExt { bucket: String::from("b"), key: vec![1], value: vec![3] }],
            response: vec![],
            gas_used: 5,
            requests: vec![InvokeRequest::default()],
            responses: vec![],
        }),
        utxoOutput: UtxoOutput {
            utxoList: vec![Utxo { amount: vec![25], toAddr: b"alice".to_vec(), refTxid: vec![7], refOffset: 1 }],
            totalSelected: String::from(total),
        },
    }
}

#[test]
fn compliance_check_tx_pays_service_fee() {
    let c = ChainClient::new(&String::from("xuper"), &comm_config());
    let a = account();
    let m = message("bob", "5", "1");
    let s = Session::new(&c, &a, &m);
    let tx = s.gen_compliance_check_tx(&pre_exec_response("25"), &check_config(), 99, String::from("n")).unwrap();
    assert_eq!(tx.desc, b"compliance check tx".to_vec());
    assert_eq!(tx.version, 1);
    assert_eq!(tx.timestamp, 99);
    assert_eq!(tx.nonce, "n");
    assert_eq!(tx.initiator, "alice");
    assert_eq!(tx.tx_inputs.len(), 1);
    assert_eq!(tx.tx_inputs[0].ref_txid, vec![7]);
    assert_eq!(tx.tx_outputs, vec![output(vec![10], "feeaddr"), output(vec![15], "me")]);
    assert!(tx.initiator_signs.is_empty() && tx.txid.is_empty());
    assert_eq!(
        s.gen_compliance_check_tx(&pre_exec_response("x"), &check_config(), 0, String::new()).unwrap_err(),
        ErrorKind::ParseError
    );
}

#[test]
fn real_tx_spends_the_initiators_outputs() {
    let c = ChainClient::new(&String::from("xuper"), &comm_config());
    let a = account();
    let m = message("bob", "5", "1");
    let s = Session::new(&c, &a, &m);
    let mut cctx = Transaction::default();
    cctx.txid = vec![9];
    cctx.tx_outputs = vec![output(vec![10], "feeaddr"), output(vec![15], "alice")];
    let resp = pre_exec_response("25");
    let tx = s.gen_real_tx(&resp, &cctx, 42, String::from("nonce")).unwrap();
    assert_eq!(
        tx.tx_inputs,
        vec![TxInput { ref_txid: vec![9], ref_offset: 1, from_addr: b"alice".to_vec(), amount: vec![15], frozen_height: 0 }]
    );
    assert_eq!(tx.tx_outputs, vec![output(vec![5], "bob"), output(vec![1], "$"), output(vec![9], "me")]);
    assert!(tx.desc.is_empty());
    assert_eq!(tx.timestamp, 42);
    assert_eq!(tx.auth_require, vec![String::from("svcaddr")]);
    let ir = resp.response.unwrap();
    assert_eq!(tx.tx_inputs_ext, ir.inputs);
    assert_eq!(tx.tx_outputs_ext, ir.outputs);
    assert_eq!(tx.contract_requests, ir.requests);

    let bad = message("bob", "5", "one");
    let s = Session::new(&c, &a, &bad);
    assert_eq!(s.gen_real_tx(&pre_exec_response("25"), &cctx, 0, String::new()).unwrap_err(), ErrorKind::ParseError);
}

#[test]
fn sign_tx_sets_signatures() {
    let c = ChainClient::new(&String::from("xuper"), &comm_config());
    let a = account();
    let m = message("bob", "5", "1");
    let s = Session::new(&c, &a, &m);
    let sig = SignatureInfo { PublicKey: String::from("{}"), Sign: vec![1, 2] };
    let mut tx = Transaction::default();
    tx.nonce = String::from("n");
    s.sign_tx(&mut tx, &sig, false);
    assert_eq!(tx.initiator_signs, vec![sig.clone()]);
    assert!(tx.auth_require_signs.is_empty());
    s.sign_tx(&mut tx, &sig, true);
    assert_eq!(tx.auth_require_signs, vec![sig.clone()]);
    assert_eq!(tx.nonce, "n");
    let plain = Account { contract_name: String::new(), ..account() };
    let s = Session::new(&c, &plain, &m);
    let mut tx = Transaction::default();
    s.sign_tx(&mut tx, &sig, true);
    assert!(tx.auth_require_signs.is_empty());
}

#[test]
fn txid_hex_forms() {
    assert_eq!(encode_txid(&[10, 255, 0]), "0aff00");
    assert_eq!(decode_txid("0aFF00").unwrap(), vec![10, 255, 0]);
    assert_eq!(decode_txid(&encode_txid(&[1, 2, 3])).unwrap(), vec![1, 2, 3]);
    assert_eq!(decode_txid("abc"), Err(ErrorKind::HexError));
    assert_eq!(decode_txid("zz"), Err(ErrorKind::HexError));
    assert_eq!(decode_txid("").unwrap(), Vec::<u8>::new());
}

#[test]
fn print_tx_shows_amounts() {
    let c = ChainClient::new(&String::from("xuper"), &comm_config());
    let a = account();
    let m = message("bob", "5", "1");
    let s = Session::new(&c, &a, &m);
    let mut tx = Transaction::default();
    tx.tx_inputs.push(TxInput { amount: vec![1, 0], ..TxInput::default() });
    tx.tx_outputs = vec![output(vec![255], "x"), output(vec![], "y")];
    assert_eq!(s.print_tx(&tx), vec![String::from("256"), String::from("255"), String::from("0")]);
}

#[test]
fn add_endorsement_appends_to_authorizer_signatures() {
    let c = ChainClient::new(&String::from("xuper"), &comm_config());
    let a = account();
    let m = message("bob", "5", "1");
    let s = Session::new(&c, &a, &m);
    let sig = SignatureInfo { PublicKey: String::from("pk"), Sign: vec![1] };
    let end = SignatureInfo { PublicKey: String::from("svc"), Sign: vec![2] };
    let mut tx = Transaction::default();
    s.sign_tx(&mut tx, &sig, true);
    tx.txid = vec![5];
    s.add_endorsement(&mut tx, end.clone());
    assert_eq!(tx.auth_require_signs, vec![sig.clone(), end]);
    assert_eq!(tx.initiator_signs, vec![sig]);
    assert_eq!(tx.txid, vec![5]);
}

#[test]
fn chain_answer_outcomes() {
    assert_eq!(post_tx_outcome(0), Ok(()));
    assert_eq!(post_tx_outcome(3), Err(ErrorKind::ParseError));
    assert_eq!(query_tx_outcome(0), Ok(()));
    assert_eq!(query_tx_outcome(-1), Err(ErrorKind::ChainRPCError));
}

fn be(v: &[u8]) -> u128 {
    v.iter().fold(0u128, |acc, b| acc * 256 + *b as u128)
}

#[test]
fn real_tx_outputs_add_up_to_inputs() {
    let c = ChainClient::new(&String::from("xuper"), &comm_config());
    let a = account();
    let m = message("bob", "300", "2");
    let s = Session::new(&c, &a, &m);
    let mut cctx = Transaction::default();
    cctx.txid = vec![3];
    cctx.tx_outputs = vec![output(vec![1, 0], "alice"), output(vec![10], "feeaddr"), output(vec![200], "alice")];
    let tx = s.gen_real_tx(&pre_exec_response("0"), &cctx, 1, String::new()).unwrap();
    let ins: u128 = tx.tx_inputs.iter().map(|i| be(&i.amount)).sum();
    let outs: u128 = tx.tx_outputs.iter().map(|o| be(&o.amount)).sum();
    assert_eq!(ins, 456);
    assert_eq!(outs, 456);
    assert_eq!(tx.tx_outputs.last().unwrap(), &output(vec![154], "me"));
}

use xuper_rust_sdk::config::{CommConfig, ComplianceCheckConfig};
use xuper_rust_sdk::contract::{invoke_contract, query_contract};
use xuper_rust_sdk::errors::ErrorKind;
use xuper_rust_sdk::rpc::ChainClient;
use xuper_rust_sdk::transfer::transfer;
use xuper_rust_sdk::wallet::Account;
use xuper_rust_sdk::xchain::{InvokeRPCRequest, InvokeRequest, PreExecWithSelectUTXORequest};

fn service_config(fee: i32) -> ComplianceCheckConfig {
    ComplianceCheckConfig {
        is_need_compliance_check: true,
        is_need_compliance_fee: true,
        compliance_check_endorse_service_fee: fee,
        compliance_check_endorse_service_fee_addr: String::from("feeaddr"),
        compliance_check_endorse_service_addr: String::from("svcaddr"),
    }
}

fn chain() -> ChainClient {
    let conf = CommConfig {
        node: String::from("127.0.0.1"),
        node_port: 37101,
        endorse_port: 8848,
        compliance_check: service_config(10),
        min_new_chain_amount: String::from("100"),
        crypto: String::from("default"),
    };
    ChainClient::new(&String::from("xuper"), &conf)
}

fn caller(contract_account: &str) -> Account {
    Account {
        contract_name: String::from("counter"),
        contract_account: String::from(contract_account),
        address: String::from("addr"),
        path: String::from("key/private.key"),
    }
}

fn expected_request(auth: Vec<String>) -> InvokeRPCRequest {
    InvokeRPCRequest {
        bcname: String::from("xuper"),
        requests: vec![InvokeRequest {
            module_name: String::from("wasm"),
            contract_name: String::from("counter"),
            method_name: String::from("increase"),
            args: vec![(String::from("key"), b"k1".to_vec())],
            resource_limits: vec![],
            amount: String::from("0"),
        }],
        initiator: String::from("addr"),
        auth_require: auth,
    }
}

#[test]
fn invoke_contract_with_contract_account() {
    let a = caller("XC1111111111000000@xuper");
    let args = vec![(String::from("key"), b"k1".to_vec())];
    let m = invoke_contract(&a, &chain(), &String::from("increase"), args, &service_config(10));
    let auth = vec![String::from("XC1111111111000000@xuper/addr"), String::from("svcaddr")];
    assert_eq!(m.invoke_rpc_req, expected_request(auth.clone()));
    assert_eq!(
        m.pre_sel_utxo_req,
        PreExecWithSelectUTXORequest {
            bcname: String::from("xuper"),
            address: String::from("addr"),
            totalAmount: 10,
            request: expected_request(auth.clone()),
        }
    );
    assert_eq!(m.auth_require, auth);
    assert_eq!((m.to.as_str(), m.amount.as_str(), m.fee.as_str(), m.desc.as_str()), ("", "0", "0", ""));
    assert_eq!(m.initiator, "addr");
    assert_eq!(m.frozen_height, 0);
}

#[test]
fn invoke_contract_without_contract_account() {
    let a = caller("");
    let args = vec![(String::from("key"), b"k1".to_vec())];
    let m = invoke_contract(&a, &chain(), &String::from("increase"), args, &service_config(3));
    assert_eq!(m.auth_require, vec![String::from("svcaddr")]);
    assert_eq!(m.pre_sel_utxo_req.totalAmount, 3);
}

#[test]
fn query_contract_asks_no_payment() {
    let a = caller("XC1111111111000000@xuper");
    let args = vec![(String::from("key"), b"k1".to_vec())];
    let m = query_contract(&a, &chain(), &String::from("increase"), args, &service_config(10));
    let auth = vec![String::from("XC1111111111000000@xuper/addr"), String::from("svcaddr")];
    assert_eq!(m.invoke_rpc_req, expected_request(auth.clone()));
    assert_eq!(m.pre_sel_utxo_req, PreExecWithSelectUTXORequest::default());
    assert_eq!(m.auth_require, auth);
    assert_eq!(m.amount, "0");
}

#[test]
fn transfer_asks_for_amount_fee_and_service_fee() {
    let a = caller("");
    let m = transfer(
        &a,
        &chain(),
        &String::from("bob"),
        &String::from("100"),
        &String::from("1"),
        &String::from("rent"),
        &service_config(10),
    )
    .unwrap();
    assert_eq!(m.pre_sel_utxo_req.totalAmount, 111);
    assert_eq!(m.pre_sel_utxo_req.address, "addr");
    assert_eq!(m.pre_sel_utxo_req.bcname, "xuper");
    assert_eq!(m.invoke_rpc_req.auth_require, vec![String::from("svcaddr")]);
    assert!(m.invoke_rpc_req.requests.is_empty());
    assert_eq!(m.pre_sel_utxo_req.request, m.invoke_rpc_req);
    assert_eq!((m.to.as_str(), m.amount.as_str(), m.fee.as_str(), m.desc.as_str()), ("bob", "100", "1", "rent"));
    assert_eq!(m.auth_require, vec![String::from("svcaddr")]);
}

#[test]
fn transfer_errors() {
    let a = caller("");
    let c = chain();
    let t = |amount: &str, fee: &str, service: i32| {
        transfer(
            &a,
            &c,
            &String::from("bob"),
            &String::from(amount),
            &String::from(fee),
            &String::new(),
            &service_config(service),
        )
        .map(|m| m.pre_sel_utxo_req.totalAmount)
    };
    assert_eq!(t("x", "1", 10), Err(ErrorKind::ParseError));
    assert_eq!(t("100", "", 10), Err(ErrorKind::ParseError));
    assert_eq!(t("-100", "1", 10), Err(ErrorKind::InvalidArguments));
    assert_eq!(t("100", "-1", 10), Err(ErrorKind::InvalidArguments));
    // The service fee must not exceed the amount, nor be negative.
    assert_eq!(t("5", "1", 10), Err(ErrorKind::InvalidArguments));
    assert_eq!(t("10", "0", 10), Ok(20));
    assert_eq!(t("100", "1", -1), Err(ErrorKind::InvalidArguments));
    // A total beyond i64 is refused.
    assert_eq!(t("9223372036854775807", "1", 0), Err(ErrorKind::InvalidArguments));
    assert_eq!(t("9223372036854775800", "0", 7), Ok(i64::MAX));
}

//! Calls of contract methods: the requests that invoke a method (paying the
//! compliance-check fee) or query one, as messages for a session.
use vstd::prelude::*;
use vstd::string::StringExecFns;
use crate::config::ComplianceCheckConfig;
use crate::ordmap::byte_entry_views;
use crate::rpc::{ChainClient, Message};
use crate::wallet::Account;
use crate::xchain::{Duplicate, InvokeRPCRequest, InvokeRequest, PreExecWithSelectUTXORequest, ResourceLimit};

verus! {

/// The authorizations a call requires: `contract_account/address` when the
/// account acts for a contract account, then the compliance-check service.
pub open spec fn spec_auth_requires(account: Account, check: ComplianceCheckConfig) -> Seq<Seq<char>> {
    (if account.contract_account@.len() > 0 {
        seq![account.contract_account@ + "/"@ + account.address@]
    } else {
        seq![]
    }) + seq![check.compliance_check_endorse_service_addr@]
}

/// The call of `method_name` with `args` on the account's contract, in the
/// `wasm` module, paying nothing.
pub open spec fn spec_invoke_request(
    account: Account,
    method_name: Seq<char>,
    args: Seq<(Seq<char>, Seq<u8>)>,
) -> (Seq<char>, Seq<char>, Seq<char>, Seq<(Seq<char>, Seq<u8>)>, Seq<ResourceLimit>, Seq<char>) {
    ("wasm"@, account.contract_name@, method_name, args, seq![], "0"@)
}

/// The request that pre-executes the call, made by the account on the chain.
pub open spec fn spec_invoke_rpc_request(
    account: Account,
    chain: ChainClient,
    method_name: Seq<char>,
    args: Seq<(Seq<char>, Seq<u8>)>,
    check: ComplianceCheckConfig,
) -> <InvokeRPCRequest as View>::V {
    (
        chain.chain_name@,
        seq![spec_invoke_request(account, method_name, args)],
        account.address@,
        spec_auth_requires(account, check),
    )
}

/// The message of a call: no payee, amount and fee `0`, no description, the
/// account's address as initiator.
pub open spec fn plain_call_message(m: Message, account: Account, check: ComplianceCheckConfig) -> bool {
    &&& m.to@.len() == 0
    &&& m.fee@ == "0"@
    &&& m.desc@.len() == 0
    &&& m.amount@ == "0"@
    &&& m.frozen_height == 0
    &&& m.initiator@ == account.address@
    &&& m.auth_require@.map_values(|a: String| a@) == spec_auth_requires(account, check)
}

/// The authorizations a call requires (see `spec_auth_requires`).
fn auth_requires(account: &Account, check: &ComplianceCheckConfig) -> (r: Vec<String>)
    ensures
        r@.map_values(|a: String| a@) == spec_auth_requires(*account, *check),
{
    let mut auth: Vec<String> = Vec::new();
    if account.contract_account.as_str().unicode_len() > 0 {
        let mut s = account.contract_account.clone();
        s.append("/");
        s.append(account.address.as_str());
        auth.push(s);
    }
    auth.push(check.compliance_check_endorse_service_addr.clone());
    assert(auth@.map_values(|a: String| a@) =~= spec_auth_requires(*account, *check));
    auth
}

/// The pre-execution request of a call (see `spec_invoke_rpc_request`).
fn invoke_rpc_request(
    account: &Account,
    chain: &ChainClient,
    method_name: &String,
    args: Vec<(String, Vec<u8>)>,
    check: &ComplianceCheckConfig,
) -> (r: InvokeRPCRequest)
    ensures
        r@ == spec_invoke_rpc_request(*account, *chain, method_name@, byte_entry_views(args@), *check),
{
    let invoke_req = InvokeRequest {
        module_name: String::from_str("wasm"),
        contract_name: account.contract_name.clone(),
        method_name: method_name.clone(),
        args,
        resource_limits: Vec::new(),
        amount: String::from_str("0"),
    };
    let ghost q = invoke_req@;
    let mut requests: Vec<InvokeRequest> = Vec::new();
    requests.push(invoke_req);
    let r = InvokeRPCRequest {
        bcname: chain.chain_name.clone(),
        requests,
        initiator: account.address.clone(),
        auth_require: auth_requires(account, check),
    };
    assert(r@.1 =~= seq![q]);
    assert(q.4 =~= Seq::<ResourceLimit>::empty());
    r
}

/// The message that invokes `method_name` with `args` on the account's
/// contract: a pre-execution request, and a request to select unspent
/// outputs of the account worth the compliance-check fee for it. The
/// session then composes, signs and posts the transaction.
pub fn invoke_contract(
    account: &Account,
    chain: &ChainClient,
    method_name: &String,
    args: Vec<(String, Vec<u8>)>,
    check: &ComplianceCheckConfig,
) -> (r: Message)
    ensures
        r.invoke_rpc_req@ == spec_invoke_rpc_request(*account, *chain, method_name@, byte_entry_views(args@), *check),
        r.pre_sel_utxo_req@ == (
            chain.chain_name@,
            account.address@,
            check.compliance_check_endorse_service_fee as i64,
            r.invoke_rpc_req@,
        ),
        plain_call_message(r, *account, *check),
{
    let invoke_rpc_request = invoke_rpc_request(account, chain, method_name, args, check);
    let total_amount = check.compliance_check_endorse_service_fee;
    let pre_sel_utxo_req = PreExecWithSelectUTXORequest {
        bcname: chain.chain_name.clone(),
        address: account.address.clone(),
        totalAmount: total_amount as i64,
        request: invoke_rpc_request.duplicate(),
    };
    Message {
        to: String::new(),
        fee: String::from_str("0"),
        desc: String::new(),
        pre_sel_utxo_req,
        invoke_rpc_req: invoke_rpc_request,
        auth_require: auth_requires(account, check),
        amount: String::from_str("0"),
        frozen_height: 0,
        initiator: account.address.clone(),
    }
}

/// The message that queries `method_name` with `args` on the account's
/// contract: a pre-execution request only; nothing is paid or posted.
pub fn query_contract(
    account: &Account,
    client: &ChainClient,
    method_name: &String,
    args: Vec<(String, Vec<u8>)>,
    check: &ComplianceCheckConfig,
) -> (r: Message)
    ensures
        r.invoke_rpc_req@ == spec_invoke_rpc_request(*account, *client, method_name@, byte_entry_views(args@), *check),
        r.pre_sel_utxo_req@.0.len() == 0,
        r.pre_sel_utxo_req@.1.len() == 0,
        r.pre_sel_utxo_req@.2 == 0,
        r.pre_sel_utxo_req@.3.0.len() == 0,
        r.pre_sel_utxo_req@.3.1.len() == 0,
        r.pre_sel_utxo_req@.3.2.len() == 0,
        r.pre_sel_utxo_req@.3.3.len() == 0,
        plain_call_message(r, *account, *check),
{
    let invoke_rpc_request = invoke_rpc_request(account, client, method_name, args, check);
    let pre_sel_utxo_req = PreExecWithSelectUTXORequest {
        bcname: String::new(),
        address: String::new(),
        totalAmount: 0,
        request: InvokeRPCRequest {
            bcname: String::new(),
            requests: Vec::new(),
            initiator: String::new(),
            auth_require: Vec::new(),
        },
    };
    Message {
        to: String::new(),
        fee: String::from_str("0"),
        desc: String::new(),
        pre_sel_utxo_req,
        invoke_rpc_req: invoke_rpc_request,
        auth_require: auth_requires(account, check),
        amount: String::from_str("0"),
        frozen_height: 0,
        initiator: account.address.clone(),
    }
}

}

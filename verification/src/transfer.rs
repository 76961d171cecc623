//! Payments: the message that pays an amount to an address.
use vstd::prelude::*;
use crate::config::ComplianceCheckConfig;
use crate::consts::{spec_parse_i64, str_as_i64};
use crate::errors::{ErrorKind, Result};
use crate::rpc::{ChainClient, Message};
use crate::wallet::Account;
use crate::xchain::{Duplicate, InvokeRPCRequest, PreExecWithSelectUTXORequest};

verus! {

/// How `str_as_i64` reads an amount: `ParseError` where it is no `i64`,
/// `InvalidArguments` where it is negative.
pub open spec fn spec_read_amount(s: Seq<char>) -> core::result::Result<i64, ErrorKind> {
    match spec_parse_i64(s) {
        None => Err(ErrorKind::ParseError),
        Some(v) => if v < 0 {
            Err(ErrorKind::InvalidArguments)
        } else {
            Ok(v)
        },
    }
}

/// What the payment of `amount` with `fee` asks for in total, the
/// compliance-check fee included, or the error: the amount's and the fee's
/// reading errors first; `InvalidArguments` for a negative service fee, for
/// a service fee above the amount, and for a total beyond `i64`.
pub open spec fn spec_transfer_total(amount: Seq<char>, fee: Seq<char>, service_fee: i32) -> core::result::Result<i64, ErrorKind> {
    match (spec_read_amount(amount), spec_read_amount(fee)) {
        (Err(e), _) => Err(e),
        (Ok(_), Err(e)) => Err(e),
        (Ok(a), Ok(f)) => if service_fee < 0 || service_fee > a {
            Err(ErrorKind::InvalidArguments)
        } else if a + f + service_fee > i64::MAX {
            Err(ErrorKind::InvalidArguments)
        } else {
            Ok((a + f + service_fee) as i64)
        },
    }
}

/// The message that pays `amount` to `to` from the account, with `fee` for
/// the chain and the description `desc`: a request to select unspent outputs
/// of the account worth the amount, the fee and the compliance-check fee,
/// with the compliance-check service as the one authorization. The session
/// then composes, signs and posts the transaction.
pub fn transfer(
    account: &Account,
    chain: &ChainClient,
    to: &String,
    amount: &String,
    fee: &String,
    desc: &String,
    check: &ComplianceCheckConfig,
) -> (r: Result<Message>)
    ensures
        match spec_transfer_total(amount@, fee@, check.compliance_check_endorse_service_fee) {
            Err(e) => r == Err::<Message, ErrorKind>(e),
            Ok(total) => r matches Ok(m) && {
                let auth = seq![check.compliance_check_endorse_service_addr@];
                &&& m.invoke_rpc_req@.0 == chain.chain_name@
                &&& m.invoke_rpc_req@.1.len() == 0
                &&& m.invoke_rpc_req@.2 == account.address@
                &&& m.invoke_rpc_req@.3 == auth
                &&& m.pre_sel_utxo_req@ == (chain.chain_name@, account.address@, total, m.invoke_rpc_req@)
                &&& m.to@ == to@
                &&& m.amount@ == amount@
                &&& m.fee@ == fee@
                &&& m.desc@ == desc@
                &&& m.frozen_height == 0
                &&& m.initiator@ == account.address@
                &&& m.auth_require@.map_values(|a: String| a@) == auth
            },
        },
{
    let amount_value = str_as_i64(amount.as_str())?;
    let fee_value = str_as_i64(fee.as_str())?;
    let endorser_fee = check.compliance_check_endorse_service_fee as i64;
    if endorser_fee < 0 || endorser_fee > amount_value {
        return Err(ErrorKind::InvalidArguments);
    }
    // The sum of non-negative numbers; it must not leave the range of i64.
    let total_amount = match amount_value.checked_add(fee_value) {
        None => {
            return Err(ErrorKind::InvalidArguments);
        },
        Some(t) => match t.checked_add(endorser_fee) {
            None => {
                return Err(ErrorKind::InvalidArguments);
            },
            Some(t) => t,
        },
    };
    let mut auth_requires: Vec<String> = Vec::new();
    auth_requires.push(check.compliance_check_endorse_service_addr.clone());
    let invoke_rpc_request = InvokeRPCRequest {
        bcname: chain.chain_name.clone(),
        requests: Vec::new(),
        initiator: account.address.clone(),
        auth_require: auth_requires,
    };
    let pre_sel_utxo_req = PreExecWithSelectUTXORequest {
        bcname: chain.chain_name.clone(),
        address: account.address.clone(),
        totalAmount: total_amount,
        request: invoke_rpc_request.duplicate(),
    };
    let mut auth2: Vec<String> = Vec::new();
    auth2.push(check.compliance_check_endorse_service_addr.clone());
    let m = Message {
        to: to.clone(),
        fee: fee.clone(),
        desc: desc.clone(),
        pre_sel_utxo_req,
        invoke_rpc_req: invoke_rpc_request,
        auth_require: auth2,
        amount: amount.clone(),
        frozen_height: 0,
        initiator: account.address.clone(),
    };
    assert(m.invoke_rpc_req@.3 =~= seq![check.compliance_check_endorse_service_addr@]);
    assert(m.auth_require@.map_values(|a: String| a@) =~= seq![check.compliance_check_endorse_service_addr@]);
    Ok(m)
}

}

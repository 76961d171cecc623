//! The decisions of a session with a node: which outputs a payment makes,
//! which unspent outputs it spends and what change it returns, and how the
//! compliance-check transaction and the real transaction are composed. The
//! calls to the node are made by the caller, who hands their answers in.
use vstd::prelude::*;
use vstd::slice::slice_to_vec;
use vstd::utf8::encode_utf8;
use crate::bignum::{
    be_value, bigint_add, bigint_from_be_bytes, bigint_from_i64, bigint_greater, bigint_sub,
    bigint_to_decimal, canonical_be, BigNum,
};
use crate::config::{CommConfig, ComplianceCheckConfig};
use crate::consts::{bytes_num_decimal, lemma_str_as_bigint_decimal, spec_str_as_bigint, str_as_bigint, TXVersion};
use crate::encoding::{hex_decode, hex_encode, i32_to_string, spec_decimal, spec_hex_decode, spec_hex_encode, views};
use crate::errors::{ErrorKind, Result};
use crate::text::{bytes_eq, str_chars};
use crate::wallet::Account;
use crate::xchain::{
    duplicate_all, seq_view, ContractResponse, InvokeRPCRequest, PreExecWithSelectUTXORequest,
    PreExecWithSelectUTXOResponse, SignatureInfo, Duplicate, Transaction, TxInput, TxOutput, Utxo,
    UtxoOutput,
};

verus! {

/// What a payment or a contract call asks of the chain.
#[derive(Debug)]
pub struct Message {
    pub to: String,
    pub amount: String,
    pub fee: String,
    pub desc: String,
    pub frozen_height: i64,
    pub invoke_rpc_req: InvokeRPCRequest,
    pub pre_sel_utxo_req: PreExecWithSelectUTXORequest,
    pub initiator: String,
    pub auth_require: Vec<String>,
}

/// A chain and the node that serves it: its host, the port of its endorser
/// service and the port of its chain service.
#[derive(Debug)]
pub struct ChainClient {
    pub chain_name: String,
    pub node: String,
    pub endorse_port: u16,
    pub node_port: u16,
}

impl ChainClient {
    /// The chain `bcname`, served by the node that `config` names.
    pub fn new(bcname: &String, config: &CommConfig) -> (r: Self)
        ensures
            r.chain_name@ == bcname@,
            r.node@ == config.node@,
            r.endorse_port == config.endorse_port,
            r.node_port == config.node_port,
    {
        ChainClient {
            chain_name: bcname.clone(),
            node: config.node.clone(),
            endorse_port: config.endorse_port,
            node_port: config.node_port,
        }
    }
}

/// A session: a chain, the account that acts, and what it asks for.
pub struct Session<'a, 'b, 'c> {
    pub client: &'a ChainClient,
    pub account: &'b Account,
    pub msg: &'c Message,
}

/// The magnitude of an integer.
pub open spec fn magnitude(v: int) -> nat {
    if v < 0 {
        (-v) as nat
    } else {
        v as nat
    }
}

/// The inputs that spend the given unspent outputs: each refers to the
/// output's transaction and offset, from its owner, with its amount.
pub open spec fn spec_inputs_of(utxos: Seq<(Seq<u8>, Seq<u8>, Seq<u8>, i32)>) -> Seq<(Seq<u8>, i32, Seq<u8>, Seq<u8>, i64)> {
    utxos.map_values(|u: (Seq<u8>, Seq<u8>, Seq<u8>, i32)| (u.2, u.3, u.1, u.0, 0i64))
}

/// The change of a payment: when the selected total exceeds what is needed,
/// the difference (as big-endian bytes) goes back to the address; otherwise
/// the output is empty.
pub open spec fn spec_change_output(total: int, need: int, address: Seq<char>) -> (Seq<u8>, Seq<u8>, i64) {
    if total > need {
        (canonical_be((total - need) as nat), encode_utf8(address), 0i64)
    } else {
        (seq![], seq![], 0i64)
    }
}

/// The outputs of a payment: to `to` (unless it is empty) the amount, and to
/// the address `$` the fee (unless it is empty or `0`); each amount is the
/// magnitude of what the text stands for, as big-endian bytes. `None` where
/// one of the amounts paid cannot be read.
pub open spec fn spec_tx_outputs(to: Seq<char>, amount: Seq<char>, fee: Seq<char>) -> Option<Seq<(Seq<u8>, Seq<u8>, i64)>> {
    let first: Option<Seq<(Seq<u8>, Seq<u8>, i64)>> = if to.len() > 0 {
        match spec_str_as_bigint(amount) {
            None => None,
            Some(v) => Some(seq![(canonical_be(magnitude(v)), encode_utf8(to), 0i64)]),
        }
    } else {
        Some(seq![])
    };
    let pays_fee = fee.len() > 0 && fee != seq!['0'];
    match first {
        None => None,
        Some(f) => if pays_fee {
            match spec_str_as_bigint(fee) {
                None => None,
                Some(v) => Some(f + seq![(canonical_be(magnitude(v)), seq![36u8], 0i64)]),
            }
        } else {
            Some(f)
        },
    }
}

/// The outputs of a transaction that pay `owner`, as unspent outputs of the
/// transaction `txid`: `(amount, owner, txid, offset)`, in order.
pub open spec fn spec_select_utxos(
    outputs: Seq<(Seq<u8>, Seq<u8>, i64)>,
    owner: Seq<u8>,
    txid: Seq<u8>,
) -> Seq<(Seq<u8>, Seq<u8>, Seq<u8>, i32)>
    decreases outputs.len(),
{
    if outputs.len() == 0 {
        seq![]
    } else {
        let prev = spec_select_utxos(outputs.drop_last(), owner, txid);
        let o = outputs.last();
        if o.1 == owner {
            prev.push((o.0, o.1, txid, (outputs.len() - 1) as i32))
        } else {
            prev
        }
    }
}

/// The total amount of unspent outputs.
pub open spec fn spec_utxo_total(u: Seq<(Seq<u8>, Seq<u8>, Seq<u8>, i32)>) -> nat
    decreases u.len(),
{
    if u.len() == 0 {
        0
    } else {
        spec_utxo_total(u.drop_last()) + be_value(u.last().0)
    }
}

/// The total amount of transaction outputs.
pub open spec fn outputs_total(o: Seq<(Seq<u8>, Seq<u8>, i64)>) -> nat
    decreases o.len(),
{
    if o.len() == 0 {
        0
    } else {
        outputs_total(o.drop_last()) + be_value(o.last().0)
    }
}

/// The total amount of transaction inputs.
pub open spec fn inputs_total(ins: Seq<(Seq<u8>, i32, Seq<u8>, Seq<u8>, i64)>) -> nat
    decreases ins.len(),
{
    if ins.len() == 0 {
        0
    } else {
        inputs_total(ins.drop_last()) + be_value(ins.last().3)
    }
}

/// A transaction with no fields set.
pub open spec fn is_blank(tx: Transaction) -> bool {
    &&& tx.txid@.len() == 0
    &&& tx.tx_inputs@.len() == 0
    &&& tx.tx_outputs@.len() == 0
    &&& tx.desc@.len() == 0
    &&& !tx.coinbase
    &&& tx.nonce@.len() == 0
    &&& tx.timestamp == 0
    &&& tx.version == 0
    &&& !tx.autogen
    &&& tx.tx_inputs_ext@.len() == 0
    &&& tx.tx_outputs_ext@.len() == 0
    &&& tx.contract_requests@.len() == 0
    &&& tx.initiator@.len() == 0
    &&& tx.auth_require@.len() == 0
    &&& tx.initiator_signs@.len() == 0
    &&& tx.auth_require_signs@.len() == 0
    &&& tx.xuper_sign is None
    &&& tx.HD_info is None
}

/// A transaction with no fields set.
fn blank_transaction() -> (r: Transaction)
    ensures
        is_blank(r),
{
    Transaction {
        txid: Vec::new(),
        tx_inputs: Vec::new(),
        tx_outputs: Vec::new(),
        desc: Vec::new(),
        coinbase: false,
        nonce: String::new(),
        timestamp: 0,
        version: 0,
        autogen: false,
        tx_inputs_ext: Vec::new(),
        tx_outputs_ext: Vec::new(),
        contract_requests: Vec::new(),
        initiator: String::new(),
        auth_require: Vec::new(),
        initiator_signs: Vec::new(),
        auth_require_signs: Vec::new(),
        xuper_sign: None,
        HD_info: None,
    }
}

/// The UTF-8 bytes of a string.
fn string_bytes(s: &String) -> (r: Vec<u8>)
    ensures
        r@ == encode_utf8(s@),
{
    slice_to_vec(s.as_str().as_bytes())
}

impl<'a, 'b, 'c> Session<'a, 'b, 'c> {
    /// A session of the account `w` on the chain `c`, asking for `m`.
    pub fn new(c: &'a ChainClient, w: &'b Account, m: &'c Message) -> (r: Self)
        ensures
            r.client == c,
            r.account == w,
            r.msg == m,
    {
        Session { msg: m, client: c, account: w }
    }

    /// Rejects the answers of contracts when one of them has a status above
    /// 400.
    pub fn check_resp_code(&self, resp: &[ContractResponse]) -> (r: Result<()>)
        ensures
            (exists|i: int| 0 <= i < resp@.len() && #[trigger] resp@[i].status > 400)
                ==> r == Err::<(), ErrorKind>(ErrorKind::ContractCodeGT400),
            (forall|i: int| 0 <= i < resp@.len() ==> #[trigger] resp@[i].status <= 400)
                ==> r == Ok::<(), ErrorKind>(()),
    {
        let mut i: usize = 0;
        while i < resp.len()
            invariant
                i <= resp@.len(),
                forall|k: int| 0 <= k < i ==> #[trigger] resp@[k].status <= 400,
            decreases resp@.len() - i,
        {
            if resp[i].status > 400 {
                return Err(ErrorKind::ContractCodeGT400);
            }
            i = i + 1;
        }
        Ok(())
    }

    /// Spends the selected unspent outputs, and returns the change output
    /// (see `spec_change_output`) when their total (in decimal in
    /// `totalSelected`) exceeds `total_need`. `ParseError` where the total
    /// cannot be read.
    pub fn generate_tx_input(&self, utxo_output: &UtxoOutput, total_need: &BigNum) -> (r: Result<(Vec<TxInput>, TxOutput)>)
        requires
            total_need.wf(),
        ensures
            match spec_str_as_bigint(utxo_output.totalSelected@) {
                None => r == Err::<(Vec<TxInput>, TxOutput), ErrorKind>(ErrorKind::ParseError),
                Some(total) => r matches Ok((ins, change)) && seq_view(ins@) == spec_inputs_of(seq_view(utxo_output.utxoList@))
                    && change@ == spec_change_output(total, total_need.value(), self.account.address@),
            },
    {
        let mut tx_inputs: Vec<TxInput> = Vec::new();
        let n = utxo_output.utxoList.len();
        for i in 0..n
            invariant
                n == utxo_output.utxoList@.len(),
                tx_inputs@.len() == i,
                forall|k: int| 0 <= k < i ==> #[trigger] tx_inputs@[k]@ == spec_inputs_of(seq_view(utxo_output.utxoList@))[k],
        {
            let utxo = &utxo_output.utxoList[i];
            let ti = TxInput {
                ref_txid: slice_to_vec(utxo.refTxid.as_slice()),
                ref_offset: utxo.refOffset,
                from_addr: slice_to_vec(utxo.toAddr.as_slice()),
                amount: slice_to_vec(utxo.amount.as_slice()),
                frozen_height: 0,
            };
            tx_inputs.push(ti);
        }
        assert(seq_view(tx_inputs@) =~= spec_inputs_of(seq_view(utxo_output.utxoList@)));
        let utxo_total = str_as_bigint(utxo_output.totalSelected.as_str())?;
        let mut to = TxOutput { amount: Vec::new(), to_addr: Vec::new(), frozen_height: 0 };
        if bigint_greater(&utxo_total, total_need) {
            let delta = bigint_sub(&utxo_total, total_need);
            to.to_addr = string_bytes(&self.account.address);
            to.amount = delta.magnitude;
        }
        assert(to@ =~= spec_change_output(utxo_total.value(), total_need.value(), self.account.address@));
        Ok((tx_inputs, to))
    }

    /// The outputs of a payment (see `spec_tx_outputs`); `ParseError` where
    /// one of the amounts paid cannot be read.
    pub fn generate_tx_output(&self, to: &String, amount: &String, fee: &str) -> (r: Result<Vec<TxOutput>>)
        ensures
            match spec_tx_outputs(to@, amount@, fee@) {
                None => r == Err::<Vec<TxOutput>, ErrorKind>(ErrorKind::ParseError),
                Some(outs) => r matches Ok(v) && seq_view(v@) == outs,
            },
    {
        let mut tx_outputs: Vec<TxOutput> = Vec::new();
        if to.as_str().unicode_len() > 0 {
            let am = str_as_bigint(amount.as_str())?;
            let t = TxOutput { to_addr: string_bytes(to), amount: am.magnitude, frozen_height: 0 };
            tx_outputs.push(t);
        }
        let fc = str_chars(fee);
        let pays_fee = fc.len() > 0 && !(fc.len() == 1 && fc[0] == '0');
        assert(pays_fee == (fee@.len() > 0 && fee@ != seq!['0'])) by {
            if fc@.len() == 1 && fc@[0] == '0' {
                assert(fee@ =~= seq!['0']);
            }
        }
        if pays_fee {
            let am = str_as_bigint(fee)?;
            let mut dollar: Vec<u8> = Vec::new();
            dollar.push(36u8);
            let t = TxOutput { to_addr: dollar, amount: am.magnitude, frozen_height: 0 };
            tx_outputs.push(t);
        }
        proof {
            let outs = spec_tx_outputs(to@, amount@, fee@)->0;
            assert(seq_view(tx_outputs@) =~= outs);
        }
        Ok(tx_outputs)
    }
}


impl<'a, 'b, 'c> Session<'a, 'b, 'c> {
    /// Composes the transaction that pays the compliance-check service its
    /// fee: it spends the selected unspent outputs, pays the fee to the
    /// service's fee address (unless that is empty), and returns the change;
    /// the caller supplies the timestamp and the nonce, and signs it.
    /// `ParseError` where the selected total cannot be read.
    pub fn gen_compliance_check_tx(
        &self,
        resp: &PreExecWithSelectUTXOResponse,
        check: &ComplianceCheckConfig,
        timestamp: i64,
        nonce: String,
    ) -> (r: Result<Transaction>)
        ensures
            match spec_str_as_bigint(resp.utxoOutput.totalSelected@) {
                None => r == Err::<Transaction, ErrorKind>(ErrorKind::ParseError),
                Some(total) => r matches Ok(tx) && {
                    let fee = check.compliance_check_endorse_service_fee as int;
                    let change = spec_change_output(total, fee, self.account.address@);
                    &&& seq_view(tx.tx_inputs@) == spec_inputs_of(seq_view(resp.utxoOutput.utxoList@))
                    &&& seq_view(tx.tx_outputs@) == spec_tx_outputs(
                        check.compliance_check_endorse_service_fee_addr@,
                        spec_decimal(fee),
                        seq!['0'],
                    )->0 + if change.1.len() > 0 { seq![change] } else { seq![] }
                    &&& tx.desc@ == encode_utf8("compliance check tx"@)
                    &&& tx.version == TXVersion
                    &&& !tx.coinbase
                    &&& tx.timestamp == timestamp
                    &&& tx.initiator@ == self.msg.initiator@
                    &&& tx.nonce@ == nonce@
                    &&& tx.txid@.len() == 0
                    &&& !tx.autogen
                    &&& tx.tx_inputs_ext@.len() == 0
                    &&& tx.tx_outputs_ext@.len() == 0
                    &&& tx.contract_requests@.len() == 0
                    &&& tx.auth_require@.len() == 0
                    &&& tx.initiator_signs@.len() == 0
                    &&& tx.auth_require_signs@.len() == 0
                    &&& tx.xuper_sign is None
                    &&& tx.HD_info is None
                },
            },
    {
        let fee = check.compliance_check_endorse_service_fee;
        let total_need = match bigint_from_i64(fee as i64) {
            Some(b) => b,
            None => {
                return Err(ErrorKind::ParseError);
            },
        };
        let (tx_inputs, tx_output) = self.generate_tx_input(&resp.utxoOutput, &total_need)?;
        let fee_text = i32_to_string(fee);
        proof {
            lemma_str_as_bigint_decimal(fee as int);
            reveal_strlit("0");
            assert("0"@ =~= seq!['0']);
            assert(spec_str_as_bigint(fee_text@) == Some(fee as int));
            assert(spec_tx_outputs(check.compliance_check_endorse_service_fee_addr@, fee_text@, "0"@) is Some);
        }
        let mut tx_outputs = match self.generate_tx_output(
            &check.compliance_check_endorse_service_fee_addr,
            &fee_text,
            "0",
        ) {
            Ok(v) => v,
            Err(e) => {
                return Err(e);
            },
        };
        let ghost first = seq_view(tx_outputs@);
        if tx_output.to_addr.len() > 0 {
            tx_outputs.push(tx_output);
        }
        let ghost change = spec_change_output(
            spec_str_as_bigint(resp.utxoOutput.totalSelected@)->0,
            fee as int,
            self.account.address@,
        );
        assert(seq_view(tx_outputs@) =~= first + if change.1.len() > 0 { seq![change] } else { seq![] });
        let mut tx = blank_transaction();
        tx.desc = slice_to_vec("compliance check tx".as_bytes());
        tx.version = TXVersion;
        tx.coinbase = false;
        tx.timestamp = timestamp;
        tx.tx_inputs = tx_inputs;
        tx.tx_outputs = tx_outputs;
        tx.initiator = self.msg.initiator.clone();
        tx.nonce = nonce;
        Ok(tx)
    }
}


proof fn lemma_select_step(
    outputs: Seq<(Seq<u8>, Seq<u8>, i64)>,
    owner: Seq<u8>,
    txid: Seq<u8>,
    i: int,
)
    requires
        0 <= i < outputs.len(),
    ensures
        spec_select_utxos(outputs.take(i + 1), owner, txid) == if outputs[i].1 == owner {
            spec_select_utxos(outputs.take(i), owner, txid).push((outputs[i].0, outputs[i].1, txid, i as i32))
        } else {
            spec_select_utxos(outputs.take(i), owner, txid)
        },
{
    assert(outputs.take(i + 1).drop_last() =~= outputs.take(i));
}

impl<'a, 'b, 'c> Session<'a, 'b, 'c> {
    /// Composes the transaction that the message asks for, paid from the
    /// outputs of the compliance-check transaction `cctx` that go back to the
    /// initiator: it pays the amount and the fee (see `spec_tx_outputs`),
    /// spends those outputs, returns the change (see `spec_change_output`),
    /// and carries the contract effects of the pre-execution `resp`. The
    /// caller supplies the timestamp and the nonce, and signs it.
    /// `ParseError` where the amount or the fee cannot be read.
    pub fn gen_real_tx(
        &self,
        resp: &PreExecWithSelectUTXOResponse,
        cctx: &Transaction,
        timestamp: i64,
        nonce: String,
    ) -> (r: Result<Transaction>)
        requires
            resp.response is Some,
            cctx.tx_outputs@.len() <= i32::MAX,
        ensures
            ({
                let amount = spec_str_as_bigint(self.msg.amount@);
                let fee = spec_str_as_bigint(self.msg.fee@);
                &&& (amount is None || fee is None) ==> r == Err::<Transaction, ErrorKind>(ErrorKind::ParseError)
                &&& (amount is Some && fee is Some) ==> (r matches Ok(tx) && {
                    let sel = spec_select_utxos(seq_view(cctx.tx_outputs@), encode_utf8(self.msg.initiator@), cctx.txid@);
                    let change = spec_change_output(
                        spec_utxo_total(sel) as int,
                        amount->0 + fee->0,
                        self.account.address@,
                    );
                    let ir = resp.response->0;
                    &&& seq_view(tx.tx_inputs@) == spec_inputs_of(sel)
                    &&& seq_view(tx.tx_outputs@) == spec_tx_outputs(self.msg.to@, self.msg.amount@, self.msg.fee@)->0
                        + if change.1.len() > 0 { seq![change] } else { seq![] }
                    &&& tx.desc@.len() == 0
                    &&& tx.version == TXVersion
                    &&& !tx.coinbase
                    &&& tx.timestamp == timestamp
                    &&& tx.initiator@ == self.msg.initiator@
                    &&& tx.nonce@ == nonce@
                    &&& views(tx.auth_require@) == views(self.msg.auth_require@)
                    &&& seq_view(tx.tx_inputs_ext@) == seq_view(ir.inputs@)
                    &&& seq_view(tx.tx_outputs_ext@) == seq_view(ir.outputs@)
                    &&& seq_view(tx.contract_requests@) == seq_view(ir.requests@)
                    &&& tx.txid@.len() == 0
                    &&& !tx.autogen
                    &&& tx.initiator_signs@.len() == 0
                    &&& tx.auth_require_signs@.len() == 0
                    &&& tx.xuper_sign is None
                    &&& tx.HD_info is None
                })
            }),
    {
        let mut tx_outputs = self.generate_tx_output(&self.msg.to, &self.msg.amount, self.msg.fee.as_str())?;
        let owner = string_bytes(&self.msg.initiator);
        let ghost outs = seq_view(cctx.tx_outputs@);
        let mut total_selected = BigNum::zero();
        let mut utxo_list: Vec<Utxo> = Vec::new();
        let mut index: i32 = 0;
        let n = cctx.tx_outputs.len();
        assert(outs.take(0) =~= Seq::<(Seq<u8>, Seq<u8>, i64)>::empty());
        while (index as usize) < n
            invariant
                n == cctx.tx_outputs@.len(),
                n <= i32::MAX,
                0 <= index <= n,
                outs == seq_view(cctx.tx_outputs@),
                owner@ == encode_utf8(self.msg.initiator@),
                seq_view(utxo_list@) == spec_select_utxos(outs.take(index as int), owner@, cctx.txid@),
                total_selected.wf(),
                total_selected.value() == spec_utxo_total(spec_select_utxos(outs.take(index as int), owner@, cctx.txid@)),
            decreases n - index,
        {
            let i = index as usize;
            let tx_output = &cctx.tx_outputs[i];
            proof {
                lemma_select_step(outs, owner@, cctx.txid@, index as int);
                assert(outs[index as int] == tx_output@);
            }
            if bytes_eq(tx_output.to_addr.as_slice(), owner.as_slice()) {
                let t = Utxo {
                    amount: slice_to_vec(tx_output.amount.as_slice()),
                    toAddr: slice_to_vec(tx_output.to_addr.as_slice()),
                    refTxid: slice_to_vec(cctx.txid.as_slice()),
                    refOffset: index,
                };
                let ghost prev = utxo_list@;
                utxo_list.push(t);
                assert(seq_view(utxo_list@) =~= seq_view(prev).push(t@));
                let um = bigint_from_be_bytes(tx_output.amount.as_slice());
                total_selected = bigint_add(&total_selected, &um);
                proof {
                    let sel = spec_select_utxos(outs.take(index + 1), owner@, cctx.txid@);
                    assert(sel.drop_last() =~= spec_select_utxos(outs.take(index as int), owner@, cctx.txid@));
                }
            }
            index = index + 1;
        }
        assert(outs.take(n as int) =~= outs);
        let utxo_output = UtxoOutput { utxoList: utxo_list, totalSelected: bigint_to_decimal(&total_selected) };
        proof {
            lemma_str_as_bigint_decimal(total_selected.value());
        }
        let mut total_need = str_as_bigint(self.msg.amount.as_str())?;
        let fee = str_as_bigint(self.msg.fee.as_str())?;
        total_need = bigint_add(&total_need, &fee);
        let (tx_inputs, delta_tx_output) = match self.generate_tx_input(&utxo_output, &total_need) {
            Ok(p) => p,
            Err(e) => {
                return Err(e);
            },
        };
        let ghost first = seq_view(tx_outputs@);
        if delta_tx_output.to_addr.len() > 0 {
            tx_outputs.push(delta_tx_output);
        }
        let ghost change = spec_change_output(
            total_selected.value(),
            total_need.value(),
            self.account.address@,
        );
        assert(seq_view(tx_outputs@) =~= first + if change.1.len() > 0 { seq![change] } else { seq![] });
        let ir = match &resp.response {
            Some(x) => x,
            None => {
                return Err(ErrorKind::ParseError);
            },
        };
        let mut auth: Vec<String> = Vec::new();
        for i in 0..self.msg.auth_require.len()
            invariant
                auth@.len() == i,
                forall|k: int| 0 <= k < i ==> #[trigger] auth@[k]@ == self.msg.auth_require@[k]@,
        {
            auth.push(self.msg.auth_require[i].clone());
        }
        assert(views(auth@) =~= views(self.msg.auth_require@));
        let mut tx = blank_transaction();
        tx.desc = Vec::new();
        tx.version = TXVersion;
        tx.coinbase = false;
        tx.timestamp = timestamp;
        tx.tx_inputs = tx_inputs;
        tx.tx_outputs = tx_outputs;
        tx.initiator = self.msg.initiator.clone();
        tx.nonce = nonce;
        tx.auth_require = auth;
        tx.tx_inputs_ext = duplicate_all(&ir.inputs);
        tx.tx_outputs_ext = duplicate_all(&ir.outputs);
        tx.contract_requests = duplicate_all(&ir.requests);
        Ok(tx)
    }

    /// Signs a composed transaction: the signature becomes the initiator's
    /// only signature and, where `authorize` is set and the account calls a
    /// contract, also the only authorizer's signature. Everything else is
    /// left as it was.
    pub fn sign_tx(&self, tx: &mut Transaction, signature: &SignatureInfo, authorize: bool)
        ensures
            seq_view(final(tx).initiator_signs@) == seq![signature@],
            seq_view(final(tx).auth_require_signs@) == if authorize && self.account.contract_name@.len() > 0 {
                seq![signature@]
            } else {
                seq_view(old(tx).auth_require_signs@)
            },
            final(tx).txid == old(tx).txid,
            final(tx).tx_inputs == old(tx).tx_inputs,
            final(tx).tx_outputs == old(tx).tx_outputs,
            final(tx).desc == old(tx).desc,
            final(tx).coinbase == old(tx).coinbase,
            final(tx).nonce == old(tx).nonce,
            final(tx).timestamp == old(tx).timestamp,
            final(tx).version == old(tx).version,
            final(tx).autogen == old(tx).autogen,
            final(tx).tx_inputs_ext == old(tx).tx_inputs_ext,
            final(tx).tx_outputs_ext == old(tx).tx_outputs_ext,
            final(tx).contract_requests == old(tx).contract_requests,
            final(tx).initiator == old(tx).initiator,
            final(tx).auth_require == old(tx).auth_require,
            final(tx).xuper_sign == old(tx).xuper_sign,
            final(tx).HD_info == old(tx).HD_info,
    {
        let mut signs: Vec<SignatureInfo> = Vec::new();
        signs.push(signature.duplicate());
        assert(seq_view(signs@) =~= seq![signature@]);
        tx.initiator_signs = signs;
        if authorize && self.account.contract_name.as_str().unicode_len() > 0 {
            let mut signs: Vec<SignatureInfo> = Vec::new();
            signs.push(signature.duplicate());
            assert(seq_view(signs@) =~= seq![signature@]);
            tx.auth_require_signs = signs;
        }
    }
}


impl<'a, 'b, 'c> Session<'a, 'b, 'c> {
    /// Adds the compliance-check service's endorsement to a signed
    /// transaction, after the authorizers' signatures; everything else is
    /// left as it was (the id is then computed anew).
    pub fn add_endorsement(&self, tx: &mut Transaction, end_sign: SignatureInfo)
        ensures
            seq_view(final(tx).auth_require_signs@) == seq_view(old(tx).auth_require_signs@).push(end_sign@),
            final(tx).txid == old(tx).txid,
            final(tx).tx_inputs == old(tx).tx_inputs,
            final(tx).tx_outputs == old(tx).tx_outputs,
            final(tx).desc == old(tx).desc,
            final(tx).coinbase == old(tx).coinbase,
            final(tx).nonce == old(tx).nonce,
            final(tx).timestamp == old(tx).timestamp,
            final(tx).version == old(tx).version,
            final(tx).autogen == old(tx).autogen,
            final(tx).tx_inputs_ext == old(tx).tx_inputs_ext,
            final(tx).tx_outputs_ext == old(tx).tx_outputs_ext,
            final(tx).contract_requests == old(tx).contract_requests,
            final(tx).initiator == old(tx).initiator,
            final(tx).auth_require == old(tx).auth_require,
            final(tx).initiator_signs == old(tx).initiator_signs,
            final(tx).xuper_sign == old(tx).xuper_sign,
            final(tx).HD_info == old(tx).HD_info,
    {
        let ghost before = tx.auth_require_signs@;
        tx.auth_require_signs.push(end_sign);
        assert(seq_view(tx.auth_require_signs@) =~= seq_view(before).push(end_sign@));
    }
}

/// What the chain's answer to a posted transaction means: `Ok` where the
/// error code of its header is that of success (0), `ParseError` otherwise.
pub fn post_tx_outcome(header_error: i32) -> (r: Result<()>)
    ensures
        header_error == 0 ==> r == Ok::<(), ErrorKind>(()),
        header_error != 0 ==> r == Err::<(), ErrorKind>(ErrorKind::ParseError),
{
    if header_error != 0 {
        return Err(ErrorKind::ParseError);
    }
    Ok(())
}

/// What the chain's answer to a query for a transaction means: `Ok` where
/// the error code of its header is that of success (0), `ChainRPCError`
/// otherwise.
pub fn query_tx_outcome(header_error: i32) -> (r: Result<()>)
    ensures
        header_error == 0 ==> r == Ok::<(), ErrorKind>(()),
        header_error != 0 ==> r == Err::<(), ErrorKind>(ErrorKind::ChainRPCError),
{
    if header_error != 0 {
        return Err(ErrorKind::ChainRPCError);
    }
    Ok(())
}

/// The id of a transaction in lower-case hexadecimal, as it is reported.
pub fn encode_txid(txid: &[u8]) -> (r: String)
    ensures
        r@ == spec_hex_encode(txid@),
{
    hex_encode(txid)
}

/// The id of a transaction from its hexadecimal text (either case);
/// `HexError` where the text is not an even number of hexadecimal digits.
pub fn decode_txid(txid: &str) -> (r: Result<Vec<u8>>)
    ensures
        match spec_hex_decode(txid@) {
            None => r == Err::<Vec<u8>, ErrorKind>(ErrorKind::HexError),
            Some(b) => r matches Ok(v) && v@ == b,
        },
{
    match hex_decode(txid) {
        Ok(v) => Ok(v),
        Err(_) => Err(ErrorKind::HexError),
    }
}

impl<'a, 'b, 'c> Session<'a, 'b, 'c> {
    /// The amounts of a transaction in decimal: those of its inputs, then
    /// those of its outputs (what is shown of it).
    pub fn print_tx(&self, tx: &Transaction) -> (r: Vec<String>)
        ensures
            r@.len() == tx.tx_inputs@.len() + tx.tx_outputs@.len(),
            forall|i: int| 0 <= i < tx.tx_inputs@.len() ==> #[trigger] r@[i]@ == spec_decimal(be_value(tx.tx_inputs@[i].amount@) as int),
            forall|i: int| 0 <= i < tx.tx_outputs@.len() ==> #[trigger] r@[tx.tx_inputs@.len() + i]@ == spec_decimal(be_value(tx.tx_outputs@[i].amount@) as int),
    {
        let mut out: Vec<String> = Vec::new();
        for i in 0..tx.tx_inputs.len()
            invariant
                out@.len() == i,
                forall|k: int| 0 <= k < i ==> #[trigger] out@[k]@ == spec_decimal(be_value(tx.tx_inputs@[k].amount@) as int),
        {
            out.push(bytes_num_decimal(tx.tx_inputs[i].amount.as_slice()));
        }
        let m = tx.tx_inputs.len();
        for i in 0..tx.tx_outputs.len()
            invariant
                m == tx.tx_inputs@.len(),
                out@.len() == m + i,
                forall|k: int| 0 <= k < m ==> #[trigger] out@[k]@ == spec_decimal(be_value(tx.tx_inputs@[k].amount@) as int),
                forall|k: int| 0 <= k < i ==> #[trigger] out@[m + k]@ == spec_decimal(be_value(tx.tx_outputs@[k].amount@) as int),
        {
            let ghost prev = out@;
            out.push(bytes_num_decimal(tx.tx_outputs[i].amount.as_slice()));
            assert forall|k: int| 0 <= k < i + 1 implies #[trigger] out@[m + k]@ == spec_decimal(be_value(tx.tx_outputs@[k].amount@) as int) by {
                if k < i {
                    assert(out@[m + k] == prev[m + k]);
                }
            }
        }
        out
    }
}

}

//! The chain's messages that the library reads and writes, as plain data.
use vstd::prelude::*;
use vstd::slice::slice_to_vec;
use crate::ordmap::byte_entry_views;

verus! {

/// A reference to an unspent output, spent by a transaction.
#[derive(Debug, Clone, PartialEq, Eq, Default)]
pub struct TxInput {
    pub ref_txid: Vec<u8>,
    pub ref_offset: i32,
    pub from_addr: Vec<u8>,
    pub amount: Vec<u8>,
    pub frozen_height: i64,
}

/// An output of a transaction: an amount (big-endian bytes) paid to an address.
#[derive(Debug, Clone, PartialEq, Eq, Default)]
pub struct TxOutput {
    pub amount: Vec<u8>,
    pub to_addr: Vec<u8>,
    pub frozen_height: i64,
}

/// A key of the contract state that a transaction read.
#[derive(Debug, Clone, PartialEq, Eq, Default)]
pub struct TxInputExt {
    pub bucket: String,
    pub key: Vec<u8>,
    pub ref_txid: Vec<u8>,
    pub ref_offset: i32,
}

/// A key of the contract state that a transaction writes, with its value.
#[derive(Debug, Clone, PartialEq, Eq, Default)]
pub struct TxOutputExt {
    pub bucket: String,
    pub key: Vec<u8>,
    pub value: Vec<u8>,
}

/// The kinds of resource a contract call may be limited in.
#[derive(Debug, Clone, Copy, PartialEq, Eq, Structural)]
pub enum ResourceType {
    CPU,
    MEMORY,
    DISK,
    XFEE,
}

/// A limit on one resource.
#[derive(Debug, Clone, Copy, PartialEq, Eq, Structural)]
pub struct ResourceLimit {
    pub resource_type: ResourceType,
    pub limit: i64,
}

/// A call of a contract method. `args` holds the arguments by name; no name
/// occurs twice.
#[derive(Debug, Clone, PartialEq, Eq, Default)]
pub struct InvokeRequest {
    pub module_name: String,
    pub contract_name: String,
    pub method_name: String,
    pub args: Vec<(String, Vec<u8>)>,
    pub resource_limits: Vec<ResourceLimit>,
    pub amount: String,
}

/// A signature and the public key (in its JSON form) that made it.
#[allow(non_snake_case)]
#[derive(Debug, Clone, PartialEq, Eq, Default)]
pub struct SignatureInfo {
    pub PublicKey: String,
    pub Sign: Vec<u8>,
}

/// A multi-signature over a transaction.
#[derive(Debug, Clone, PartialEq, Eq, Default)]
pub struct XuperSignature {
    pub public_keys: Vec<String>,
    pub signature: Vec<u8>,
}

/// Hierarchical-deterministic encryption data of a transaction.
#[derive(Debug, Clone, PartialEq, Eq, Default)]
pub struct HDInfo {
    pub hd_public_key: Vec<u8>,
    pub original_hash: Vec<u8>,
}

/// A transaction.
#[allow(non_snake_case)]
#[derive(Debug, Clone, PartialEq, Eq, Default)]
pub struct Transaction {
    pub txid: Vec<u8>,
    pub tx_inputs: Vec<TxInput>,
    pub tx_outputs: Vec<TxOutput>,
    pub desc: Vec<u8>,
    pub coinbase: bool,
    pub nonce: String,
    pub timestamp: i64,
    pub version: i32,
    pub autogen: bool,
    pub tx_inputs_ext: Vec<TxInputExt>,
    pub tx_outputs_ext: Vec<TxOutputExt>,
    pub contract_requests: Vec<InvokeRequest>,
    pub initiator: String,
    pub auth_require: Vec<String>,
    pub initiator_signs: Vec<SignatureInfo>,
    pub auth_require_signs: Vec<SignatureInfo>,
    pub xuper_sign: Option<XuperSignature>,
    pub HD_info: Option<HDInfo>,
}

/// An unspent output owned by an address.
#[allow(non_snake_case)]
#[derive(Debug, Clone, PartialEq, Eq, Default)]
pub struct Utxo {
    pub amount: Vec<u8>,
    pub toAddr: Vec<u8>,
    pub refTxid: Vec<u8>,
    pub refOffset: i32,
}

/// Unspent outputs selected to pay for a transaction, and their total in decimal.
#[allow(non_snake_case)]
#[derive(Debug, Clone, PartialEq, Eq, Default)]
pub struct UtxoOutput {
    pub utxoList: Vec<Utxo>,
    pub totalSelected: String,
}

/// What a contract answered.
#[derive(Debug, Clone, PartialEq, Eq, Default)]
pub struct ContractResponse {
    pub status: i32,
    pub message: String,
    pub body: Vec<u8>,
}

/// The effects of pre-executing contract calls.
#[derive(Debug, Clone, PartialEq, Eq, Default)]
pub struct InvokeResponse {
    pub inputs: Vec<TxInputExt>,
    pub outputs: Vec<TxOutputExt>,
    pub response: Vec<Vec<u8>>,
    pub gas_used: i64,
    pub requests: Vec<InvokeRequest>,
    pub responses: Vec<ContractResponse>,
}

/// A request to pre-execute contract calls.
#[derive(Debug, Clone, PartialEq, Eq, Default)]
pub struct InvokeRPCRequest {
    pub bcname: String,
    pub requests: Vec<InvokeRequest>,
    pub initiator: String,
    pub auth_require: Vec<String>,
}

/// A request to pre-execute contract calls and select unspent outputs for a payment.
#[allow(non_snake_case)]
#[derive(Debug, Clone, PartialEq, Eq, Default)]
pub struct PreExecWithSelectUTXORequest {
    pub bcname: String,
    pub address: String,
    pub totalAmount: i64,
    pub request: InvokeRPCRequest,
}

/// The answer to a `PreExecWithSelectUTXORequest`.
#[allow(non_snake_case)]
#[derive(Debug, Clone, PartialEq, Eq, Default)]
pub struct PreExecWithSelectUTXOResponse {
    pub bcname: String,
    pub response: Option<InvokeResponse>,
    pub utxoOutput: UtxoOutput,
}


impl View for TxInput {
    /// `(ref_txid, ref_offset, from_addr, amount, frozen_height)`
    type V = (Seq<u8>, i32, Seq<u8>, Seq<u8>, i64);

    open spec fn view(&self) -> Self::V {
        (self.ref_txid@, self.ref_offset, self.from_addr@, self.amount@, self.frozen_height)
    }
}

impl View for TxOutput {
    /// `(amount, to_addr, frozen_height)`
    type V = (Seq<u8>, Seq<u8>, i64);

    open spec fn view(&self) -> Self::V {
        (self.amount@, self.to_addr@, self.frozen_height)
    }
}

impl View for TxInputExt {
    /// `(bucket, key, ref_txid, ref_offset)`
    type V = (Seq<char>, Seq<u8>, Seq<u8>, i32);

    open spec fn view(&self) -> Self::V {
        (self.bucket@, self.key@, self.ref_txid@, self.ref_offset)
    }
}

impl View for TxOutputExt {
    /// `(bucket, key, value)`
    type V = (Seq<char>, Seq<u8>, Seq<u8>);

    open spec fn view(&self) -> Self::V {
        (self.bucket@, self.key@, self.value@)
    }
}

impl View for SignatureInfo {
    /// `(PublicKey, Sign)`
    type V = (Seq<char>, Seq<u8>);

    open spec fn view(&self) -> Self::V {
        (self.PublicKey@, self.Sign@)
    }
}

impl View for XuperSignature {
    /// `(public_keys, signature)`
    type V = (Seq<Seq<char>>, Seq<u8>);

    open spec fn view(&self) -> Self::V {
        (self.public_keys@.map_values(|k: String| k@), self.signature@)
    }
}

impl View for Utxo {
    /// `(amount, toAddr, refTxid, refOffset)`
    type V = (Seq<u8>, Seq<u8>, Seq<u8>, i32);

    open spec fn view(&self) -> Self::V {
        (self.amount@, self.toAddr@, self.refTxid@, self.refOffset)
    }
}

impl View for ContractResponse {
    /// `(status, message, body)`
    type V = (i32, Seq<char>, Seq<u8>);

    open spec fn view(&self) -> Self::V {
        (self.status, self.message@, self.body@)
    }
}

impl View for InvokeRPCRequest {
    /// `(bcname, requests, initiator, auth_require)`
    type V = (
        Seq<char>,
        Seq<(Seq<char>, Seq<char>, Seq<char>, Seq<(Seq<char>, Seq<u8>)>, Seq<ResourceLimit>, Seq<char>)>,
        Seq<char>,
        Seq<Seq<char>>,
    );

    open spec fn view(&self) -> Self::V {
        (
            self.bcname@,
            self.requests@.map_values(|q: InvokeRequest| q@),
            self.initiator@,
            self.auth_require@.map_values(|a: String| a@),
        )
    }
}

impl View for PreExecWithSelectUTXORequest {
    /// `(bcname, address, totalAmount, request)`
    type V = (
        Seq<char>,
        Seq<char>,
        i64,
        <InvokeRPCRequest as View>::V,
    );

    open spec fn view(&self) -> Self::V {
        (self.bcname@, self.address@, self.totalAmount, self.request@)
    }
}

impl View for HDInfo {
    /// `(hd_public_key, original_hash)`
    type V = (Seq<u8>, Seq<u8>);

    open spec fn view(&self) -> Self::V {
        (self.hd_public_key@, self.original_hash@)
    }
}


impl View for InvokeRequest {
    /// `(module_name, contract_name, method_name, args, resource_limits, amount)`
    type V = (Seq<char>, Seq<char>, Seq<char>, Seq<(Seq<char>, Seq<u8>)>, Seq<ResourceLimit>, Seq<char>);

    open spec fn view(&self) -> Self::V {
        (
            self.module_name@,
            self.contract_name@,
            self.method_name@,
            byte_entry_views(self.args@),
            self.resource_limits@,
            self.amount@,
        )
    }
}

/// The views of the elements of a list.
pub open spec fn seq_view<T: View>(s: Seq<T>) -> Seq<T::V> {
    s.map_values(|x: T| x@)
}

/// A copy of a value that has the same view.
pub trait Duplicate: View + Sized {
    fn duplicate(&self) -> (r: Self)
        ensures
            r@ == self@;
}

/// A copy of each element of a list.
pub fn duplicate_all<T: Duplicate>(v: &Vec<T>) -> (r: Vec<T>)
    ensures
        seq_view(r@) == seq_view(v@),
{
    let mut out: Vec<T> = Vec::new();
    for i in 0..v.len()
        invariant
            out@.len() == i,
            seq_view(out@) == seq_view(v@.take(i as int)),
    {
        let x = v[i].duplicate();
        let ghost old_out = out@;
        out.push(x);
        assert forall|k: int| 0 <= k < i + 1 implies seq_view(out@)[k] == seq_view(v@.take(i + 1))[k] by {
            if k < i {
                assert(seq_view(old_out)[k] == seq_view(v@.take(i as int))[k]);
                assert(out@[k] == old_out[k]);
            }
        }
        assert(seq_view(out@) =~= seq_view(v@.take(i + 1)));
    }
    assert(v@.take(v@.len() as int) =~= v@);
    out
}

impl Duplicate for TxInput {
    fn duplicate(&self) -> (r: Self) {
        TxInput {
            ref_txid: slice_to_vec(self.ref_txid.as_slice()),
            ref_offset: self.ref_offset,
            from_addr: slice_to_vec(self.from_addr.as_slice()),
            amount: slice_to_vec(self.amount.as_slice()),
            frozen_height: self.frozen_height,
        }
    }
}

impl Duplicate for TxOutput {
    fn duplicate(&self) -> (r: Self) {
        TxOutput {
            amount: slice_to_vec(self.amount.as_slice()),
            to_addr: slice_to_vec(self.to_addr.as_slice()),
            frozen_height: self.frozen_height,
        }
    }
}

impl Duplicate for TxInputExt {
    fn duplicate(&self) -> (r: Self) {
        TxInputExt {
            bucket: self.bucket.clone(),
            key: slice_to_vec(self.key.as_slice()),
            ref_txid: slice_to_vec(self.ref_txid.as_slice()),
            ref_offset: self.ref_offset,
        }
    }
}

impl Duplicate for TxOutputExt {
    fn duplicate(&self) -> (r: Self) {
        TxOutputExt {
            bucket: self.bucket.clone(),
            key: slice_to_vec(self.key.as_slice()),
            value: slice_to_vec(self.value.as_slice()),
        }
    }
}

impl Duplicate for SignatureInfo {
    fn duplicate(&self) -> (r: Self) {
        SignatureInfo { PublicKey: self.PublicKey.clone(), Sign: slice_to_vec(self.Sign.as_slice()) }
    }
}

impl Duplicate for XuperSignature {
    fn duplicate(&self) -> (r: Self) {
        let mut keys: Vec<String> = Vec::new();
        for i in 0..self.public_keys.len()
            invariant
                keys@.len() == i,
                forall|k: int| 0 <= k < i ==> #[trigger] keys@[k]@ == self.public_keys@[k]@,
        {
            keys.push(self.public_keys[i].clone());
        }
        let r = XuperSignature { public_keys: keys, signature: slice_to_vec(self.signature.as_slice()) };
        assert(r@.0 =~= self@.0);
        r
    }
}

impl Duplicate for InvokeRPCRequest {
    fn duplicate(&self) -> (r: Self) {
        let requests = duplicate_all(&self.requests);
        let mut auth: Vec<String> = Vec::new();
        for i in 0..self.auth_require.len()
            invariant
                auth@.len() == i,
                forall|k: int| 0 <= k < i ==> #[trigger] auth@[k]@ == self.auth_require@[k]@,
        {
            auth.push(self.auth_require[i].clone());
        }
        let r = InvokeRPCRequest {
            bcname: self.bcname.clone(),
            requests,
            initiator: self.initiator.clone(),
            auth_require: auth,
        };
        assert(r@.1 =~= self@.1) by {
            assert(seq_view(r.requests@) == seq_view(self.requests@));
        }
        assert(r@.3 =~= self@.3);
        r
    }
}

impl Duplicate for HDInfo {
    fn duplicate(&self) -> (r: Self) {
        HDInfo {
            hd_public_key: slice_to_vec(self.hd_public_key.as_slice()),
            original_hash: slice_to_vec(self.original_hash.as_slice()),
        }
    }
}

impl Duplicate for InvokeRequest {
    fn duplicate(&self) -> (r: Self) {
        let mut args: Vec<(String, Vec<u8>)> = Vec::new();
        for i in 0..self.args.len()
            invariant
                args@.len() == i,
                byte_entry_views(args@) == byte_entry_views(self.args@.take(i as int)),
        {
            let ghost old_args = args@;
            args.push((self.args[i].0.clone(), slice_to_vec(self.args[i].1.as_slice())));
            assert forall|k: int| 0 <= k < i + 1 implies byte_entry_views(args@)[k] == byte_entry_views(self.args@.take(i + 1))[k] by {
                if k < i {
                    assert(byte_entry_views(old_args)[k] == byte_entry_views(self.args@.take(i as int))[k]);
                    assert(args@[k] == old_args[k]);
                }
            }
            assert(byte_entry_views(args@) =~= byte_entry_views(self.args@.take(i + 1)));
        }
        assert(self.args@.take(self.args@.len() as int) =~= self.args@);
        let mut limits: Vec<ResourceLimit> = Vec::new();
        for i in 0..self.resource_limits.len()
            invariant
                limits@ == self.resource_limits@.take(i as int),
        {
            limits.push(self.resource_limits[i]);
            assert(limits@ =~= self.resource_limits@.take(i + 1));
        }
        assert(self.resource_limits@.take(self.resource_limits@.len() as int) =~= self.resource_limits@);
        InvokeRequest {
            module_name: self.module_name.clone(),
            contract_name: self.contract_name.clone(),
            method_name: self.method_name.clone(),
            args,
            resource_limits: limits,
            amount: self.amount.clone(),
        }
    }
}

}

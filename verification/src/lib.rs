//! Transaction composition and encoding for a XuperChain client.
use vstd::prelude::*;

pub mod text;
pub mod encoding;
pub mod errors;
pub mod consts;
pub mod bignum;
pub mod ordmap;
pub mod xchain;
pub mod wallet;
pub mod config;
pub mod rpc;
pub mod contract;
pub mod transfer;
pub mod laws;
pub mod format_laws;

verus! {
}

//! The settings of the compliance check service and of the node connection.
use vstd::prelude::*;

verus! {

/// The settings of the compliance check that every transaction passes.
#[derive(Debug, Clone, PartialEq, Eq)]
pub struct ComplianceCheckConfig {
    pub is_need_compliance_check: bool,
    pub is_need_compliance_fee: bool,
    pub compliance_check_endorse_service_fee: i32,
    pub compliance_check_endorse_service_fee_addr: String,
    pub compliance_check_endorse_service_addr: String,
}

/// The settings of the connection to a node.
#[derive(Debug, Clone, PartialEq, Eq)]
pub struct CommConfig {
    pub node: String,
    pub node_port: u16,
    pub endorse_port: u16,
    pub compliance_check: ComplianceCheckConfig,
    pub min_new_chain_amount: String,
    pub crypto: String,
}

}

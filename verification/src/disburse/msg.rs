//! The requests that the disbursement takes and the answers it gives.

use vstd::prelude::*;
use crate::disburse::state::payee_views;
use crate::disburse::state::ConfigView;
use crate::disburse::state::Payees;

verus! {

/// The request that sets a disbursement up.
#[derive(Debug, PartialEq, Eq)]
pub struct InstantiateMsg {
    pub nft_switch_address: String,
    pub payees: Vec<Payees>,
}

/// The settings of the disbursement.
#[derive(Debug, PartialEq, Eq)]
pub struct ConfigResponse {
    pub admin: String,
    pub nft_switch_address: String,
    pub payees: Vec<Payees>,
}

impl View for ConfigResponse {
    type V = ConfigView;

    open spec fn view(&self) -> ConfigView {
        ConfigView {
            admin: self.admin@,
            nft_switch_address: self.nft_switch_address@,
            payees: payee_views(self.payees@),
        }
    }
}

} // verus!

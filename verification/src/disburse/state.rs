//! The payee schedule and who may change or use it.

use vstd::prelude::*;
use crate::math::Decimal;
use crate::math::DECIMAL_FRACTIONAL;

verus! {

/// One payee: where his part goes, and which share of an amount it is.
#[derive(Debug, PartialEq, Eq)]
pub struct Payees {
    pub payee_address: String,
    pub percent_paid: Decimal,
    pub claimable_amount: u128,
}

/// The model of a [`Payees`].
pub struct PayeesView {
    pub payee_address: Seq<char>,
    pub percent_paid: Decimal,
    pub claimable_amount: u128,
}

impl View for Payees {
    type V = PayeesView;

    open spec fn view(&self) -> PayeesView {
        PayeesView {
            payee_address: self.payee_address@,
            percent_paid: self.percent_paid,
            claimable_amount: self.claimable_amount,
        }
    }
}

impl Clone for Payees {
    fn clone(&self) -> (copy: Self)
        ensures
            copy == *self,
    {
        Payees {
            payee_address: self.payee_address.clone(),
            percent_paid: self.percent_paid,
            claimable_amount: self.claimable_amount,
        }
    }
}

/// The models of a list of payees, in order.
pub open spec fn payee_views(payees: Seq<Payees>) -> Seq<PayeesView> {
    payees.map_values(|p: Payees| p@)
}

/// The sum of the shares of a schedule, in units of 10^-18.
pub open spec fn schedule_total(payees: Seq<PayeesView>) -> nat
    decreases payees.len(),
{
    if payees.len() == 0 {
        0
    } else {
        schedule_total(payees.drop_last()) + payees.last().percent_paid.units()
    }
}

/// The shares of the schedule add up to exactly one.
pub open spec fn schedule_valid(payees: Seq<PayeesView>) -> bool {
    schedule_total(payees) == DECIMAL_FRACTIONAL
}

/// No share is more than the sum of all.
pub proof fn lemma_share_bounded(payees: Seq<PayeesView>, i: int)
    requires
        0 <= i < payees.len(),
    ensures
        payees[i].percent_paid.units() <= schedule_total(payees),
    decreases payees.len(),
{
    if i < payees.len() - 1 {
        lemma_share_bounded(payees.drop_last(), i);
    }
}

/// The settings of the disbursement: its administrator, the escrow whose
/// commissions it splits, and the schedule.
#[derive(Debug, PartialEq, Eq)]
pub struct Config {
    pub admin: String,
    pub nft_switch_address: String,
    pub payees: Vec<Payees>,
}

/// The model of a [`Config`].
pub struct ConfigView {
    pub admin: Seq<char>,
    pub nft_switch_address: Seq<char>,
    pub payees: Seq<PayeesView>,
}

impl View for Config {
    type V = ConfigView;

    open spec fn view(&self) -> ConfigView {
        ConfigView {
            admin: self.admin@,
            nft_switch_address: self.nft_switch_address@,
            payees: payee_views(self.payees@),
        }
    }
}

impl Config {
    /// The shares of the schedule add up to exactly one.
    pub open spec fn wf(&self) -> bool {
        schedule_valid(self@.payees)
    }
}

} // verus!

//! What the funds that come with a request amount to.

use vstd::prelude::*;
use crate::error::PaymentError;
use crate::error::PaymentErrorView;
use crate::state::CoinView;
use crate::state::MessageInfo;

verus! {

/// What a request that must pay in `denom` has paid: the amount, where
/// exactly one coin came, of that denomination and not of amount zero.
pub open spec fn must_pay_outcome(funds: Seq<CoinView>, denom: Seq<char>) -> Result<
    u128,
    PaymentErrorView,
> {
    if funds.len() == 0 {
        Err(PaymentErrorView::NoFunds)
    } else if funds.len() > 1 {
        Err(PaymentErrorView::MultipleDenoms)
    } else if funds[0].amount == 0 {
        Err(PaymentErrorView::NoFunds)
    } else if funds[0].denom != denom {
        Err(PaymentErrorView::MissingDenom(denom))
    } else {
        Ok(funds[0].amount)
    }
}

/// Whether a request that may not pay came without funds.
pub open spec fn nonpayable_outcome(funds: Seq<CoinView>) -> Result<(), PaymentErrorView> {
    if funds.len() == 0 {
        Ok(())
    } else {
        Err(PaymentErrorView::NonPayable)
    }
}

/// The model of what [`must_pay`] returns.
pub open spec fn paid_view(paid: Result<u128, PaymentError>) -> Result<u128, PaymentErrorView> {
    match paid {
        Ok(amount) => Ok(amount),
        Err(e) => Err(e@),
    }
}

/// The model of what [`nonpayable`] returns.
pub open spec fn unpaid_view(unpaid: Result<(), PaymentError>) -> Result<(), PaymentErrorView> {
    match unpaid {
        Ok(()) => Ok(()),
        Err(e) => Err(e@),
    }
}

/// `cw_utils::must_pay`, on a `MessageInfo` of cosmwasm_std that holds the
/// same sender and coins. That function returns `NoFunds` where no coin or
/// one coin of amount zero was sent, `MultipleDenoms` where more than one
/// coin was sent, `MissingDenom` with the denomination asked for where the
/// one coin is of another, and else the coin's amount.
#[verifier::external_body]
pub(crate) fn must_pay(info: &MessageInfo, denom: &str) -> (paid: Result<u128, PaymentError>)
    ensures
        paid_view(paid) == must_pay_outcome(info@.funds, denom@),
{
    let funds = info.funds.iter().map(|c| cosmwasm_std::coin(c.amount, c.denom.clone())).collect();
    let sender = cosmwasm_std::Addr::unchecked(info.sender.clone());
    match cw_utils::must_pay(&cosmwasm_std::MessageInfo { sender, funds }, denom) {
        Ok(amount) => Ok(amount.u128()),
        Err(cw_utils::PaymentError::MissingDenom(d)) => Err(PaymentError::MissingDenom(d)),
        Err(cw_utils::PaymentError::ExtraDenom(d)) => Err(PaymentError::ExtraDenom(d)),
        Err(cw_utils::PaymentError::MultipleDenoms {  }) => Err(PaymentError::MultipleDenoms {  }),
        Err(cw_utils::PaymentError::NoFunds {  }) => Err(PaymentError::NoFunds {  }),
        Err(cw_utils::PaymentError::NonPayable {  }) => Err(PaymentError::NonPayable {  }),
    }
}

/// `cw_utils::nonpayable`, on a `MessageInfo` of cosmwasm_std that holds the
/// same sender and coins. That function returns `NonPayable` where any coin
/// was sent, whatever its amount, and else succeeds.
#[verifier::external_body]
pub(crate) fn nonpayable(info: &MessageInfo) -> (unpaid: Result<(), PaymentError>)
    ensures
        unpaid_view(unpaid) == nonpayable_outcome(info@.funds),
{
    let funds = info.funds.iter().map(|c| cosmwasm_std::coin(c.amount, c.denom.clone())).collect();
    let sender = cosmwasm_std::Addr::unchecked(info.sender.clone());
    match cw_utils::nonpayable(&cosmwasm_std::MessageInfo { sender, funds }) {
        Ok(()) => Ok(()),
        Err(cw_utils::PaymentError::MissingDenom(d)) => Err(PaymentError::MissingDenom(d)),
        Err(cw_utils::PaymentError::ExtraDenom(d)) => Err(PaymentError::ExtraDenom(d)),
        Err(cw_utils::PaymentError::MultipleDenoms {  }) => Err(PaymentError::MultipleDenoms {  }),
        Err(cw_utils::PaymentError::NoFunds {  }) => Err(PaymentError::NoFunds {  }),
        Err(cw_utils::PaymentError::NonPayable {  }) => Err(PaymentError::NonPayable {  }),
    }
}

} // verus!

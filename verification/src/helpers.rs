//! Checks on a price and on what the asset registry answered.

use vstd::prelude::*;
use crate::error::ContractError;
use crate::error::fails_with;
use crate::error::ContractErrorView;
use crate::response::Instruction;
use crate::response::InstructionView;
use crate::state::Coin;
use crate::state::CoinView;
use crate::state::MessageInfo;
use crate::state::NATIVE_DENOM;

verus! {

/// The registry's answer to the question who owns an asset.
#[derive(Debug, PartialEq, Eq)]
pub struct OwnerOfResponse {
    pub owner: String,
}

/// The registry's answer to the question which assets an account owns.
#[derive(Debug, PartialEq, Eq)]
pub struct TokensResponse {
    pub tokens: Vec<String>,
}

/// The address of an escrow, with what helps to call it.
#[derive(Debug, PartialEq, Eq)]
pub struct CwTemplateContract(pub String);

impl CwTemplateContract {
    pub fn addr(&self) -> (addr: String)
        ensures
            addr == self.0,
    {
        self.0.clone()
    }

    /// The instruction to call this escrow with the encoded request `msg`
    /// and without funds.
    pub fn call(&self, msg: Vec<u8>) -> (call: Instruction)
        ensures
            call@ == (InstructionView::Execute {
                contract_addr: self.0@,
                msg: msg@,
                funds: Seq::<CoinView>::empty(),
            }),
    {
        let funds: Vec<Coin> = Vec::new();
        assert(crate::state::coin_views(funds@) =~= Seq::<CoinView>::empty());
        Instruction::Execute { contract_addr: self.addr(), msg, funds }
    }
}

/// A price is accepted where it is named in the one denomination that the
/// escrow trades in; any amount will do.
pub fn price_validate(price: &Coin) -> (valid: Result<(), ContractError>)
    ensures
        price@.denom == NATIVE_DENOM@ ==> valid.is_ok(),
        price@.denom != NATIVE_DENOM@ ==> fails_with(valid, ContractErrorView::InvalidPrice),
{
    if !crate::lex::text_eq(price.denom.as_str(), NATIVE_DENOM) {
        return Err(ContractError::InvalidPrice {  });
    }
    Ok(())
}

/// Lets the registry's answer through where it names the sender of the
/// request as the owner of the asset. A failure of the registry is handed on
/// as it came.
pub fn only_owner(
    owner_of: Result<OwnerOfResponse, cosmwasm_std::StdError>,
    info: &MessageInfo,
) -> (checked: Result<OwnerOfResponse, ContractError>)
    ensures
        match owner_of {
            Err(e) => fails_with(checked, ContractErrorView::Std(e)),
            Ok(res) => if res.owner@ == info.sender@ {
                checked == Ok::<OwnerOfResponse, ContractError>(res)
            } else {
                fails_with(checked, ContractErrorView::UnauthorizedOwner)
            },
        },
{
    match owner_of {
        Err(e) => Err(ContractError::Std(e)),
        Ok(res) => {
            if !crate::lex::text_eq(res.owner.as_str(), info.sender.as_str()) {
                return Err(ContractError::UnauthorizedOwner {  });
            }
            Ok(res)
        },
    }
}

/// Whether the registry's list of the assets of an account holds any. A
/// failure of the registry is handed on as it came.
pub fn addr_owns_collection(tokens: Result<TokensResponse, cosmwasm_std::StdError>) -> (owns: Result<
    bool,
    ContractError,
>)
    ensures
        match tokens {
            Err(e) => fails_with(owns, ContractErrorView::Std(e)),
            Ok(res) => owns == Ok::<bool, ContractError>(res.tokens@.len() > 0),
        },
{
    match tokens {
        Err(e) => Err(ContractError::Std(e)),
        Ok(res) => Ok(res.tokens.len() > 0),
    }
}

} // verus!

//! Setting the schedule, and paying out by it.

use vstd::prelude::*;
use crate::disburse::error::ContractError;
use crate::disburse::msg::ConfigResponse;
use crate::disburse::msg::InstantiateMsg;
use crate::disburse::state::lemma_share_bounded;
use crate::disburse::state::payee_views;
use crate::disburse::state::schedule_total;
use crate::disburse::state::schedule_valid;
use crate::disburse::state::Config;
use crate::disburse::state::ConfigView;
use crate::disburse::state::Payees;
use crate::disburse::state::PayeesView;
use crate::execute::text_of;
use crate::lex::text_eq;
use crate::math::checked_mul_floor;
use crate::math::lemma_floor_mul_bounded;
use crate::math::DECIMAL_FRACTIONAL;
use crate::response::amount_text;
use crate::response::coins;
use crate::response::decimal_text;
use crate::response::one_coin;
use crate::response::Instruction;
use crate::response::InstructionView;
use crate::response::Response;
use crate::response::ResponseView;
use crate::state::MessageInfo;
use crate::state::NATIVE_DENOM;

verus! {

/// The name under which the disbursement is registered.
pub const CONTRACT_NAME: &'static str = "crates.io:disbursement";

/// Whether the shares of `payees` add up to exactly one.
pub fn validate_payees(payees: &Vec<Payees>) -> (valid: bool)
    ensures
        valid == schedule_valid(payee_views(payees@)),
{
    let ghost all = payee_views(payees@);
    let mut total: u128 = 0;
    let mut i: usize = 0;
    while i < payees.len()
        invariant
            i <= payees.len(),
            all == payee_views(payees@),
            total == schedule_total(all.take(i as int)),
        decreases payees.len() - i,
    {
        proof {
            assert(all.take(i as int + 1).drop_last() =~= all.take(i as int));
        }
        total = match total.checked_add(payees[i].percent_paid.atomics()) {
            Some(sum) => sum,
            None => {
                proof {
                    lemma_total_grows(all, i as int + 1);
                }
                return false;
            },
        };
        i += 1;
    }
    proof {
        assert(all.take(i as int) =~= all);
    }
    total == DECIMAL_FRACTIONAL
}

/// The sum of the shares of a schedule is at least that of its beginning.
proof fn lemma_total_grows(payees: Seq<PayeesView>, n: int)
    requires
        0 <= n <= payees.len(),
    ensures
        schedule_total(payees.take(n)) <= schedule_total(payees),
    decreases payees.len() - n,
{
    if n < payees.len() {
        lemma_total_grows(payees, n + 1);
        assert(payees.take(n + 1).drop_last() =~= payees.take(n));
    } else {
        assert(payees.take(n) =~= payees);
    }
}

/// The answer to the request that set a disbursement up.
pub open spec fn instantiate_response(sender: Seq<char>, contract_version: Seq<char>) -> ResponseView {
    ResponseView::new().add_attribute("action"@, "instantiate"@).add_attribute(
        "contract_name"@,
        CONTRACT_NAME@,
    ).add_attribute("contract_version"@, contract_version).add_attribute("sender"@, sender)
}

/// A new disbursement with the schedule of the request, which is accepted
/// where its shares add up to exactly one. The sender is its administrator.
pub fn instantiate(info: MessageInfo, msg: InstantiateMsg, contract_version: &str) -> (made: Result<
    (Config, Response),
    ContractError,
>)
    ensures
        schedule_valid(payee_views(msg.payees@)) ==> made.is_ok() && made->Ok_0.0.wf()
            && made->Ok_0.0@ == (ConfigView {
            admin: info@.sender,
            nft_switch_address: msg.nft_switch_address@,
            payees: payee_views(msg.payees@),
        }) && made->Ok_0.1@ == instantiate_response(info@.sender, contract_version@),
        !schedule_valid(payee_views(msg.payees@)) ==> made.is_err() && made->Err_0
            == (ContractError::InvalidPercentPaid {  }),
{
    if !validate_payees(&msg.payees) {
        return Err(ContractError::InvalidPercentPaid {  });
    }
    let config = Config {
        admin: info.sender.clone(),
        nft_switch_address: msg.nft_switch_address,
        payees: msg.payees,
    };
    let res = Response::new().add_attribute("action", "instantiate".to_string()).add_attribute(
        "contract_name",
        CONTRACT_NAME.to_string(),
    ).add_attribute("contract_version", contract_version.to_string()).add_attribute(
        "sender",
        info.sender,
    );
    Ok((config, res))
}

/// Names a new administrator or a new escrow, or both. Only the
/// administrator may do so.
pub fn execute_update_config(
    deps: &mut Config,
    info: MessageInfo,
    admin: Option<String>,
    nft_switch_address: Option<String>,
) -> (r: Result<Response, ContractError>)
    ensures
        old(deps).wf() ==> final(deps).wf(),
        if info@.sender != old(deps)@.admin {
            r.is_err() && r->Err_0 == (ContractError::Unauthorized {  }) && final(deps)@ == old(
                deps,
            )@
        } else {
            &&& r.is_ok()
            &&& r->Ok_0@ == ResponseView::new().add_attribute("action"@, "update_config"@)
            &&& final(deps)@ == (ConfigView {
                admin: if admin.is_some() {
                    text_of(admin)->0
                } else {
                    old(deps)@.admin
                },
                nft_switch_address: if nft_switch_address.is_some() {
                    text_of(nft_switch_address)->0
                } else {
                    old(deps)@.nft_switch_address
                },
                payees: old(deps)@.payees,
            })
        },
{
    if !text_eq(info.sender.as_str(), deps.admin.as_str()) {
        return Err(ContractError::Unauthorized {  });
    }
    if let Some(admin) = admin {
        deps.admin = admin;
    }
    if let Some(nft_switch_address) = nft_switch_address {
        deps.nft_switch_address = nft_switch_address;
    }
    Ok(Response::new().add_attribute("action", "update_config".to_string()))
}

/// Puts a new schedule in place of the old one, where its shares add up to
/// exactly one. Only the administrator may do so.
pub fn execute_update_payees(deps: &mut Config, info: MessageInfo, payees: Vec<Payees>) -> (r:
    Result<Response, ContractError>)
    ensures
        old(deps).wf() ==> final(deps).wf(),
        if info@.sender != old(deps)@.admin {
            r.is_err() && r->Err_0 == (ContractError::Unauthorized {  }) && final(deps)@ == old(
                deps,
            )@
        } else if !schedule_valid(payee_views(payees@)) {
            r.is_err() && r->Err_0 == (ContractError::InvalidPercentPaid {  }) && final(deps)@
                == old(deps)@
        } else {
            &&& r.is_ok()
            &&& r->Ok_0@ == ResponseView::new().add_attribute(
                "action"@,
                "update_payees"@,
            ).add_attribute("sender"@, info@.sender)
            &&& final(deps)@ == (ConfigView { payees: payee_views(payees@), ..old(deps)@ })
        },
{
    if !text_eq(info.sender.as_str(), deps.admin.as_str()) {
        return Err(ContractError::Unauthorized {  });
    }
    if !validate_payees(&payees) {
        return Err(ContractError::InvalidPercentPaid {  });
    }
    deps.payees = payees;
    Ok(
        Response::new().add_attribute("action", "update_payees".to_string()).add_attribute(
            "sender",
            info.sender,
        ),
    )
}

/// What payee `p` gets of `amount`: his share of it, rounded down.
pub open spec fn payout(p: PayeesView, amount: u128) -> InstructionView {
    InstructionView::Send {
        to_address: p.payee_address,
        amount: one_coin(p.percent_paid.floor_mul(amount as nat) as u128, NATIVE_DENOM@),
    }
}

/// One payment for each payee of the schedule, in its order.
pub open spec fn payouts(payees: Seq<PayeesView>, amount: u128) -> Seq<InstructionView> {
    payees.map_values(|p: PayeesView| payout(p, amount))
}

/// Every payee's part of `amount` fits in 128 bits.
pub open spec fn payable(payees: Seq<PayeesView>, amount: u128) -> bool {
    forall|i: int|
        0 <= i < payees.len() ==> (#[trigger] payees[i]).percent_paid.floor_mul(amount as nat)
            <= u128::MAX
}

/// The answer to a disbursement: the payments, and what was split for whom.
pub open spec fn disburse_response(cfg: ConfigView, sender: Seq<char>, amount: u128) -> ResponseView {
    ResponseView {
        messages: payouts(cfg.payees, amount),
        ..ResponseView::new().add_attribute("action"@, "disburse_reward"@).add_attribute(
            "sender"@,
            sender,
        ).add_attribute("amount"@, decimal_text(amount as nat))
    }
}

/// Splits `amount` among the payees: each gets his share of it, rounded
/// down. Only the escrow whose commissions are split may ask for that.
pub fn execute_update_disburse_reward(deps: &Config, info: MessageInfo, amount: u128) -> (r: Result<
    Response,
    ContractError,
>)
    ensures
        if info@.sender != deps@.nft_switch_address {
            r.is_err() && r->Err_0 == (ContractError::Unauthorized {  })
        } else if !payable(deps@.payees, amount) {
            r.is_err() && r->Err_0 == (ContractError::Overflow {  })
        } else {
            r.is_ok() && r->Ok_0@ == disburse_response(deps@, info@.sender, amount)
        },
        deps.wf() && info@.sender == deps@.nft_switch_address ==> r.is_ok(),
{
    if !text_eq(info.sender.as_str(), deps.nft_switch_address.as_str()) {
        return Err(ContractError::Unauthorized {  });
    }
    proof {
        if deps.wf() {
            lemma_valid_schedule_payable(deps@.payees, amount);
        }
    }
    let ghost all = deps@.payees;
    let mut res = Response::new();
    let mut i: usize = 0;
    while i < deps.payees.len()
        invariant
            i <= deps.payees.len(),
            all == deps@.payees,
            info@.sender == deps@.nft_switch_address,
            deps.wf() ==> payable(all, amount),
            res@.messages == payouts(all.take(i as int), amount),
            res@.attributes == ResponseView::new().attributes,
            res@.events == ResponseView::new().events,
            forall|j: int|
                0 <= j < i ==> (#[trigger] all[j]).percent_paid.floor_mul(amount as nat)
                    <= u128::MAX,
        decreases deps.payees.len() - i,
    {
        let payee = &deps.payees[i];
        let amount_disburse = match checked_mul_floor(amount, payee.percent_paid) {
            Some(part) => part,
            None => {
                assert(all[i as int].percent_paid.floor_mul(amount as nat) > u128::MAX);
                return Err(ContractError::Overflow {  });
            },
        };
        res.push_message(
            Instruction::Send {
                to_address: payee.payee_address.clone(),
                amount: coins(amount_disburse, NATIVE_DENOM),
            },
        );
        proof {
            assert(res@.messages =~= payouts(all.take(i as int + 1), amount));
        }
        i += 1;
    }
    proof {
        assert(all.take(i as int) =~= all);
    }
    Ok(
        res.add_attribute("action", "disburse_reward".to_string()).add_attribute(
            "sender",
            info.sender,
        ).add_attribute("amount", amount_text(amount)),
    )
}

/// A schedule whose shares add up to one pays out of any amount: no share
/// is more than the whole, so no part is more than the amount.
pub proof fn lemma_valid_schedule_payable(payees: Seq<PayeesView>, amount: u128)
    requires
        schedule_valid(payees),
    ensures
        payable(payees, amount),
        forall|i: int|
            0 <= i < payees.len() ==> (#[trigger] payees[i]).percent_paid.floor_mul(amount as nat)
                <= amount,
{
    assert forall|i: int| 0 <= i < payees.len() implies (#[trigger] payees[i]).percent_paid.floor_mul(
        amount as nat,
    ) <= amount by {
        lemma_share_bounded(payees, i);
        lemma_floor_mul_bounded(payees[i].percent_paid, amount as nat);
    }
}

/// What a schedule pays out of `amount` in all.
pub open spec fn payout_total(payees: Seq<PayeesView>, amount: u128) -> nat
    decreases payees.len(),
{
    if payees.len() == 0 {
        0
    } else {
        payout_total(payees.drop_last(), amount) + payees.last().percent_paid.floor_mul(
            amount as nat,
        )
    }
}

/// What a schedule pays out in all is not more than the sum of its shares
/// of the amount.
proof fn lemma_payout_total_bounded(payees: Seq<PayeesView>, amount: u128)
    ensures
        payout_total(payees, amount) <= (schedule_total(payees) * (amount as nat)) / (
        DECIMAL_FRACTIONAL as nat),
    decreases payees.len(),
{
    let d = DECIMAL_FRACTIONAL as nat;
    let a = amount as nat;
    if payees.len() == 0 {
        assert(0nat * a == 0) by (nonlinear_arith);
    } else {
        let head = payees.drop_last();
        let u = payees.last().percent_paid.units();
        let t = schedule_total(head);
        lemma_payout_total_bounded(head, amount);
        assert((t * a) / d + (u * a) / d <= ((t + u) * a) / d) by (nonlinear_arith)
            requires
                d > 0,
        ;
    }
}

/// A schedule whose shares add up to one never pays out more than it was
/// given to split; what rounding leaves over stays behind.
pub proof fn lemma_payouts_within_amount(payees: Seq<PayeesView>, amount: u128)
    requires
        schedule_valid(payees),
    ensures
        payout_total(payees, amount) <= amount,
{
    let d = DECIMAL_FRACTIONAL as nat;
    let a = amount as nat;
    lemma_payout_total_bounded(payees, amount);
    assert((d * a) / d == a) by (nonlinear_arith)
        requires
            d > 0,
    ;
}

/// The settings as they stand.
pub fn query_config(deps: &Config) -> (res: ConfigResponse)
    ensures
        res@ == deps@,
{
    let mut payees: Vec<Payees> = Vec::new();
    let mut i: usize = 0;
    while i < deps.payees.len()
        invariant
            i <= deps.payees.len(),
            payees@ == deps.payees@.take(i as int),
        decreases deps.payees.len() - i,
    {
        payees.push(deps.payees[i].clone());
        proof {
            assert(payees@ =~= deps.payees@.take(i as int + 1));
        }
        i += 1;
    }
    proof {
        assert(deps.payees@.take(i as int) =~= deps.payees@);
    }
    ConfigResponse {
        admin: deps.admin.clone(),
        nft_switch_address: deps.nft_switch_address.clone(),
        payees,
    }
}

} // verus!

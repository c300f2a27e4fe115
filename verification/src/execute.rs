//! The life of a trade: created by the seller, confirmed or rejected by the
//! arbiter, executed by the buyer, or cancelled before that.
//!
//! Every operation checks all that it asks for before it changes the table
//! or hands out an instruction: a request that is refused leaves the escrow
//! as it was.

use vstd::prelude::*;
use crate::error::fails_with;
use crate::error::succeeds_with;
use crate::error::ContractError;
use crate::error::ContractErrorView;
use crate::error::ErrorKind;
use crate::error::PaymentErrorView;
use crate::helpers::only_owner;
use crate::helpers::price_validate;
use crate::helpers::OwnerOfResponse;
use crate::lex::text_eq;
use crate::lex::KeyView;
use crate::math::checked_mul_floor;
use crate::math::lemma_floor_mul_zero;
use crate::math::Decimal;
use crate::payment::must_pay;
use crate::payment::must_pay_outcome;
use crate::payment::nonpayable;
use crate::payment::nonpayable_outcome;
use crate::response::amount_text;
use crate::response::coin_text;
use crate::response::coins;
use crate::response::decimal_text;
use crate::response::DisburseReward;
use crate::response::one_coin;
use crate::response::Event;
use crate::response::EventView;
use crate::response::Instruction;
use crate::response::InstructionView;
use crate::response::Response;
use crate::response::ResponseView;
use crate::state::trade_key;
use crate::state::Coin;
use crate::state::CoinView;
use crate::state::ConfigView;
use crate::state::Env;
use crate::state::ExecuteEnv;
use crate::state::MessageInfo;
use crate::state::MessageInfoView;
use crate::state::Trade;
use crate::state::TradeView;
use crate::state::NATIVE_DENOM;
use crate::sorted::lemma_filter_first;
use crate::sorted::lemma_filter_none;
use crate::state::trade_views;
use crate::store::for_asset;
use crate::store::has_key;
use crate::store::lemma_for_asset;
use crate::store::lemma_upsert_holds;
use crate::store::record_at;
use crate::store::upsert;
use crate::store::without;
use crate::store::Escrow;
use crate::store::EscrowView;

verus! {

/// The trade that a listing asks for: not yet confirmed, and with the fee
/// fractions of the settings until the arbiter names others.
pub open spec fn listed_trade(
    cfg: ConfigView,
    seller: Seq<char>,
    nft_addr: Seq<char>,
    nft_id: Seq<char>,
    buyer_addr: Seq<char>,
    price: CoinView,
) -> TradeView {
    TradeView {
        seller,
        buyer: buyer_addr,
        price,
        nft_collection: nft_addr,
        nft_id,
        is_confirmed_trade: false,
        seller_fee: cfg.seller_fee,
        buyer_fee: cfg.buyer_fee,
    }
}

/// Why a listing is refused, if it is: the first of these that holds. The
/// escrow is halted; the funds sent are not one coin of the native
/// denomination; their amount is not the listing fee; the price is named in
/// another denomination; the registry failed to say who owns the asset; the
/// owner is not the sender; the registry did not authorize the escrow to
/// move the asset; a trade is already kept under the key.
pub open spec fn create_trade_refusal(
    escrow: EscrowView,
    info: MessageInfoView,
    nft_addr: Seq<char>,
    nft_id: Seq<char>,
    buyer_addr: Seq<char>,
    price: CoinView,
    owner_of: Result<OwnerOfResponse, cosmwasm_std::StdError>,
    approval: Result<(), cosmwasm_std::StdError>,
) -> Option<ContractErrorView> {
    if escrow.config.e_break {
        Some(ContractErrorView::EmergencyBreakActivated)
    } else if let Err(e) = must_pay_outcome(info.funds, NATIVE_DENOM@) {
        Some(ContractErrorView::TradePaymentError(e))
    } else if must_pay_outcome(info.funds, NATIVE_DENOM@)->Ok_0 != escrow.config.listing_fee {
        Some(ContractErrorView::MissingListingFee)
    } else if price.denom != NATIVE_DENOM@ {
        Some(ContractErrorView::InvalidPrice)
    } else if let Err(e) = owner_of {
        Some(ContractErrorView::Std(e))
    } else if owner_of->Ok_0.owner@ != info.sender {
        Some(ContractErrorView::UnauthorizedOwner)
    } else if let Err(e) = approval {
        Some(ContractErrorView::Std(e))
    } else if has_key(escrow.trades, (buyer_addr, nft_addr, nft_id)) {
        Some(ContractErrorView::TradeAlreadyExists)
    } else {
        None
    }
}

/// The answer to a listing that was accepted: the listing fee goes to the
/// arbiter, and an event tells of the new trade.
pub open spec fn create_trade_response(cfg: ConfigView, t: TradeView) -> ResponseView {
    ResponseView::new().add_message(
        InstructionView::Send {
            to_address: cfg.fee_admin,
            amount: one_coin(cfg.listing_fee, NATIVE_DENOM@),
        },
    ).add_event(
        EventView::new("create-trade"@).add_attribute("action"@, "try_create_trade"@).add_attribute(
            "seller"@,
            t.seller,
        ).add_attribute("buyer"@, t.buyer).add_attribute(
            "price"@,
            decimal_text(t.price.amount as nat),
        ),
    )
}

/// Lists the asset `nft_id` of collection `nft_addr` for sale to
/// `buyer_addr` at `price`. The sender of the request is the seller.
/// `owner_of` is what the registry answered when asked for the owner of the
/// asset, `approval` what it answered when asked to let the escrow move it.
pub fn try_create_trade(
    deps: &mut Escrow,
    env: ExecuteEnv,
    nft_addr: String,
    nft_id: String,
    buyer_addr: String,
    price: Coin,
    owner_of: Result<OwnerOfResponse, cosmwasm_std::StdError>,
    approval: Result<(), cosmwasm_std::StdError>,
) -> (r: Result<Response, ContractError>)
    requires
        old(deps).wf(),
    ensures
        final(deps).wf(),
        match create_trade_refusal(
            old(deps)@,
            env.info@,
            nft_addr@,
            nft_id@,
            buyer_addr@,
            price@,
            owner_of,
            approval,
        ) {
            Some(e) => fails_with(r, e) && final(deps)@ == old(deps)@,
            None => {
                let t = listed_trade(
                    old(deps)@.config,
                    env.info@.sender,
                    nft_addr@,
                    nft_id@,
                    buyer_addr@,
                    price@,
                );
                &&& succeeds_with(r, create_trade_response(old(deps)@.config, t))
                &&& final(deps)@ == (EscrowView {
                    config: old(deps)@.config,
                    trades: upsert(old(deps)@.trades, t),
                })
            },
        },
{
    let ExecuteEnv { env: _, info } = env;
    if deps.config.e_break {
        return Err(ContractError::EmergencyBreakActivated {  });
    }
    let amount_send = match must_pay(&info, NATIVE_DENOM) {
        Ok(amount) => amount,
        Err(e) => {
            return Err(ContractError::TradePaymentError(e));
        },
    };
    if deps.config.listing_fee != amount_send {
        return Err(ContractError::MissingListingFee {  });
    }
    match price_validate(&price) {
        Ok(()) => {},
        Err(e) => {
            return Err(e);
        },
    }
    match only_owner(owner_of, &info) {
        Ok(_) => {},
        Err(e) => {
            return Err(e);
        },
    }
    match approval {
        Ok(()) => {},
        Err(e) => {
            return Err(ContractError::Std(e));
        },
    }
    let seller = info.sender;
    let tradekey = trade_key(&buyer_addr, &nft_addr, nft_id.clone());
    if deps.trades.may_load(&tradekey).is_some() {
        return Err(ContractError::TradeAlreadyExists {  });
    }
    let event = Event::new("create-trade").add_attribute(
        "action",
        "try_create_trade".to_string(),
    ).add_attribute("seller", seller.clone()).add_attribute(
        "buyer",
        buyer_addr.clone(),
    ).add_attribute("price", amount_text(price.amount));
    let transfer_fee_to_fee_admin = Instruction::Send {
        to_address: deps.config.fee_admin.clone(),
        amount: coins(deps.config.listing_fee, NATIVE_DENOM),
    };
    let trade = Trade {
        seller,
        buyer: buyer_addr,
        price,
        nft_collection: nft_addr,
        nft_id,
        seller_fee: deps.config.seller_fee,
        buyer_fee: deps.config.buyer_fee,
        is_confirmed_trade: false,
    };
    deps.trades.save(trade);
    Ok(Response::new().add_message(transfer_fee_to_fee_admin).add_event(event))
}

/// The characters of an optional text.
pub open spec fn text_of(text: Option<String>) -> Option<Seq<char>> {
    match text {
        Some(t) => Some(t@),
        None => None,
    }
}

/// The trades that `seller` has listed.
pub open spec fn sold_by(seller: Seq<char>) -> spec_fn(TradeView) -> bool {
    |t: TradeView| t.seller == seller
}

/// The trades that `seller` has listed for the asset `nft_id` of
/// `nft_collection`, in ascending order of their buyers.
pub open spec fn sellers_trades(
    trades: Seq<TradeView>,
    seller: Seq<char>,
    nft_collection: Seq<char>,
    nft_id: Seq<char>,
) -> Seq<TradeView> {
    for_asset(trades, nft_collection, nft_id).filter(sold_by(seller))
}

/// Why a cancellation is refused, if it is: the first of these that holds.
/// The escrow is halted; funds were sent; both a buyer and a seller are
/// named; neither is named. Where the buyer is named: no trade is kept for
/// him and the asset. Where the seller is named: no trade at all is kept for
/// the asset; none of the trades kept for it is his.
pub open spec fn cancel_trade_refusal(
    escrow: EscrowView,
    info: MessageInfoView,
    buyer: Option<Seq<char>>,
    seller: Option<Seq<char>>,
    nft_collection: Seq<char>,
    nft_id: Seq<char>,
) -> Option<ContractErrorView> {
    if escrow.config.e_break {
        Some(ContractErrorView::EmergencyBreakActivated)
    } else if let Err(e) = nonpayable_outcome(info.funds) {
        Some(ContractErrorView::TradePaymentError(e))
    } else if buyer.is_some() && seller.is_some() {
        Some(ContractErrorView::AmbiguousParty)
    } else if buyer.is_none() && seller.is_none() {
        Some(ContractErrorView::ParameterMissing)
    } else if buyer.is_some() {
        if !has_key(escrow.trades, (buyer->0, nft_collection, nft_id)) {
            Some(ContractErrorView::TradeNotFound)
        } else {
            None
        }
    } else {
        if for_asset(escrow.trades, nft_collection, nft_id).len() == 0 {
            Some(ContractErrorView::TradeNotFound)
        } else if sellers_trades(escrow.trades, seller->0, nft_collection, nft_id).len() == 0 {
            Some(ContractErrorView::Unauthorized)
        } else {
            None
        }
    }
}

/// The key of the trade that a cancellation takes out. A buyer has one
/// trade at most for an asset, and that is meant. A seller may have listed
/// an asset for several buyers: his trade for the buyer who sorts first is
/// meant, and the others stay until he cancels again.
pub open spec fn cancel_key(
    trades: Seq<TradeView>,
    buyer: Option<Seq<char>>,
    seller: Option<Seq<char>>,
    nft_collection: Seq<char>,
    nft_id: Seq<char>,
) -> KeyView {
    if buyer.is_some() {
        (buyer->0, nft_collection, nft_id)
    } else {
        sellers_trades(trades, seller->0, nft_collection, nft_id)[0].key()
    }
}

/// The answer to a cancellation that was accepted: one event, which names
/// the side that cancelled.
pub open spec fn cancel_trade_response(
    buyer: Option<Seq<char>>,
    seller: Option<Seq<char>>,
    nft_collection: Seq<char>,
    nft_id: Seq<char>,
) -> ResponseView {
    if buyer.is_some() {
        ResponseView::new().add_event(
            EventView::new("buyer-cancels-trade"@).add_attribute(
                "collection"@,
                nft_collection,
            ).add_attribute("nft_id"@, nft_id).add_attribute("buyer"@, buyer->0),
        )
    } else {
        ResponseView::new().add_event(
            EventView::new("seller-cancels-trade"@).add_attribute(
                "collection"@,
                nft_collection,
            ).add_attribute("nft_id"@, nft_id).add_attribute("seller"@, seller->0),
        )
    }
}

/// Withdraws a trade, confirmed or not. Exactly one of `buyer` and `seller`
/// names the side that withdraws: the buyer withdraws the trade kept for him
/// and the asset, the seller the trade that he has listed for the asset.
pub fn try_cancel_trade(
    deps: &mut Escrow,
    info: MessageInfo,
    buyer: Option<String>,
    seller: Option<String>,
    nft_collection: String,
    nft_id: String,
) -> (r: Result<Response, ContractError>)
    requires
        old(deps).wf(),
    ensures
        final(deps).wf(),
        match cancel_trade_refusal(
            old(deps)@,
            info@,
            text_of(buyer),
            text_of(seller),
            nft_collection@,
            nft_id@,
        ) {
            Some(e) => fails_with(r, e) && final(deps)@ == old(deps)@,
            None => {
                &&& succeeds_with(
                    r,
                    cancel_trade_response(
                        text_of(buyer),
                        text_of(seller),
                        nft_collection@,
                        nft_id@,
                    ),
                )
                &&& final(deps)@ == (EscrowView {
                    config: old(deps)@.config,
                    trades: without(
                        old(deps)@.trades,
                        cancel_key(
                            old(deps)@.trades,
                            text_of(buyer),
                            text_of(seller),
                            nft_collection@,
                            nft_id@,
                        ),
                    ),
                })
            },
        },
{
    if deps.config.e_break {
        return Err(ContractError::EmergencyBreakActivated {  });
    }
    match nonpayable(&info) {
        Ok(()) => {},
        Err(e) => {
            return Err(ContractError::TradePaymentError(e));
        },
    }
    match (buyer, seller) {
        (Some(_), Some(_)) => Err(ContractError::AmbiguousParty {  }),
        (None, None) => Err(ContractError::ParameterMissing {  }),
        (Some(buyer), None) => {
            let key = trade_key(&buyer, &nft_collection, nft_id.clone());
            if deps.trades.may_load(&key).is_none() {
                return Err(ContractError::TradeNotFound {  });
            }
            deps.trades.remove(&key);
            let event = Event::new("buyer-cancels-trade").add_attribute(
                "collection",
                nft_collection,
            ).add_attribute("nft_id", nft_id).add_attribute("buyer", buyer);
            Ok(Response::new().add_event(event))
        },
        (None, Some(seller)) => {
            let kept = deps.trades.scan_asset(nft_collection.as_str(), nft_id.as_str());
            if kept.len() == 0 {
                return Err(ContractError::TradeNotFound {  });
            }
            let ghost listed = trade_views(kept@);
            let mut i: usize = 0;
            while i < kept.len() && !text_eq(kept[i].seller.as_str(), seller.as_str())
                invariant
                    i <= kept.len(),
                    listed == trade_views(kept@),
                    forall|j: int| 0 <= j < i ==> !sold_by(seller@)(#[trigger] listed[j]),
                decreases kept.len() - i,
            {
                i += 1;
            }
            if i == kept.len() {
                proof {
                    lemma_filter_none(listed, sold_by(seller@));
                }
                return Err(ContractError::Unauthorized {  });
            }
            proof {
                lemma_filter_first(listed, sold_by(seller@), i as int);
            }
            let key = trade_key(&kept[i].buyer, &kept[i].nft_collection, kept[i].nft_id.clone());
            deps.trades.remove(&key);
            let event = Event::new("seller-cancels-trade").add_attribute(
                "collection",
                nft_collection,
            ).add_attribute("nft_id", nft_id).add_attribute("seller", seller);
            Ok(Response::new().add_event(event))
        },
    }
}

/// The amounts that change hands when a trade is executed.
#[derive(Clone, Copy, Debug, PartialEq, Eq, Structural)]
pub struct Settlement {
    /// What the buyer pays on top of the price.
    pub buyer_fee: u128,
    /// What is taken from the price before the seller gets it.
    pub seller_fee: u128,
    /// What the buyer has to send: price and buyer's fee.
    pub expected: u128,
    /// What goes to the commission recipient: both fees.
    pub commission: u128,
    /// What goes to the seller: the price less the seller's fee.
    pub net: u128,
}

/// The amounts of trade `t`: each fee is its fraction of the price, rounded
/// down. There are none where a fee or the sum to send does not fit in 128
/// bits, or where the seller's fee is more than the price.
pub open spec fn settlement(t: TradeView) -> Option<Settlement> {
    let price = t.price.amount as nat;
    let buyer_fee = t.buyer_fee.floor_mul(price);
    let seller_fee = t.seller_fee.floor_mul(price);
    if buyer_fee > u128::MAX || seller_fee > u128::MAX || price + buyer_fee > u128::MAX
        || seller_fee > price {
        None
    } else {
        Some(
            Settlement {
                buyer_fee: buyer_fee as u128,
                seller_fee: seller_fee as u128,
                expected: (price + buyer_fee) as u128,
                commission: (buyer_fee + seller_fee) as u128,
                net: (price - seller_fee) as u128,
            },
        )
    }
}

/// Works out the amounts of `trade`. What the buyer sends is what the
/// seller and the commission recipient get between them.
pub fn settle(trade: &Trade) -> (amounts: Option<Settlement>)
    ensures
        amounts == settlement(trade@),
        amounts matches Some(s) ==> s.net + s.commission == s.expected,
{
    let price = trade.price.amount;
    let buyer_fee = match checked_mul_floor(price, trade.buyer_fee) {
        Some(fee) => fee,
        None => {
            return None;
        },
    };
    let seller_fee = match checked_mul_floor(price, trade.seller_fee) {
        Some(fee) => fee,
        None => {
            return None;
        },
    };
    let expected = match price.checked_add(buyer_fee) {
        Some(sum) => sum,
        None => {
            return None;
        },
    };
    if seller_fee > price {
        return None;
    }
    Some(
        Settlement {
            buyer_fee,
            seller_fee,
            expected,
            commission: buyer_fee + seller_fee,
            net: price - seller_fee,
        },
    )
}

/// The bytes that ask a registry to hand the asset `token_id` to
/// `recipient`, or `None` where the request cannot be encoded.
pub uninterp spec fn transfer_nft_body(recipient: Seq<char>, token_id: Seq<char>) -> Option<
    Seq<u8>,
>;

/// `to_json_binary` of cosmwasm_std, on the message `TransferNft` of cw721
/// with the same recipient and asset id. Whether the encoder succeeds, and
/// the bytes of a success, which are the JSON text of that message, depend
/// on the two texts alone.
#[verifier::external_body]
fn encode_transfer_nft(recipient: &str, token_id: &str) -> (body: Result<
    Vec<u8>,
    cosmwasm_std::StdError,
>)
    ensures
        match body {
            Ok(bytes) => transfer_nft_body(recipient@, token_id@) == Some(bytes@),
            Err(_) => transfer_nft_body(recipient@, token_id@) is None,
        },
{
    let msg = cw721::Cw721ExecuteMsg::TransferNft {
        token_id: token_id.to_string(),
        recipient: recipient.to_string(),
    };
    match cosmwasm_std::to_json_binary(&msg) {
        Ok(binary) => Ok(binary.0),
        Err(e) => Err(e),
    }
}

/// `res` with the instruction that moves the asset of trade `t` to its
/// buyer, encoded as `body`, and with the event that tells of the swap.
pub open spec fn with_nft_transfer(res: ResponseView, t: TradeView, body: Seq<u8>) -> ResponseView {
    res.add_message(
        InstructionView::Execute {
            contract_addr: t.nft_collection,
            msg: body,
            funds: Seq::<CoinView>::empty(),
        },
    ).add_event(
        EventView::new("finalize-switch"@).add_attribute(
            "nft_collection"@,
            t.nft_collection,
        ).add_attribute("nft_id"@, t.nft_id).add_attribute("seller"@, t.seller).add_attribute(
            "buyer"@,
            t.buyer,
        ).add_attribute("price"@, decimal_text(t.price.amount as nat) + t.price.denom),
    )
}

/// Puts into `res` the instruction that moves the asset of `trade` to its
/// buyer, with the encoded request `body`, and the event that tells of the
/// swap.
pub fn push_nft_transfer(trade: &Trade, body: Vec<u8>, res: &mut Response)
    ensures
        final(res)@ == with_nft_transfer(old(res)@, trade@, body@),
{
    let funds: Vec<Coin> = Vec::new();
    assert(crate::state::coin_views(funds@) =~= Seq::<CoinView>::empty());
    res.push_message(
        Instruction::Execute { contract_addr: trade.nft_collection.clone(), msg: body, funds },
    );
    let event = Event::new("finalize-switch").add_attribute(
        "nft_collection",
        trade.nft_collection.clone(),
    ).add_attribute("nft_id", trade.nft_id.clone()).add_attribute(
        "seller",
        trade.seller.clone(),
    ).add_attribute("buyer", trade.buyer.clone()).add_attribute("price", coin_text(&trade.price));
    res.push_event(event);
}

/// Puts into `res` the instruction that moves the asset of `trade` to its
/// buyer, and the event that tells of the swap. Where the request to the
/// registry cannot be encoded, and only there, `res` stays as it is and the
/// encoder's failure is returned.
pub fn transfer_nft(trade: &Trade, res: &mut Response) -> (done: Result<
    (),
    cosmwasm_std::StdError,
>)
    ensures
        match transfer_nft_body(trade@.buyer, trade@.nft_id) {
            Some(bytes) => done.is_ok() && final(res)@ == with_nft_transfer(
                old(res)@,
                trade@,
                bytes,
            ),
            None => done.is_err() && final(res)@ == old(res)@,
        },
{
    match encode_transfer_nft(trade.buyer.as_str(), trade.nft_id.as_str()) {
        Ok(body) => {
            push_nft_transfer(trade, body, res);
            Ok(())
        },
        Err(e) => Err(e),
    }
}

/// `res` with the instruction that pays `amount` to the seller of `t`.
pub open spec fn with_seller_payment(res: ResponseView, t: TradeView, amount: u128) -> ResponseView {
    res.add_message(
        InstructionView::Send { to_address: t.seller, amount: one_coin(amount, NATIVE_DENOM@) },
    )
}

/// Puts into `res` the instruction that pays `amount` to the seller of
/// `trade`.
pub fn transfer_coin_to_seller(trade: &Trade, amount: u128, res: &mut Response)
    ensures
        final(res)@ == with_seller_payment(old(res)@, trade@, amount),
{
    res.push_message(
        Instruction::Send { to_address: trade.seller.clone(), amount: coins(amount, NATIVE_DENOM) },
    );
}

/// `res` with the instruction that hands `commission` to the commission
/// recipient of `cfg`, to be split among the payees.
pub open spec fn with_commission(res: ResponseView, cfg: ConfigView, commission: u128) -> ResponseView {
    res.add_message(
        InstructionView::Disburse {
            contract_addr: cfg.commission_addr,
            reward: DisburseReward { amount: commission },
            funds: one_coin(commission, NATIVE_DENOM@),
        },
    )
}

/// Puts into `res` the instruction that hands `commission` to the
/// commission recipient, to be split among the payees.
pub fn transfer_commission(deps: &Escrow, commission: u128, res: &mut Response)
    ensures
        final(res)@ == with_commission(old(res)@, deps@.config, commission),
{
    res.push_message(
        Instruction::Disburse {
            contract_addr: deps.config.commission_addr.clone(),
            reward: DisburseReward { amount: commission },
            funds: coins(commission, NATIVE_DENOM),
        },
    );
}

/// Why an execution is refused, if it is: the first of these that holds.
/// The escrow is halted; no trade is kept under the key; the trade is not
/// confirmed; the sender is not its buyer; its amounts cannot be worked out;
/// something is to be paid and the funds sent are not one coin of the native
/// denomination; their amount is not exactly the price and the buyer's fee.
pub open spec fn execute_trade_refusal(
    escrow: EscrowView,
    info: MessageInfoView,
    buyer: Seq<char>,
    nft_collection: Seq<char>,
    nft_id: Seq<char>,
) -> Option<ContractErrorView> {
    let k = (buyer, nft_collection, nft_id);
    let t = record_at(escrow.trades, k);
    let paid = must_pay_outcome(info.funds, NATIVE_DENOM@);
    if escrow.config.e_break {
        Some(ContractErrorView::EmergencyBreakActivated)
    } else if !has_key(escrow.trades, k) {
        Some(ContractErrorView::TradeNotFound)
    } else if !t.is_confirmed_trade {
        Some(ContractErrorView::TradeNotConfirmed)
    } else if info.sender != t.buyer {
        Some(ContractErrorView::Unauthorized)
    } else if settlement(t).is_none() {
        Some(ContractErrorView::Overflow)
    } else if settlement(t)->0.expected == 0 {
        None
    } else if let Err(e) = paid {
        Some(ContractErrorView::TradePaymentError(e))
    } else if paid->Ok_0 != settlement(t)->0.expected {
        Some(ContractErrorView::PaymentAmountMismatch)
    } else {
        None
    }
}

/// The answer to an execution that was accepted. The asset goes to the
/// buyer; the seller is paid where anything is left for him; the commission
/// recipient is paid where there is a commission; the attributes name the
/// parties, the fees and the asset.
pub open spec fn execute_trade_response(
    cfg: ConfigView,
    t: TradeView,
    s: Settlement,
    body: Seq<u8>,
) -> ResponseView {
    let moved = with_nft_transfer(ResponseView::new(), t, body);
    let paid = if s.net != 0 {
        with_seller_payment(moved, t, s.net)
    } else {
        moved
    };
    let shared = if s.commission != 0 {
        with_commission(paid, cfg, s.commission)
    } else {
        paid
    };
    shared.add_attribute("method"@, "execute_trade"@).add_attribute("buyer"@, t.buyer).add_attribute(
        "buyer_fee"@,
        decimal_text(s.buyer_fee as nat),
    ).add_attribute("seller"@, t.seller).add_attribute(
        "seller_fee"@,
        decimal_text(s.seller_fee as nat),
    ).add_attribute("commission"@, decimal_text(s.commission as nat)).add_attribute(
        "nft_collection"@,
        t.nft_collection,
    ).add_attribute("nft_id"@, t.nft_id)
}

/// Executes the trade kept under `(buyer, nft_collection, nft_id)`, where
/// `body` is what encoding the request to the registry gave: on a failure of
/// the encoder nothing is handed out and nothing changes.
pub fn execute_trade_with(
    deps: &mut Escrow,
    env: ExecuteEnv,
    buyer: String,
    nft_collection: String,
    nft_id: String,
    body: Result<Vec<u8>, cosmwasm_std::StdError>,
) -> (r: Result<Response, ContractError>)
    requires
        old(deps).wf(),
    ensures
        final(deps).wf(),
        match execute_trade_refusal(old(deps)@, env.info@, buyer@, nft_collection@, nft_id@) {
            Some(e) => fails_with(r, e) && final(deps)@ == old(deps)@,
            None => match body {
                Err(e) => fails_with(r, ContractErrorView::Std(e)) && final(deps)@ == old(deps)@,
                Ok(bytes) => {
                    let k = (buyer@, nft_collection@, nft_id@);
                    let t = record_at(old(deps)@.trades, k);
                    &&& succeeds_with(
                        r,
                        execute_trade_response(old(deps)@.config, t, settlement(t)->0, bytes@),
                    )
                    &&& final(deps)@ == (EscrowView {
                        config: old(deps)@.config,
                        trades: without(old(deps)@.trades, k),
                    })
                },
            },
        },
{
    let ExecuteEnv { env: _, info } = env;
    if deps.config.e_break {
        return Err(ContractError::EmergencyBreakActivated {  });
    }
    let trade_key = trade_key(&buyer, &nft_collection, nft_id);
    let trade = match deps.trades.may_load(&trade_key) {
        Some(trade) => trade,
        None => {
            return Err(ContractError::TradeNotFound {  });
        },
    };
    if !trade.is_confirmed_trade {
        return Err(ContractError::TradeNotConfirmed {  });
    }
    if !text_eq(info.sender.as_str(), trade.buyer.as_str()) {
        return Err(ContractError::Unauthorized {  });
    }
    let amounts = match settle(&trade) {
        Some(amounts) => amounts,
        None => {
            return Err(ContractError::Overflow {  });
        },
    };
    if amounts.expected != 0 {
        let amount_send = match must_pay(&info, NATIVE_DENOM) {
            Ok(amount) => amount,
            Err(e) => {
                return Err(ContractError::TradePaymentError(e));
            },
        };
        if amounts.expected != amount_send {
            return Err(ContractError::PaymentAmountMismatch {  });
        }
    }
    let body = match body {
        Ok(body) => body,
        Err(e) => {
            return Err(ContractError::Std(e));
        },
    };
    let mut res = Response::new();
    push_nft_transfer(&trade, body, &mut res);
    if amounts.net != 0 {
        transfer_coin_to_seller(&trade, amounts.net, &mut res);
    }
    if amounts.commission != 0 {
        transfer_commission(deps, amounts.commission, &mut res);
    }
    deps.trades.remove(&trade_key);
    Ok(
        res.add_attribute("method", "execute_trade".to_string()).add_attribute(
            "buyer",
            trade.buyer,
        ).add_attribute("buyer_fee", amount_text(amounts.buyer_fee)).add_attribute(
            "seller",
            trade.seller,
        ).add_attribute("seller_fee", amount_text(amounts.seller_fee)).add_attribute(
            "commission",
            amount_text(amounts.commission),
        ).add_attribute("nft_collection", trade.nft_collection).add_attribute(
            "nft_id",
            trade.nft_id,
        ),
    )
}

/// Executes the trade kept under `(buyer, nft_collection, nft_id)`: the
/// sender, who is the buyer, has sent price and fee, the asset goes to him,
/// the funds go to the seller and the commission recipient, and the trade
/// leaves the table. The request to the registry is encoded first; what
/// follows is [`execute_trade_with`] on what the encoder gave. A request
/// that nothing refuses fails only where the encoder does.
pub fn try_execute_trade(
    deps: &mut Escrow,
    env: ExecuteEnv,
    buyer: String,
    nft_collection: String,
    nft_id: String,
) -> (r: Result<Response, ContractError>)
    requires
        old(deps).wf(),
    ensures
        final(deps).wf(),
        match execute_trade_refusal(old(deps)@, env.info@, buyer@, nft_collection@, nft_id@) {
            Some(e) => fails_with(r, e) && final(deps)@ == old(deps)@,
            None => {
                let k = (buyer@, nft_collection@, nft_id@);
                let t = record_at(old(deps)@.trades, k);
                match transfer_nft_body(buyer@, nft_id@) {
                    Some(bytes) => {
                        &&& succeeds_with(
                            r,
                            execute_trade_response(
                                old(deps)@.config,
                                t,
                                settlement(t)->0,
                                bytes,
                            ),
                        )
                        &&& final(deps)@ == (EscrowView {
                            config: old(deps)@.config,
                            trades: without(old(deps)@.trades, k),
                        })
                    },
                    None => (r matches Err(e) && e@ is Std) && final(deps)@ == old(deps)@,
                }
            },
        },
{
    let body = encode_transfer_nft(buyer.as_str(), nft_id.as_str());
    execute_trade_with(deps, env, buyer, nft_collection, nft_id, body)
}

/// Why a confirmation or rejection is refused, if it is: the first of these
/// that holds. Funds were sent; the escrow is halted; the sender is not the
/// arbiter; no trade is kept under the key; the trade is to be confirmed and
/// is confirmed already.
pub open spec fn confirm_trade_refusal(
    escrow: EscrowView,
    info: MessageInfoView,
    buyer: Seq<char>,
    nft_collection: Seq<char>,
    nft_id: Seq<char>,
    is_confirmed_by_fee_admin: bool,
) -> Option<ContractErrorView> {
    let k = (buyer, nft_collection, nft_id);
    if let Err(e) = nonpayable_outcome(info.funds) {
        Some(ContractErrorView::TradePaymentError(e))
    } else if escrow.config.e_break {
        Some(ContractErrorView::EmergencyBreakActivated)
    } else if info.sender != escrow.config.fee_admin {
        Some(ContractErrorView::UnauthorizedOwner)
    } else if !has_key(escrow.trades, k) {
        Some(ContractErrorView::TradeNotFound)
    } else if is_confirmed_by_fee_admin && record_at(escrow.trades, k).is_confirmed_trade {
        Some(ContractErrorView::AlreadyConfirmedFees)
    } else {
        None
    }
}

/// Trade `t` once the arbiter has confirmed it with these fee fractions.
pub open spec fn confirmed_trade(t: TradeView, seller_fee_pct: Decimal, buyer_fee_pct: Decimal) -> TradeView {
    TradeView { is_confirmed_trade: true, seller_fee: seller_fee_pct, buyer_fee: buyer_fee_pct, ..t }
}

/// The trades after the arbiter has spoken: without the trade where he
/// rejected it, with the confirmed trade in its place where he confirmed.
pub open spec fn trades_after_confirm(
    trades: Seq<TradeView>,
    k: KeyView,
    seller_fee_pct: Decimal,
    buyer_fee_pct: Decimal,
    is_confirmed_by_fee_admin: bool,
) -> Seq<TradeView> {
    if is_confirmed_by_fee_admin {
        upsert(trades, confirmed_trade(record_at(trades, k), seller_fee_pct, buyer_fee_pct))
    } else {
        without(trades, k)
    }
}

/// The answer to the arbiter: one attribute, which says what was done.
pub open spec fn confirm_trade_response(is_confirmed_by_fee_admin: bool) -> ResponseView {
    if is_confirmed_by_fee_admin {
        ResponseView::new().add_attribute("method"@, "update_fees"@)
    } else {
        ResponseView::new().add_attribute("method"@, "remove_trade"@)
    }
}

/// The arbiter's word on the trade kept under `(buyer, nft_collection,
/// nft_id)`. With `is_confirmed_by_fee_admin` the trade is confirmed, once
/// and for all, with the fee fractions given; without it the trade is taken
/// out of the table, confirmed or not.
pub fn try_confirm_trade(
    deps: &mut Escrow,
    env: ExecuteEnv,
    buyer: String,
    nft_collection: String,
    nft_id: String,
    seller_fee_pct: Decimal,
    buyer_fee_pct: Decimal,
    is_confirmed_by_fee_admin: bool,
) -> (r: Result<Response, ContractError>)
    requires
        old(deps).wf(),
    ensures
        final(deps).wf(),
        match confirm_trade_refusal(
            old(deps)@,
            env.info@,
            buyer@,
            nft_collection@,
            nft_id@,
            is_confirmed_by_fee_admin,
        ) {
            Some(e) => fails_with(r, e) && final(deps)@ == old(deps)@,
            None => {
                &&& succeeds_with(r, confirm_trade_response(is_confirmed_by_fee_admin))
                &&& final(deps)@ == (EscrowView {
                    config: old(deps)@.config,
                    trades: trades_after_confirm(
                        old(deps)@.trades,
                        (buyer@, nft_collection@, nft_id@),
                        seller_fee_pct,
                        buyer_fee_pct,
                        is_confirmed_by_fee_admin,
                    ),
                })
            },
        },
{
    let ExecuteEnv { env: _, info } = env;
    match nonpayable(&info) {
        Ok(()) => {},
        Err(e) => {
            return Err(ContractError::TradePaymentError(e));
        },
    }
    if deps.config.e_break {
        return Err(ContractError::EmergencyBreakActivated {  });
    }
    if !text_eq(info.sender.as_str(), deps.config.fee_admin.as_str()) {
        return Err(ContractError::UnauthorizedOwner {  });
    }
    let trade_key = trade_key(&buyer, &nft_collection, nft_id);
    let mut trade = match deps.trades.may_load(&trade_key) {
        Some(trade) => trade,
        None => {
            return Err(ContractError::TradeNotFound {  });
        },
    };
    if !is_confirmed_by_fee_admin {
        deps.trades.remove(&trade_key);
        Ok(Response::new().add_attribute("method", "remove_trade".to_string()))
    } else {
        if trade.is_confirmed_trade {
            return Err(ContractError::AlreadyConfirmedFees {  });
        }
        trade.is_confirmed_trade = true;
        trade.buyer_fee = buyer_fee_pct;
        trade.seller_fee = seller_fee_pct;
        deps.trades.save(trade);
        Ok(Response::new().add_attribute("method", "update_fees".to_string()))
    }
}

/// The settings with each field replaced for which a new value is given.
pub open spec fn updated_config(
    cfg: ConfigView,
    admin: Option<Seq<char>>,
    fee_admin: Option<Seq<char>>,
    commission_addr: Option<Seq<char>>,
    buyer_fee: Option<Decimal>,
    seller_fee: Option<Decimal>,
    listing_fee: Option<u128>,
    e_break: Option<bool>,
) -> ConfigView {
    ConfigView {
        admin: if admin.is_some() {
            admin->0
        } else {
            cfg.admin
        },
        fee_admin: if fee_admin.is_some() {
            fee_admin->0
        } else {
            cfg.fee_admin
        },
        commission_addr: if commission_addr.is_some() {
            commission_addr->0
        } else {
            cfg.commission_addr
        },
        buyer_fee: if buyer_fee.is_some() {
            buyer_fee->0
        } else {
            cfg.buyer_fee
        },
        seller_fee: if seller_fee.is_some() {
            seller_fee->0
        } else {
            cfg.seller_fee
        },
        listing_fee: if listing_fee.is_some() {
            listing_fee->0
        } else {
            cfg.listing_fee
        },
        e_break: if e_break.is_some() {
            e_break->0
        } else {
            cfg.e_break
        },
    }
}

/// Replaces the settings for which a new value is given. Only the
/// administrator may do so; the halt does not stand in his way.
pub fn try_update_config(
    deps: &mut Escrow,
    _env: Env,
    info: MessageInfo,
    admin: Option<String>,
    fee_admin: Option<String>,
    commission_addr: Option<String>,
    buyer_fee: Option<Decimal>,
    seller_fee: Option<Decimal>,
    listing_fee: Option<u128>,
    e_break: Option<bool>,
) -> (r: Result<Response, ContractError>)
    requires
        old(deps).wf(),
    ensures
        final(deps).wf(),
        if info@.sender != old(deps)@.config.admin {
            fails_with(r, ContractErrorView::Unauthorized) && final(deps)@ == old(deps)@
        } else {
            &&& succeeds_with(
                r,
                ResponseView::new().add_attribute("action"@, "update_config"@),
            )
            &&& final(deps)@ == (EscrowView {
                config: updated_config(
                    old(deps)@.config,
                    text_of(admin),
                    text_of(fee_admin),
                    text_of(commission_addr),
                    buyer_fee,
                    seller_fee,
                    listing_fee,
                    e_break,
                ),
                trades: old(deps)@.trades,
            })
        },
{
    if !text_eq(info.sender.as_str(), deps.config.admin.as_str()) {
        return Err(ContractError::Unauthorized {  });
    }
    if let Some(admin) = admin {
        deps.config.admin = admin;
    }
    if let Some(fee_admin) = fee_admin {
        deps.config.fee_admin = fee_admin;
    }
    if let Some(commission_addr) = commission_addr {
        deps.config.commission_addr = commission_addr;
    }
    if let Some(buyer_fee) = buyer_fee {
        deps.config.buyer_fee = buyer_fee;
    }
    if let Some(seller_fee) = seller_fee {
        deps.config.seller_fee = seller_fee;
    }
    if let Some(listing_fee) = listing_fee {
        deps.config.listing_fee = listing_fee;
    }
    if let Some(e_break) = e_break {
        deps.config.e_break = e_break;
    }
    Ok(Response::new().add_attribute("action", "update_config".to_string()))
}

/// A listing that comes with anything but the listing fee, as one coin of
/// the native denomination, is refused for its payment, be it too little or
/// too much. Only the halt is looked at before the payment.
pub proof fn lemma_listing_needs_exact_fee(
    escrow: EscrowView,
    info: MessageInfoView,
    nft_addr: Seq<char>,
    nft_id: Seq<char>,
    buyer_addr: Seq<char>,
    price: CoinView,
    owner_of: Result<OwnerOfResponse, cosmwasm_std::StdError>,
    approval: Result<(), cosmwasm_std::StdError>,
)
    requires
        !escrow.config.e_break,
        info.funds != one_coin(escrow.config.listing_fee, NATIVE_DENOM@),
    ensures
        create_trade_refusal(
            escrow,
            info,
            nft_addr,
            nft_id,
            buyer_addr,
            price,
            owner_of,
            approval,
        ) matches Some(e) && e.kind() == ErrorKind::PaymentMismatch,
{
    if must_pay_outcome(info.funds, NATIVE_DENOM@) == Ok::<u128, PaymentErrorView>(
        escrow.config.listing_fee,
    ) {
        assert(info.funds =~= one_coin(escrow.config.listing_fee, NATIVE_DENOM@));
    }
}

/// While a trade is kept under a key, no listing under that key is
/// accepted: it is refused because the key is taken, unless it is refused
/// for a reason that has nothing to do with the table.
pub proof fn lemma_taken_key_refused(
    escrow: EscrowView,
    info: MessageInfoView,
    nft_addr: Seq<char>,
    nft_id: Seq<char>,
    buyer_addr: Seq<char>,
    price: CoinView,
    owner_of: Result<OwnerOfResponse, cosmwasm_std::StdError>,
    approval: Result<(), cosmwasm_std::StdError>,
)
    requires
        has_key(escrow.trades, (buyer_addr, nft_addr, nft_id)),
    ensures
        ({
            let refusal = create_trade_refusal(
                escrow,
                info,
                nft_addr,
                nft_id,
                buyer_addr,
                price,
                owner_of,
                approval,
            );
            let elsewhere = create_trade_refusal(
                EscrowView { config: escrow.config, trades: Seq::empty() },
                info,
                nft_addr,
                nft_id,
                buyer_addr,
                price,
                owner_of,
                approval,
            );
            &&& refusal.is_some()
            &&& elsewhere.is_none() ==> refusal == Some(ContractErrorView::TradeAlreadyExists)
            &&& elsewhere.is_some() ==> refusal == elsewhere
        }),
{
}

/// Once a listing was accepted, a second one for the same buyer and asset
/// is refused, whoever sends it and whatever it offers: the first trade
/// holds the key.
pub proof fn lemma_duplicate_listing_refused(
    escrow: EscrowView,
    seller: Seq<char>,
    nft_addr: Seq<char>,
    nft_id: Seq<char>,
    buyer_addr: Seq<char>,
    first_price: CoinView,
    info: MessageInfoView,
    price: CoinView,
    owner_of: Result<OwnerOfResponse, cosmwasm_std::StdError>,
    approval: Result<(), cosmwasm_std::StdError>,
)
    ensures
        ({
            let first = listed_trade(
                escrow.config,
                seller,
                nft_addr,
                nft_id,
                buyer_addr,
                first_price,
            );
            let after = EscrowView { config: escrow.config, trades: upsert(escrow.trades, first) };
            &&& record_at(after.trades, (buyer_addr, nft_addr, nft_id)) == first
            &&& create_trade_refusal(
                after,
                info,
                nft_addr,
                nft_id,
                buyer_addr,
                price,
                owner_of,
                approval,
            ).is_some()
        }),
{
    let first = listed_trade(escrow.config, seller, nft_addr, nft_id, buyer_addr, first_price);
    lemma_upsert_holds(escrow.trades, first);
}

/// A trade that the arbiter has not confirmed is never executed: where the
/// escrow is not halted, the request is refused because of that, whoever
/// sends it and whatever he pays.
pub proof fn lemma_unconfirmed_not_executed(
    escrow: EscrowView,
    info: MessageInfoView,
    buyer: Seq<char>,
    nft_collection: Seq<char>,
    nft_id: Seq<char>,
)
    requires
        !escrow.config.e_break,
        has_key(escrow.trades, (buyer, nft_collection, nft_id)),
        !record_at(escrow.trades, (buyer, nft_collection, nft_id)).is_confirmed_trade,
    ensures
        execute_trade_refusal(escrow, info, buyer, nft_collection, nft_id) == Some(
            ContractErrorView::TradeNotConfirmed,
        ),
{
}

/// A trade without a price moves no funds: nothing is to be sent, and the
/// answer to its execution holds the one instruction that moves the asset.
pub proof fn lemma_free_trade_moves_no_funds(cfg: ConfigView, t: TradeView, body: Seq<u8>)
    requires
        t.price.amount == 0,
    ensures
        settlement(t) == Some(
            Settlement { buyer_fee: 0, seller_fee: 0, expected: 0, commission: 0, net: 0 },
        ),
        execute_trade_response(cfg, t, settlement(t)->0, body).messages == seq![
            InstructionView::Execute {
                contract_addr: t.nft_collection,
                msg: body,
                funds: Seq::<CoinView>::empty(),
            },
        ],
{
    lemma_floor_mul_zero(t.buyer_fee, 0);
    lemma_floor_mul_zero(t.seller_fee, 0);
    assert(execute_trade_response(cfg, t, settlement(t)->0, body).messages =~= seq![
        InstructionView::Execute {
            contract_addr: t.nft_collection,
            msg: body,
            funds: Seq::<CoinView>::empty(),
        },
    ]);
}

/// What the buyer sends is what the seller and the commission recipient
/// get between them, and the commission is the two fees.
pub proof fn lemma_settlement_balances(t: TradeView)
    requires
        settlement(t).is_some(),
    ensures
        settlement(t)->0.net + settlement(t)->0.commission == settlement(t)->0.expected,
        settlement(t)->0.commission == settlement(t)->0.buyer_fee + settlement(t)->0.seller_fee,
        settlement(t)->0.expected == t.price.amount + settlement(t)->0.buyer_fee,
{
}

/// Who names himself as seller of an asset that others have listed cannot
/// cancel: where trades are kept for the asset and none of them is his, the
/// request is refused for want of authority. Only the halt and funds sent
/// are looked at before.
pub proof fn lemma_cancel_by_stranger_refused(
    escrow: EscrowView,
    info: MessageInfoView,
    seller: Seq<char>,
    t: TradeView,
)
    requires
        !escrow.config.e_break,
        info.funds.len() == 0,
        escrow.trades.contains(t),
        forall|u: TradeView| #[trigger]
            escrow.trades.contains(u) && u.nft_collection == t.nft_collection && u.nft_id
                == t.nft_id ==> u.seller != seller,
    ensures
        cancel_trade_refusal(escrow, info, None, Some(seller), t.nft_collection, t.nft_id)
            == Some(ContractErrorView::Unauthorized),
{
    let kept = for_asset(escrow.trades, t.nft_collection, t.nft_id);
    lemma_for_asset(escrow.trades, t.nft_collection, t.nft_id, t);
    assert(kept.len() > 0) by {
        let i = choose|i: int| 0 <= i < kept.len() && kept[i] == t;
    }
    assert forall|i: int| 0 <= i < kept.len() implies !sold_by(seller)(#[trigger] kept[i]) by {
        assert(kept.contains(kept[i]));
        lemma_for_asset(escrow.trades, t.nft_collection, t.nft_id, kept[i]);
    }
    lemma_filter_none(kept, sold_by(seller));
}

/// The seller of a trade can cancel it, whoever the buyer is and confirmed
/// or not: where the escrow is not halted and no funds were sent, nothing
/// refuses him. The trade that leaves the table is one that he has listed
/// for the asset, and it is this one where he has listed no other for it.
pub proof fn lemma_seller_cancels_own(escrow: EscrowView, info: MessageInfoView, t: TradeView)
    requires
        !escrow.config.e_break,
        info.funds.len() == 0,
        escrow.trades.contains(t),
    ensures
        cancel_trade_refusal(
            escrow,
            info,
            None,
            Some(t.seller),
            t.nft_collection,
            t.nft_id,
        ).is_none(),
        ({
            let gone = sellers_trades(escrow.trades, t.seller, t.nft_collection, t.nft_id)[0];
            &&& escrow.trades.contains(gone)
            &&& gone.seller == t.seller
            &&& gone.nft_collection == t.nft_collection
            &&& gone.nft_id == t.nft_id
            &&& gone.key() == cancel_key(
                escrow.trades,
                None,
                Some(t.seller),
                t.nft_collection,
                t.nft_id,
            )
        }),
        (forall|u: TradeView| #[trigger]
            escrow.trades.contains(u) && u.nft_collection == t.nft_collection && u.nft_id
                == t.nft_id && u.seller == t.seller ==> u == t) ==> cancel_key(
            escrow.trades,
            None,
            Some(t.seller),
            t.nft_collection,
            t.nft_id,
        ) == t.key(),
{
    let kept = for_asset(escrow.trades, t.nft_collection, t.nft_id);
    let mine = sellers_trades(escrow.trades, t.seller, t.nft_collection, t.nft_id);
    lemma_for_asset(escrow.trades, t.nft_collection, t.nft_id, t);
    let i = choose|i: int| 0 <= i < kept.len() && kept[i] == t;
    kept.lemma_filter_contains(sold_by(t.seller), i);
    assert(mine.len() > 0) by {
        let j = choose|j: int| 0 <= j < mine.len() && mine[j] == t;
    }
    let first = mine[0];
    kept.lemma_filter_pred(sold_by(t.seller), 0);
    assert(mine.contains(first));
    kept.lemma_filter_contains_rev(sold_by(t.seller), first);
    lemma_for_asset(escrow.trades, t.nft_collection, t.nft_id, first);
}

/// A trade is confirmed once: a request to confirm a confirmed trade is
/// always refused, and because of that where the arbiter sends it without
/// funds while the escrow is not halted.
pub proof fn lemma_confirmed_once(
    escrow: EscrowView,
    info: MessageInfoView,
    buyer: Seq<char>,
    nft_collection: Seq<char>,
    nft_id: Seq<char>,
)
    requires
        has_key(escrow.trades, (buyer, nft_collection, nft_id)),
        record_at(escrow.trades, (buyer, nft_collection, nft_id)).is_confirmed_trade,
    ensures
        confirm_trade_refusal(escrow, info, buyer, nft_collection, nft_id, true).is_some(),
        info.funds.len() == 0 && !escrow.config.e_break && info.sender == escrow.config.fee_admin
            ==> confirm_trade_refusal(escrow, info, buyer, nft_collection, nft_id, true) == Some(
            ContractErrorView::AlreadyConfirmedFees,
        ),
{
}

/// Once the arbiter has confirmed a trade, its fee fractions stand: the
/// trade is kept with them, and no second confirmation is accepted.
pub proof fn lemma_reconfirm_refused(
    escrow: EscrowView,
    buyer: Seq<char>,
    nft_collection: Seq<char>,
    nft_id: Seq<char>,
    seller_fee_pct: Decimal,
    buyer_fee_pct: Decimal,
    info: MessageInfoView,
)
    requires
        has_key(escrow.trades, (buyer, nft_collection, nft_id)),
    ensures
        ({
            let k = (buyer, nft_collection, nft_id);
            let after = EscrowView {
                config: escrow.config,
                trades: trades_after_confirm(escrow.trades, k, seller_fee_pct, buyer_fee_pct, true),
            };
            &&& has_key(after.trades, k)
            &&& record_at(after.trades, k) == confirmed_trade(
                record_at(escrow.trades, k),
                seller_fee_pct,
                buyer_fee_pct,
            )
            &&& confirm_trade_refusal(after, info, buyer, nft_collection, nft_id, true).is_some()
        }),
{
    let k = (buyer, nft_collection, nft_id);
    let t = confirmed_trade(record_at(escrow.trades, k), seller_fee_pct, buyer_fee_pct);
    assert(escrow.trades.contains(record_at(escrow.trades, k)) && record_at(escrow.trades, k).key()
        == k) by {
        let i = choose|i: int| 0 <= i < escrow.trades.len() && #[trigger] escrow.trades[i].key() == k;
        assert(escrow.trades.contains(escrow.trades[i]));
    }
    lemma_upsert_holds(escrow.trades, t);
}

} // verus!

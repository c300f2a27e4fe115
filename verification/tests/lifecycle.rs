use cosmwasm_std::StdError;
use nftswitch::contract::{instantiate, migrate};
use nftswitch::error::{ContractError, ErrorKind, PaymentError};
use nftswitch::execute::{
    execute_trade_with, push_nft_transfer, settle, transfer_coin_to_seller, transfer_commission, transfer_nft,
    try_cancel_trade, try_confirm_trade, try_create_trade, try_execute_trade, try_update_config, Settlement,
};
use nftswitch::helpers::{addr_owns_collection, only_owner, price_validate, CwTemplateContract, OwnerOfResponse, TokensResponse};
use nftswitch::math::Decimal;
use nftswitch::msg::{InstantiateMsg, MigrateMsg};
use nftswitch::query::{query_config, query_trade, query_trades_by_buyer, query_trades_by_seller};
use nftswitch::response::{coins, Attribute, DisburseReward, Event, Instruction, Response};
use nftswitch::state::{coin, Coin, Config, Env, ExecuteEnv, MessageInfo, Trade, NATIVE_DENOM};
use nftswitch::store::Escrow;

const TRANSFER_TO_BUYER: &str = r#"{"transfer_nft":{"recipient":"buyer","token_id":"100"}}"#;

fn escrow() -> Escrow {
    let msg = InstantiateMsg {
        admin: "admin".to_string(),
        fee_admin: "fee_admin".to_string(),
        commission_addr: "commission_addr".to_string(),
        buyer_fee: Decimal::permille(15),
        seller_fee: Decimal::permille(15),
        listing_fee: 10,
    };
    instantiate(MessageInfo { sender: "admin".to_string(), funds: vec![] }, msg).0
}

fn env(sender: &str, funds: Vec<Coin>) -> ExecuteEnv {
    ExecuteEnv { env: Env { contract: "escrow".to_string() }, info: info(sender, funds) }
}

fn info(sender: &str, funds: Vec<Coin>) -> MessageInfo {
    MessageInfo { sender: sender.to_string(), funds }
}

fn owned_by(owner: &str) -> Result<OwnerOfResponse, StdError> {
    Ok(OwnerOfResponse { owner: owner.to_string() })
}

fn attr(key: &str, value: &str) -> Attribute {
    Attribute { key: key.to_string(), value: value.to_string() }
}

/// Lists asset `id` of "collection" by "seller" for `buyer` at `price`.
fn list(deps: &mut Escrow, buyer: &str, id: &str, price: u128) -> Result<Response, ContractError> {
    try_create_trade(
        deps,
        env("seller", coins(10, "uluna")),
        "collection".to_string(),
        id.to_string(),
        buyer.to_string(),
        coin(price, "uluna"),
        owned_by("seller"),
        Ok(()),
    )
}

fn confirm(deps: &mut Escrow, buyer: &str, id: &str, seller_fee: Decimal, buyer_fee: Decimal) -> Result<Response, ContractError> {
    try_confirm_trade(
        deps,
        env("fee_admin", vec![]),
        buyer.to_string(),
        "collection".to_string(),
        id.to_string(),
        seller_fee,
        buyer_fee,
        true,
    )
}

fn execute(deps: &mut Escrow, sender: &str, funds: Vec<Coin>) -> Result<Response, ContractError> {
    try_execute_trade(deps, env(sender, funds), "buyer".to_string(), "collection".to_string(), "100".to_string())
}

fn stored(deps: &Escrow, buyer: &str, id: &str) -> Option<Trade> {
    query_trade(deps, buyer.to_string(), "collection".to_string(), id.to_string()).trade
}

fn listed(price: u128) -> Trade {
    Trade {
        seller: "seller".to_string(),
        buyer: "buyer".to_string(),
        price: coin(price, "uluna"),
        nft_collection: "collection".to_string(),
        nft_id: "100".to_string(),
        is_confirmed_trade: false,
        seller_fee: Decimal::permille(15),
        buyer_fee: Decimal::permille(15),
    }
}

/// An escrow that holds the confirmed trade of asset 100 at `price`.
fn confirmed(price: u128, seller_fee: Decimal, buyer_fee: Decimal) -> Escrow {
    let mut deps = escrow();
    list(&mut deps, "buyer", "100", price).unwrap();
    confirm(&mut deps, "buyer", "100", seller_fee, buyer_fee).unwrap();
    deps
}

#[test]
fn native_denomination_is_uluna() {
    assert_eq!(NATIVE_DENOM, "uluna");
}

#[test]
fn instantiate_takes_the_sender_as_administrator() {
    let msg = InstantiateMsg {
        admin: "somebody".to_string(),
        fee_admin: "arbiter".to_string(),
        commission_addr: "commission".to_string(),
        buyer_fee: Decimal::percent(3),
        seller_fee: Decimal::percent(1),
        listing_fee: 7,
    };
    let (deps, res) = instantiate(info("creator", vec![]), msg);
    assert_eq!(
        deps.config,
        Config {
            admin: "creator".to_string(),
            fee_admin: "arbiter".to_string(),
            commission_addr: "commission".to_string(),
            seller_fee: Decimal::percent(1),
            buyer_fee: Decimal::percent(1),
            listing_fee: 7,
            e_break: false,
        }
    );
    assert_eq!(deps.trades.len(), 0);
    assert!(res.messages.is_empty());
    assert!(res.events.is_empty());
    assert_eq!(res.attributes, vec![attr("method", "instantiate"), attr("admin", "creator")]);
}

#[test]
fn migrate_answers_with_nothing() {
    let res = migrate(MigrateMsg {});
    assert_eq!(res, Response { messages: vec![], attributes: vec![], events: vec![] });
}

#[test]
fn create_trade_stores_a_pending_trade_and_pays_the_arbiter() {
    let mut deps = escrow();
    let res = list(&mut deps, "buyer", "100", 1000).unwrap();
    assert_eq!(stored(&deps, "buyer", "100"), Some(listed(1000)));
    assert_eq!(
        res.messages,
        vec![Instruction::Send { to_address: "fee_admin".to_string(), amount: vec![coin(10, "uluna")] }]
    );
    assert!(res.attributes.is_empty());
    assert_eq!(
        res.events,
        vec![Event {
            ty: "create-trade".to_string(),
            attributes: vec![
                attr("action", "try_create_trade"),
                attr("seller", "seller"),
                attr("buyer", "buyer"),
                attr("price", "1000"),
            ],
        }]
    );
}

#[test]
fn create_trade_writes_large_prices_in_full() {
    let mut deps = escrow();
    let res = list(&mut deps, "buyer", "100", u128::MAX).unwrap();
    assert_eq!(res.events[0].attributes[3], attr("price", "340282366920938463463374607431768211455"));
    let res = list(&mut deps, "buyer", "101", 0).unwrap();
    assert_eq!(res.events[0].attributes[3], attr("price", "0"));
}

#[test]
fn create_trade_seeds_fees_from_the_settings() {
    let mut deps = escrow();
    deps.config.seller_fee = Decimal::percent(4);
    deps.config.buyer_fee = Decimal::percent(6);
    list(&mut deps, "buyer", "100", 1000).unwrap();
    let t = stored(&deps, "buyer", "100").unwrap();
    assert_eq!(t.seller_fee, Decimal::percent(4));
    assert_eq!(t.buyer_fee, Decimal::percent(6));
    assert!(!t.is_confirmed_trade);
}

#[test]
fn create_trade_is_refused_while_halted() {
    let mut deps = escrow();
    deps.config.e_break = true;
    let err = list(&mut deps, "buyer", "100", 1000).unwrap_err();
    assert_eq!(err, ContractError::EmergencyBreakActivated {});
    assert_eq!(err.kind(), ErrorKind::HaltedOperation);
    assert_eq!(deps.trades.len(), 0);
    // the halt comes before everything else
    let err = try_create_trade(
        &mut deps,
        env("stranger", vec![]),
        "collection".to_string(),
        "100".to_string(),
        "buyer".to_string(),
        coin(1, "other"),
        Err(StdError::generic_err("down")),
        Err(StdError::generic_err("down")),
    )
    .unwrap_err();
    assert_eq!(err, ContractError::EmergencyBreakActivated {});
}

fn create_with_funds(deps: &mut Escrow, funds: Vec<Coin>) -> Result<Response, ContractError> {
    try_create_trade(
        deps,
        env("seller", funds),
        "collection".to_string(),
        "100".to_string(),
        "buyer".to_string(),
        coin(1000, "uluna"),
        owned_by("seller"),
        Ok(()),
    )
}

#[test]
fn create_trade_needs_exactly_the_listing_fee() {
    let mut deps = escrow();
    let under = create_with_funds(&mut deps, coins(9, "uluna")).unwrap_err();
    assert_eq!(under, ContractError::MissingListingFee {});
    assert_eq!(under.kind(), ErrorKind::PaymentMismatch);
    let over = create_with_funds(&mut deps, coins(11, "uluna")).unwrap_err();
    assert_eq!(over, ContractError::MissingListingFee {});
    let none = create_with_funds(&mut deps, vec![]).unwrap_err();
    assert_eq!(none, ContractError::TradePaymentError(PaymentError::NoFunds {}));
    assert_eq!(none.kind(), ErrorKind::PaymentMismatch);
    let zero = create_with_funds(&mut deps, coins(0, "uluna")).unwrap_err();
    assert_eq!(zero, ContractError::TradePaymentError(PaymentError::NoFunds {}));
    let two = create_with_funds(&mut deps, vec![coin(10, "uluna"), coin(1, "uusd")]).unwrap_err();
    assert_eq!(two, ContractError::TradePaymentError(PaymentError::MultipleDenoms {}));
    assert_eq!(two.kind(), ErrorKind::PaymentMismatch);
    let twice = create_with_funds(&mut deps, vec![coin(5, "uluna"), coin(5, "uluna")]).unwrap_err();
    assert_eq!(twice, ContractError::TradePaymentError(PaymentError::MultipleDenoms {}));
    let other = create_with_funds(&mut deps, coins(10, "uusd")).unwrap_err();
    assert_eq!(other, ContractError::TradePaymentError(PaymentError::MissingDenom("uluna".to_string())));
    assert_eq!(other.kind(), ErrorKind::PaymentMismatch);
    assert_eq!(deps.trades.len(), 0);
    assert!(create_with_funds(&mut deps, coins(10, "uluna")).is_ok());
}

#[test]
fn create_trade_cannot_pay_a_listing_fee_of_nothing() {
    let mut deps = escrow();
    deps.config.listing_fee = 0;
    assert_eq!(
        create_with_funds(&mut deps, vec![]).unwrap_err(),
        ContractError::TradePaymentError(PaymentError::NoFunds {})
    );
    assert_eq!(
        create_with_funds(&mut deps, coins(0, "uluna")).unwrap_err(),
        ContractError::TradePaymentError(PaymentError::NoFunds {})
    );
    assert_eq!(create_with_funds(&mut deps, coins(1, "uluna")).unwrap_err(), ContractError::MissingListingFee {});
}

#[test]
fn create_trade_needs_a_price_in_the_native_denomination() {
    let mut deps = escrow();
    let err = try_create_trade(
        &mut deps,
        env("seller", coins(10, "uluna")),
        "collection".to_string(),
        "100".to_string(),
        "buyer".to_string(),
        coin(1000, "wrong_denom"),
        owned_by("seller"),
        Ok(()),
    )
    .unwrap_err();
    assert_eq!(err, ContractError::InvalidPrice {});
    assert_eq!(err.kind(), ErrorKind::InvalidInput);
    assert_eq!(deps.trades.len(), 0);
}

#[test]
fn create_trade_needs_the_owner_and_the_registry() {
    let mut deps = escrow();
    let down = || StdError::generic_err("registry is down");
    let err = try_create_trade(
        &mut deps,
        env("seller", coins(10, "uluna")),
        "collection".to_string(),
        "100".to_string(),
        "buyer".to_string(),
        coin(1000, "uluna"),
        Err(down()),
        Ok(()),
    )
    .unwrap_err();
    assert_eq!(err, ContractError::Std(down()));
    assert_eq!(err.kind(), ErrorKind::UpstreamFailure);

    let err = try_create_trade(
        &mut deps,
        env("seller", coins(10, "uluna")),
        "collection".to_string(),
        "100".to_string(),
        "buyer".to_string(),
        coin(1000, "uluna"),
        owned_by("somebody"),
        Ok(()),
    )
    .unwrap_err();
    assert_eq!(err, ContractError::UnauthorizedOwner {});
    assert_eq!(err.kind(), ErrorKind::Unauthorized);

    let unapproved = || StdError::not_found("Approval not found");
    let err = try_create_trade(
        &mut deps,
        env("seller", coins(10, "uluna")),
        "collection".to_string(),
        "100".to_string(),
        "buyer".to_string(),
        coin(1000, "uluna"),
        owned_by("seller"),
        Err(unapproved()),
    )
    .unwrap_err();
    assert_eq!(err, ContractError::Std(unapproved()));

    // the owner is looked at before the approval
    let err = try_create_trade(
        &mut deps,
        env("seller", coins(10, "uluna")),
        "collection".to_string(),
        "100".to_string(),
        "buyer".to_string(),
        coin(1000, "uluna"),
        owned_by("somebody"),
        Err(down()),
    )
    .unwrap_err();
    assert_eq!(err, ContractError::UnauthorizedOwner {});
    assert_eq!(deps.trades.len(), 0);
}

#[test]
fn create_trade_never_overwrites() {
    let mut deps = escrow();
    list(&mut deps, "buyer", "100", 1000).unwrap();
    let err = list(&mut deps, "buyer", "100", 5).unwrap_err();
    assert_eq!(err, ContractError::TradeAlreadyExists {});
    assert_eq!(err.kind(), ErrorKind::StateConflict);
    assert_eq!(stored(&deps, "buyer", "100"), Some(listed(1000)));
    // also once the trade is confirmed
    confirm(&mut deps, "buyer", "100", Decimal::percent(1), Decimal::percent(1)).unwrap();
    assert_eq!(list(&mut deps, "buyer", "100", 5).unwrap_err(), ContractError::TradeAlreadyExists {});
    // another buyer or another asset is another key
    assert!(list(&mut deps, "buyer2", "100", 5).is_ok());
    assert!(list(&mut deps, "buyer", "101", 5).is_ok());
    assert_eq!(deps.trades.len(), 3);
}

#[test]
fn confirm_sets_flag_and_fees_once() {
    let mut deps = escrow();
    list(&mut deps, "buyer", "100", 1000).unwrap();
    let res = confirm(&mut deps, "buyer", "100", Decimal::percent(2), Decimal::percent(3)).unwrap();
    assert_eq!(res, Response { messages: vec![], attributes: vec![attr("method", "update_fees")], events: vec![] });
    let mut expected = listed(1000);
    expected.is_confirmed_trade = true;
    expected.seller_fee = Decimal::percent(2);
    expected.buyer_fee = Decimal::percent(3);
    assert_eq!(stored(&deps, "buyer", "100"), Some(expected.clone()));

    let err = confirm(&mut deps, "buyer", "100", Decimal::percent(9), Decimal::percent(9)).unwrap_err();
    assert_eq!(err, ContractError::AlreadyConfirmedFees {});
    assert_eq!(err.kind(), ErrorKind::StateConflict);
    assert_eq!(stored(&deps, "buyer", "100"), Some(expected));
    assert_eq!(deps.trades.len(), 1);
}

#[test]
fn confirm_keeps_the_indices_in_line() {
    let mut deps = escrow();
    list(&mut deps, "buyer", "100", 1000).unwrap();
    list(&mut deps, "buyer", "101", 2000).unwrap();
    confirm(&mut deps, "buyer", "101", Decimal::percent(2), Decimal::percent(3)).unwrap();
    let by_seller = query_trades_by_seller(&deps, "seller".to_string(), None).trades;
    assert_eq!(by_seller.len(), 2);
    assert!(!by_seller[0].is_confirmed_trade);
    assert!(by_seller[1].is_confirmed_trade);
    assert_eq!(by_seller[1].buyer_fee, Decimal::percent(3));
}

#[test]
fn reject_removes_the_trade_confirmed_or_not() {
    let mut deps = escrow();
    list(&mut deps, "buyer", "100", 1000).unwrap();
    let res = try_confirm_trade(
        &mut deps,
        env("fee_admin", vec![]),
        "buyer".to_string(),
        "collection".to_string(),
        "100".to_string(),
        Decimal::percent(2),
        Decimal::percent(3),
        false,
    )
    .unwrap();
    assert_eq!(res, Response { messages: vec![], attributes: vec![attr("method", "remove_trade")], events: vec![] });
    assert_eq!(stored(&deps, "buyer", "100"), None);
    assert!(query_trades_by_buyer(&deps, "buyer".to_string(), None).trades.is_empty());

    let mut deps = confirmed(1000, Decimal::percent(1), Decimal::percent(1));
    try_confirm_trade(
        &mut deps,
        env("fee_admin", vec![]),
        "buyer".to_string(),
        "collection".to_string(),
        "100".to_string(),
        Decimal::zero(),
        Decimal::zero(),
        false,
    )
    .unwrap();
    assert_eq!(deps.trades.len(), 0);
}

#[test]
fn confirm_is_for_the_arbiter_alone() {
    let mut deps = escrow();
    list(&mut deps, "buyer", "100", 1000).unwrap();
    for sender in ["admin", "seller", "buyer", "commission_addr", "fee_admi", ""] {
        let err = try_confirm_trade(
            &mut deps,
            env(sender, vec![]),
            "buyer".to_string(),
            "collection".to_string(),
            "100".to_string(),
            Decimal::zero(),
            Decimal::zero(),
            true,
        )
        .unwrap_err();
        assert_eq!(err, ContractError::UnauthorizedOwner {});
        assert_eq!(err.kind(), ErrorKind::Unauthorized);
    }
    assert_eq!(stored(&deps, "buyer", "100"), Some(listed(1000)));
}

#[test]
fn confirm_checks_funds_then_halt_then_sender_then_trade() {
    let mut deps = escrow();
    deps.config.e_break = true;
    let err = try_confirm_trade(
        &mut deps,
        env("stranger", coins(1, "uluna")),
        "buyer".to_string(),
        "collection".to_string(),
        "100".to_string(),
        Decimal::zero(),
        Decimal::zero(),
        true,
    )
    .unwrap_err();
    assert_eq!(err, ContractError::TradePaymentError(PaymentError::NonPayable {}));
    let err = try_confirm_trade(
        &mut deps,
        env("stranger", vec![]),
        "buyer".to_string(),
        "collection".to_string(),
        "100".to_string(),
        Decimal::zero(),
        Decimal::zero(),
        true,
    )
    .unwrap_err();
    assert_eq!(err, ContractError::EmergencyBreakActivated {});
    deps.config.e_break = false;
    let err = confirm(&mut deps, "buyer", "100", Decimal::zero(), Decimal::zero()).unwrap_err();
    assert_eq!(err, ContractError::TradeNotFound {});
    assert_eq!(err.kind(), ErrorKind::StateConflict);
    // rejecting what is not there is refused as well
    let err = try_confirm_trade(
        &mut deps,
        env("fee_admin", vec![]),
        "buyer".to_string(),
        "collection".to_string(),
        "100".to_string(),
        Decimal::zero(),
        Decimal::zero(),
        false,
    )
    .unwrap_err();
    assert_eq!(err, ContractError::TradeNotFound {});
    // funds of amount zero are funds
    let err = try_confirm_trade(
        &mut deps,
        env("fee_admin", coins(0, "uluna")),
        "buyer".to_string(),
        "collection".to_string(),
        "100".to_string(),
        Decimal::zero(),
        Decimal::zero(),
        true,
    )
    .unwrap_err();
    assert_eq!(err, ContractError::TradePaymentError(PaymentError::NonPayable {}));
}

#[test]
fn execute_trade_swaps_asset_for_funds() {
    let mut deps = confirmed(1000, Decimal::permille(15), Decimal::permille(15));
    let res = execute(&mut deps, "buyer", coins(1015, "uluna")).unwrap();
    assert_eq!(
        res.messages,
        vec![
            Instruction::Execute {
                contract_addr: "collection".to_string(),
                msg: TRANSFER_TO_BUYER.as_bytes().to_vec(),
                funds: vec![],
            },
            Instruction::Send { to_address: "seller".to_string(), amount: vec![coin(985, "uluna")] },
            Instruction::Disburse {
                contract_addr: "commission_addr".to_string(),
                reward: DisburseReward { amount: 30 },
                funds: vec![coin(30, "uluna")],
            },
        ]
    );
    assert_eq!(
        res.events,
        vec![Event {
            ty: "finalize-switch".to_string(),
            attributes: vec![
                attr("nft_collection", "collection"),
                attr("nft_id", "100"),
                attr("seller", "seller"),
                attr("buyer", "buyer"),
                attr("price", "1000uluna"),
            ],
        }]
    );
    assert_eq!(
        res.attributes,
        vec![
            attr("method", "execute_trade"),
            attr("buyer", "buyer"),
            attr("buyer_fee", "15"),
            attr("seller", "seller"),
            attr("seller_fee", "15"),
            attr("commission", "30"),
            attr("nft_collection", "collection"),
            attr("nft_id", "100"),
        ]
    );
    assert_eq!(stored(&deps, "buyer", "100"), None);
    assert_eq!(deps.trades.len(), 0);
    // there is no second execution
    assert_eq!(execute(&mut deps, "buyer", coins(1015, "uluna")).unwrap_err(), ContractError::TradeNotFound {});
}

#[test]
fn execute_trade_goes_by_the_fees_of_the_trade() {
    let mut deps = confirmed(1000, Decimal::percent(10), Decimal::percent(5));
    // the settings name other fractions
    deps.config.seller_fee = Decimal::percent(50);
    deps.config.buyer_fee = Decimal::percent(50);
    assert_eq!(execute(&mut deps, "buyer", coins(1500, "uluna")).unwrap_err(), ContractError::PaymentAmountMismatch {});
    let res = execute(&mut deps, "buyer", coins(1050, "uluna")).unwrap();
    assert_eq!(res.messages.len(), 3);
    assert_eq!(res.messages[1], Instruction::Send { to_address: "seller".to_string(), amount: vec![coin(900, "uluna")] });
    assert_eq!(
        res.messages[2],
        Instruction::Disburse {
            contract_addr: "commission_addr".to_string(),
            reward: DisburseReward { amount: 150 },
            funds: vec![coin(150, "uluna")],
        }
    );
    assert_eq!(res.attributes[2], attr("buyer_fee", "50"));
    assert_eq!(res.attributes[4], attr("seller_fee", "100"));
    assert_eq!(res.attributes[5], attr("commission", "150"));
}

#[test]
fn execute_trade_rounds_fees_down() {
    let mut deps = confirmed(999, Decimal::permille(15), Decimal::permille(15));
    assert_eq!(execute(&mut deps, "buyer", coins(1014, "uluna")).unwrap_err(), ContractError::PaymentAmountMismatch {});
    let res = execute(&mut deps, "buyer", coins(1013, "uluna")).unwrap();
    assert_eq!(res.messages[1], Instruction::Send { to_address: "seller".to_string(), amount: vec![coin(985, "uluna")] });
    assert_eq!(res.attributes[5], attr("commission", "28"));
}

#[test]
fn execute_trade_needs_exactly_price_and_fee() {
    let mut deps = confirmed(1000, Decimal::permille(15), Decimal::permille(15));
    let before = stored(&deps, "buyer", "100");
    for amount in [1, 1000, 1011, 1014, 1016, 2000] {
        let err = execute(&mut deps, "buyer", coins(amount, "uluna")).unwrap_err();
        assert_eq!(err, ContractError::PaymentAmountMismatch {});
        assert_eq!(err.kind(), ErrorKind::PaymentMismatch);
    }
    assert_eq!(
        execute(&mut deps, "buyer", vec![]).unwrap_err(),
        ContractError::TradePaymentError(PaymentError::NoFunds {})
    );
    assert_eq!(
        execute(&mut deps, "buyer", coins(1015, "uusd")).unwrap_err(),
        ContractError::TradePaymentError(PaymentError::MissingDenom("uluna".to_string()))
    );
    assert_eq!(
        execute(&mut deps, "buyer", vec![coin(1000, "uluna"), coin(15, "uluna")]).unwrap_err(),
        ContractError::TradePaymentError(PaymentError::MultipleDenoms {})
    );
    assert_eq!(stored(&deps, "buyer", "100"), before);
}

#[test]
fn execute_trade_without_price_moves_no_funds() {
    let mut deps = confirmed(0, Decimal::permille(15), Decimal::permille(15));
    let res = execute(&mut deps, "buyer", vec![]).unwrap();
    assert_eq!(
        res.messages,
        vec![Instruction::Execute {
            contract_addr: "collection".to_string(),
            msg: TRANSFER_TO_BUYER.as_bytes().to_vec(),
            funds: vec![],
        }]
    );
    assert_eq!(res.attributes[2], attr("buyer_fee", "0"));
    assert_eq!(res.attributes[4], attr("seller_fee", "0"));
    assert_eq!(res.attributes[5], attr("commission", "0"));
    assert_eq!(res.events[0].attributes[4], attr("price", "0uluna"));
    assert_eq!(deps.trades.len(), 0);
}

#[test]
fn execute_trade_without_price_asks_for_no_payment() {
    // where nothing is to be paid the funds are not looked at
    let mut deps = confirmed(0, Decimal::percent(100), Decimal::percent(100));
    let res = execute(&mut deps, "buyer", coins(5, "uusd")).unwrap();
    assert_eq!(res.messages.len(), 1);
}

#[test]
fn execute_trade_skips_payments_of_nothing() {
    // the seller's fee takes the whole price: nothing is left for him
    let mut deps = confirmed(1000, Decimal::one(), Decimal::zero());
    let res = execute(&mut deps, "buyer", coins(1000, "uluna")).unwrap();
    assert_eq!(res.messages.len(), 2);
    assert_eq!(
        res.messages[1],
        Instruction::Disburse {
            contract_addr: "commission_addr".to_string(),
            reward: DisburseReward { amount: 1000 },
            funds: vec![coin(1000, "uluna")],
        }
    );
    // no fees: no commission
    let mut deps = confirmed(1000, Decimal::zero(), Decimal::zero());
    let res = execute(&mut deps, "buyer", coins(1000, "uluna")).unwrap();
    assert_eq!(res.messages.len(), 2);
    assert_eq!(res.messages[1], Instruction::Send { to_address: "seller".to_string(), amount: vec![coin(1000, "uluna")] });
}

#[test]
fn execute_trade_needs_a_confirmed_trade() {
    let mut deps = escrow();
    list(&mut deps, "buyer", "100", 1000).unwrap();
    for (sender, funds) in [("buyer", coins(1015, "uluna")), ("buyer", vec![]), ("stranger", coins(1, "uusd"))] {
        let err = execute(&mut deps, sender, funds).unwrap_err();
        assert_eq!(err, ContractError::TradeNotConfirmed {});
        assert_eq!(err.kind(), ErrorKind::StateConflict);
        assert_eq!(stored(&deps, "buyer", "100"), Some(listed(1000)));
    }
    assert_eq!(query_trades_by_seller(&deps, "seller".to_string(), None).trades, vec![listed(1000)]);
}

#[test]
fn execute_trade_is_for_the_buyer_alone() {
    let mut deps = confirmed(1000, Decimal::permille(15), Decimal::permille(15));
    for sender in ["seller", "fee_admin", "admin", "buye", "buyer2"] {
        let err = execute(&mut deps, sender, coins(1015, "uluna")).unwrap_err();
        assert_eq!(err, ContractError::Unauthorized {});
        assert_eq!(err.kind(), ErrorKind::Unauthorized);
    }
    assert_eq!(deps.trades.len(), 1);
}

#[test]
fn execute_trade_is_refused_while_halted_or_without_trade() {
    let mut deps = confirmed(1000, Decimal::permille(15), Decimal::permille(15));
    deps.config.e_break = true;
    assert_eq!(execute(&mut deps, "buyer", coins(1015, "uluna")).unwrap_err(), ContractError::EmergencyBreakActivated {});
    deps.config.e_break = false;
    let err = try_execute_trade(
        &mut deps,
        env("buyer", coins(1015, "uluna")),
        "buyer".to_string(),
        "collection".to_string(),
        "101".to_string(),
    )
    .unwrap_err();
    assert_eq!(err, ContractError::TradeNotFound {});
    assert_eq!(deps.trades.len(), 1);
}

#[test]
fn execute_trade_refuses_amounts_out_of_range() {
    // the largest price there is can be paid where no fee comes on top
    let mut deps = confirmed(u128::MAX, Decimal::zero(), Decimal::zero());
    let res = execute(&mut deps, "buyer", coins(u128::MAX, "uluna"));
    assert!(res.is_ok());
    // price and fee together do not fit
    let mut deps = confirmed(u128::MAX, Decimal::zero(), Decimal::raw(1));
    assert_eq!(execute(&mut deps, "buyer", coins(u128::MAX, "uluna")).unwrap_err(), ContractError::Overflow {});
    let mut deps = confirmed(u128::MAX - 15, Decimal::zero(), Decimal::raw(1));
    assert_eq!(execute(&mut deps, "buyer", coins(u128::MAX, "uluna")).unwrap_err(), ContractError::Overflow {});
    let mut deps = confirmed(u128::MAX, Decimal::zero(), Decimal::permille(15));
    let err = execute(&mut deps, "buyer", coins(u128::MAX, "uluna")).unwrap_err();
    assert_eq!(err, ContractError::Overflow {});
    assert_eq!(err.kind(), ErrorKind::InvalidInput);
    // a fee that does not fit
    let mut deps = confirmed(u128::MAX, Decimal::percent(200), Decimal::zero());
    assert_eq!(execute(&mut deps, "buyer", coins(u128::MAX, "uluna")).unwrap_err(), ContractError::Overflow {});
    // a seller's fee of more than the price
    let mut deps = confirmed(1000, Decimal::percent(101), Decimal::zero());
    assert_eq!(execute(&mut deps, "buyer", coins(1000, "uluna")).unwrap_err(), ContractError::Overflow {});
    assert_eq!(deps.trades.len(), 1);
}

#[test]
fn execute_trade_with_hands_on_a_failure_of_the_encoder() {
    let mut deps = confirmed(1000, Decimal::permille(15), Decimal::permille(15));
    let failure = || StdError::generic_err("cannot encode");
    let err = execute_trade_with(
        &mut deps,
        env("buyer", coins(1015, "uluna")),
        "buyer".to_string(),
        "collection".to_string(),
        "100".to_string(),
        Err(failure()),
    )
    .unwrap_err();
    assert_eq!(err, ContractError::Std(failure()));
    assert_eq!(deps.trades.len(), 1);
    // a refusal comes before the encoder's failure
    let err = execute_trade_with(
        &mut deps,
        env("buyer", coins(1, "uluna")),
        "buyer".to_string(),
        "collection".to_string(),
        "100".to_string(),
        Err(failure()),
    )
    .unwrap_err();
    assert_eq!(err, ContractError::PaymentAmountMismatch {});
    let res = execute_trade_with(
        &mut deps,
        env("buyer", coins(1015, "uluna")),
        "buyer".to_string(),
        "collection".to_string(),
        "100".to_string(),
        Ok(vec![1, 2, 3]),
    )
    .unwrap();
    assert_eq!(
        res.messages[0],
        Instruction::Execute { contract_addr: "collection".to_string(), msg: vec![1, 2, 3], funds: vec![] }
    );
    assert_eq!(deps.trades.len(), 0);
}

#[test]
fn settlement_balances() {
    let mut t = listed(1000);
    assert_eq!(
        settle(&t),
        Some(Settlement { buyer_fee: 15, seller_fee: 15, expected: 1015, commission: 30, net: 985 })
    );
    t.price.amount = 0;
    assert_eq!(settle(&t), Some(Settlement { buyer_fee: 0, seller_fee: 0, expected: 0, commission: 0, net: 0 }));
    t.price.amount = 1;
    assert_eq!(settle(&t), Some(Settlement { buyer_fee: 0, seller_fee: 0, expected: 1, commission: 0, net: 1 }));
    t.price.amount = 12345;
    t.buyer_fee = Decimal::percent(7);
    t.seller_fee = Decimal::percent(100);
    assert_eq!(
        settle(&t),
        Some(Settlement { buyer_fee: 864, seller_fee: 12345, expected: 13209, commission: 13209, net: 0 })
    );
    t.seller_fee = Decimal::raw(1_000_100_000_000_000_000);
    assert_eq!(settle(&t), None);
    t.seller_fee = Decimal::zero();
    t.price.amount = u128::MAX;
    assert_eq!(settle(&t), None);
    t.buyer_fee = Decimal::zero();
    assert_eq!(
        settle(&t),
        Some(Settlement { buyer_fee: 0, seller_fee: 0, expected: u128::MAX, commission: 0, net: u128::MAX })
    );
}

#[test]
fn transfer_nft_encodes_the_request_to_the_registry() {
    let mut res = Response::new();
    let mut t = listed(1000);
    t.buyer = "bu\"yer".to_string();
    t.nft_id = "7".to_string();
    transfer_nft(&t, &mut res).unwrap();
    assert_eq!(
        res.messages,
        vec![Instruction::Execute {
            contract_addr: "collection".to_string(),
            msg: br#"{"transfer_nft":{"recipient":"bu\"yer","token_id":"7"}}"#.to_vec(),
            funds: vec![],
        }]
    );
    match &res.messages[0] {
        Instruction::Execute { msg, .. } => {
            let decoded: cw721::Cw721ExecuteMsg = cosmwasm_std::from_json(msg).unwrap();
            assert_eq!(
                decoded,
                cw721::Cw721ExecuteMsg::TransferNft { recipient: "bu\"yer".to_string(), token_id: "7".to_string() }
            );
        }
        _ => panic!("not a call"),
    }
    assert_eq!(res.events.len(), 1);
    assert_eq!(res.events[0].ty, "finalize-switch");
    assert_eq!(res.events[0].attributes[4], attr("price", "1000uluna"));
    assert!(res.attributes.is_empty());
}

#[test]
fn transfer_helpers_append_to_the_answer() {
    let t = listed(1000);
    let mut res = Response::new().add_attribute("k", "v".to_string());
    push_nft_transfer(&t, vec![9], &mut res);
    transfer_coin_to_seller(&t, 5, &mut res);
    transfer_commission(&escrow(), 6, &mut res);
    assert_eq!(
        res.messages,
        vec![
            Instruction::Execute { contract_addr: "collection".to_string(), msg: vec![9], funds: vec![] },
            Instruction::Send { to_address: "seller".to_string(), amount: vec![coin(5, "uluna")] },
            Instruction::Disburse {
                contract_addr: "commission_addr".to_string(),
                reward: DisburseReward { amount: 6 },
                funds: vec![coin(6, "uluna")],
            },
        ]
    );
    assert_eq!(res.attributes, vec![attr("k", "v")]);
    assert_eq!(res.events.len(), 1);
}

fn cancel(deps: &mut Escrow, funds: Vec<Coin>, buyer: Option<&str>, seller: Option<&str>) -> Result<Response, ContractError> {
    try_cancel_trade(
        deps,
        info("anyone", funds),
        buyer.map(|b| b.to_string()),
        seller.map(|s| s.to_string()),
        "collection".to_string(),
        "100".to_string(),
    )
}

#[test]
fn cancel_by_buyer_removes_the_trade() {
    let mut deps = escrow();
    list(&mut deps, "buyer", "100", 1000).unwrap();
    let res = cancel(&mut deps, vec![], Some("buyer"), None).unwrap();
    assert_eq!(
        res,
        Response {
            messages: vec![],
            attributes: vec![],
            events: vec![Event {
                ty: "buyer-cancels-trade".to_string(),
                attributes: vec![attr("collection", "collection"), attr("nft_id", "100"), attr("buyer", "buyer")],
            }],
        }
    );
    assert_eq!(stored(&deps, "buyer", "100"), None);
    assert!(query_trades_by_seller(&deps, "seller".to_string(), None).trades.is_empty());
    // a confirmed trade can be cancelled as well
    let mut deps = confirmed(1000, Decimal::percent(1), Decimal::percent(1));
    assert!(cancel(&mut deps, vec![], Some("buyer"), None).is_ok());
    assert_eq!(deps.trades.len(), 0);
}

#[test]
fn cancel_by_seller_removes_his_trade() {
    let mut deps = escrow();
    list(&mut deps, "buyer", "100", 1000).unwrap();
    list(&mut deps, "buyer", "101", 1000).unwrap();
    let res = cancel(&mut deps, vec![], None, Some("seller")).unwrap();
    assert_eq!(
        res,
        Response {
            messages: vec![],
            attributes: vec![],
            events: vec![Event {
                ty: "seller-cancels-trade".to_string(),
                attributes: vec![attr("collection", "collection"), attr("nft_id", "100"), attr("seller", "seller")],
            }],
        }
    );
    assert_eq!(stored(&deps, "buyer", "100"), None);
    assert!(stored(&deps, "buyer", "101").is_some());
    assert_eq!(deps.trades.len(), 1);
    assert_eq!(query_trades_by_seller(&deps, "seller".to_string(), None).trades.len(), 1);
    assert_eq!(query_trades_by_buyer(&deps, "buyer".to_string(), None).trades.len(), 1);
    // a confirmed trade can be cancelled by the seller as well
    let mut deps = confirmed(1000, Decimal::percent(1), Decimal::percent(1));
    assert!(cancel(&mut deps, vec![], None, Some("seller")).is_ok());
    assert_eq!(deps.trades.len(), 0);
    // a trade that the seller lists for himself is his on either side
    let mut deps = escrow();
    list(&mut deps, "seller", "100", 1000).unwrap();
    assert!(cancel(&mut deps, vec![], None, Some("seller")).is_ok());
    assert_eq!(deps.trades.len(), 0);
}

#[test]
fn cancel_by_seller_needs_a_trade_for_the_asset() {
    let mut deps = escrow();
    assert_eq!(cancel(&mut deps, vec![], None, Some("seller")).unwrap_err(), ContractError::TradeNotFound {});
    // trades for other assets, or for the same id in another collection, do not count
    list(&mut deps, "buyer", "101", 1000).unwrap();
    try_create_trade(
        &mut deps,
        env("seller", coins(10, "uluna")),
        "collection2".to_string(),
        "100".to_string(),
        "buyer".to_string(),
        coin(1, "uluna"),
        owned_by("seller"),
        Ok(()),
    )
    .unwrap();
    let err = cancel(&mut deps, vec![], None, Some("seller")).unwrap_err();
    assert_eq!(err, ContractError::TradeNotFound {});
    assert_eq!(err.kind(), ErrorKind::StateConflict);
    assert_eq!(deps.trades.len(), 2);
}

#[test]
fn cancel_by_seller_takes_one_trade_at_a_time() {
    let mut deps = escrow();
    list(&mut deps, "carol", "100", 3).unwrap();
    list(&mut deps, "alice", "100", 1).unwrap();
    list(&mut deps, "bob", "100", 2).unwrap();
    // another seller holds a trade for the same asset
    try_create_trade(
        &mut deps,
        env("seller2", coins(10, "uluna")),
        "collection".to_string(),
        "100".to_string(),
        "aaron".to_string(),
        coin(9, "uluna"),
        owned_by("seller2"),
        Ok(()),
    )
    .unwrap();
    let buyers = |deps: &Escrow| -> Vec<String> { deps.trades.to_vec().into_iter().map(|t| t.buyer).collect() };
    assert_eq!(buyers(&deps), vec!["aaron", "alice", "bob", "carol"]);
    // of his trades for the asset the one whose buyer sorts first leaves
    cancel(&mut deps, vec![], None, Some("seller")).unwrap();
    assert_eq!(buyers(&deps), vec!["aaron", "bob", "carol"]);
    cancel(&mut deps, vec![], None, Some("seller")).unwrap();
    assert_eq!(buyers(&deps), vec!["aaron", "carol"]);
    cancel(&mut deps, vec![], None, Some("seller2")).unwrap();
    assert_eq!(buyers(&deps), vec!["carol"]);
    assert_eq!(cancel(&mut deps, vec![], None, Some("seller2")).unwrap_err(), ContractError::Unauthorized {});
    cancel(&mut deps, vec![], None, Some("seller")).unwrap();
    assert_eq!(deps.trades.len(), 0);
    assert_eq!(cancel(&mut deps, vec![], None, Some("seller")).unwrap_err(), ContractError::TradeNotFound {});
}

#[test]
fn cancel_by_the_wrong_party_leaves_the_trade() {
    let mut deps = escrow();
    list(&mut deps, "buyer", "100", 1000).unwrap();
    // whoever is named as seller and is not the seller of the trade is refused
    for stranger in ["buyer", "stranger", "fee_admin", "selle", "seller2", ""] {
        let err = cancel(&mut deps, vec![], None, Some(stranger)).unwrap_err();
        assert_eq!(err, ContractError::Unauthorized {});
        assert_eq!(err.kind(), ErrorKind::Unauthorized);
        assert_eq!(stored(&deps, "buyer", "100"), Some(listed(1000)));
    }
    assert_eq!(query_trades_by_buyer(&deps, "buyer".to_string(), None).trades, vec![listed(1000)]);
    assert_eq!(query_trades_by_seller(&deps, "seller".to_string(), None).trades, vec![listed(1000)]);
    // who is named as buyer and holds no trade for the asset finds none
    assert_eq!(cancel(&mut deps, vec![], Some("seller"), None).unwrap_err(), ContractError::TradeNotFound {});
    assert_eq!(deps.trades.len(), 1);
}

#[test]
fn cancel_needs_exactly_one_party() {
    let mut deps = escrow();
    list(&mut deps, "buyer", "100", 1000).unwrap();
    let err = cancel(&mut deps, vec![], None, None).unwrap_err();
    assert_eq!(err, ContractError::ParameterMissing {});
    assert_eq!(err.kind(), ErrorKind::InvalidInput);
    let err = cancel(&mut deps, vec![], Some("buyer"), Some("seller")).unwrap_err();
    assert_eq!(err, ContractError::AmbiguousParty {});
    assert_eq!(err.kind(), ErrorKind::InvalidInput);
    assert_eq!(deps.trades.len(), 1);
}

#[test]
fn cancel_checks_halt_then_funds_then_trade() {
    let mut deps = escrow();
    deps.config.e_break = true;
    assert_eq!(
        cancel(&mut deps, coins(1, "uluna"), None, None).unwrap_err(),
        ContractError::EmergencyBreakActivated {}
    );
    deps.config.e_break = false;
    assert_eq!(
        cancel(&mut deps, coins(1, "uluna"), None, None).unwrap_err(),
        ContractError::TradePaymentError(PaymentError::NonPayable {})
    );
    assert_eq!(cancel(&mut deps, vec![], Some("buyer"), None).unwrap_err(), ContractError::TradeNotFound {});
    assert_eq!(cancel(&mut deps, vec![], None, Some("seller")).unwrap_err(), ContractError::TradeNotFound {});
}

#[test]
fn update_config_replaces_what_is_given() {
    let mut deps = escrow();
    list(&mut deps, "buyer", "100", 1000).unwrap();
    let res = try_update_config(
        &mut deps,
        Env { contract: "escrow".to_string() },
        info("admin", vec![]),
        None,
        None,
        None,
        Some(Decimal::percent(9)),
        None,
        Some(0),
        None,
    )
    .unwrap();
    assert_eq!(res, Response { messages: vec![], attributes: vec![attr("action", "update_config")], events: vec![] });
    assert_eq!(
        deps.config,
        Config {
            admin: "admin".to_string(),
            fee_admin: "fee_admin".to_string(),
            commission_addr: "commission_addr".to_string(),
            seller_fee: Decimal::permille(15),
            buyer_fee: Decimal::percent(9),
            listing_fee: 0,
            e_break: false,
        }
    );
    assert_eq!(deps.trades.len(), 1);
    // nothing given: nothing changed, also while halted
    deps.config.e_break = true;
    let before = query_config(&deps);
    try_update_config(
        &mut deps,
        Env { contract: "escrow".to_string() },
        info("admin", coins(3, "uluna")),
        None,
        None,
        None,
        None,
        None,
        None,
        None,
    )
    .unwrap();
    assert_eq!(query_config(&deps), before);
}

#[test]
fn update_config_is_for_the_administrator_alone() {
    let mut deps = escrow();
    let before = query_config(&deps);
    let err = try_update_config(
        &mut deps,
        Env { contract: "escrow".to_string() },
        info("fee_admin", vec![]),
        Some("fee_admin".to_string()),
        None,
        None,
        None,
        None,
        None,
        Some(true),
    )
    .unwrap_err();
    assert_eq!(err, ContractError::Unauthorized {});
    assert_eq!(query_config(&deps), before);
}

#[test]
fn page_has_ten_by_default_and_thirty_at_most() {
    let mut deps = escrow();
    for i in 0..35 {
        list(&mut deps, "buyer", &format!("{:03}", i), 1000 + i).unwrap();
    }
    list(&mut deps, "other", "000", 1).unwrap();
    assert_eq!(deps.trades.len(), 36);
    let ids = |limit: Option<u32>| -> Vec<String> {
        query_trades_by_buyer(&deps, "buyer".to_string(), limit).trades.into_iter().map(|t| t.nft_id).collect()
    };
    let first = |n: u32| -> Vec<String> { (0..n).map(|i| format!("{:03}", i)).collect() };
    assert_eq!(ids(None), first(10));
    assert_eq!(ids(Some(0)), first(0));
    assert_eq!(ids(Some(1)), first(1));
    assert_eq!(ids(Some(10)), first(10));
    assert_eq!(ids(Some(29)), first(29));
    assert_eq!(ids(Some(30)), first(30));
    assert_eq!(ids(Some(31)), first(30));
    assert_eq!(ids(Some(u32::MAX)), first(30));
    let by_seller = |limit: Option<u32>| query_trades_by_seller(&deps, "seller".to_string(), limit).trades;
    assert_eq!(by_seller(None).len(), 10);
    assert_eq!(by_seller(Some(100)).len(), 30);
    assert_eq!(by_seller(Some(4)).len(), 4);
    // by seller the trades of all buyers come, in the order of their keys
    assert_eq!(by_seller(Some(1))[0].buyer, "buyer");
    assert_eq!(query_trades_by_buyer(&deps, "other".to_string(), None).trades.len(), 1);
    assert!(query_trades_by_buyer(&deps, "nobody".to_string(), None).trades.is_empty());
    assert!(query_trades_by_seller(&deps, "buyer".to_string(), Some(30)).trades.is_empty());
}

#[test]
fn query_config_shows_the_settings() {
    let deps = escrow();
    let res = query_config(&deps);
    assert_eq!(res.admin, "admin");
    assert_eq!(res.fee_admin, "fee_admin");
    assert_eq!(res.commission_addr, "commission_addr");
    assert_eq!(res.buyer_fee, Decimal::permille(15));
    assert_eq!(res.seller_fee, Decimal::permille(15));
    assert_eq!(res.listing_fee, 10);
    assert!(!res.e_break);
}

#[test]
fn price_is_valid_in_the_native_denomination_only() {
    assert_eq!(price_validate(&coin(0, "uluna")), Ok(()));
    assert_eq!(price_validate(&coin(u128::MAX, "uluna")), Ok(()));
    assert_eq!(price_validate(&coin(1, "uusd")), Err(ContractError::InvalidPrice {}));
    assert_eq!(price_validate(&coin(1, "")), Err(ContractError::InvalidPrice {}));
    assert_eq!(price_validate(&coin(1, "ULUNA")), Err(ContractError::InvalidPrice {}));
    assert_eq!(price_validate(&coin(1, "uluna ")), Err(ContractError::InvalidPrice {}));
}

#[test]
fn only_owner_lets_the_owner_through() {
    let sender = info("seller", vec![]);
    assert_eq!(only_owner(owned_by("seller"), &sender), Ok(OwnerOfResponse { owner: "seller".to_string() }));
    assert_eq!(only_owner(owned_by("buyer"), &sender), Err(ContractError::UnauthorizedOwner {}));
    let down = || StdError::generic_err("down");
    assert_eq!(only_owner(Err(down()), &sender), Err(ContractError::Std(down())));
}

#[test]
fn addr_owns_collection_where_it_holds_a_token() {
    assert_eq!(addr_owns_collection(Ok(TokensResponse { tokens: vec![] })), Ok(false));
    assert_eq!(addr_owns_collection(Ok(TokensResponse { tokens: vec!["1".to_string()] })), Ok(true));
    let down = || StdError::generic_err("down");
    assert_eq!(addr_owns_collection(Err(down())), Err(ContractError::Std(down())));
}

#[test]
fn template_contract_calls_itself_without_funds() {
    let contract = CwTemplateContract("escrow".to_string());
    assert_eq!(contract.addr(), "escrow");
    assert_eq!(
        contract.call(vec![1, 2]),
        Instruction::Execute { contract_addr: "escrow".to_string(), msg: vec![1, 2], funds: vec![] }
    );
}

#[test]
fn every_failure_has_its_kind() {
    let kinds = [
        (ContractError::Std(StdError::generic_err("x")), ErrorKind::UpstreamFailure),
        (ContractError::Unauthorized {}, ErrorKind::Unauthorized),
        (ContractError::InvalidPrice {}, ErrorKind::InvalidInput),
        (ContractError::TradeNotConfirmed {}, ErrorKind::StateConflict),
        (ContractError::AlreadyConfirmedFees {}, ErrorKind::StateConflict),
        (ContractError::PaymentAmountMismatch {}, ErrorKind::PaymentMismatch),
        (ContractError::MissingListingFee {}, ErrorKind::PaymentMismatch),
        (ContractError::EmergencyBreakActivated {}, ErrorKind::HaltedOperation),
        (ContractError::ParameterMissing {}, ErrorKind::InvalidInput),
        (ContractError::UnauthorizedOwner {}, ErrorKind::Unauthorized),
        (ContractError::TradePaymentError(PaymentError::ExtraDenom("x".to_string())), ErrorKind::PaymentMismatch),
        (ContractError::TradeAlreadyExists {}, ErrorKind::StateConflict),
        (ContractError::TradeNotFound {}, ErrorKind::StateConflict),
        (ContractError::AmbiguousParty {}, ErrorKind::InvalidInput),
        (ContractError::Overflow {}, ErrorKind::InvalidInput),
    ];
    for (error, kind) in kinds {
        assert_eq!(error.kind(), kind);
    }
}

#[test]
fn answers_are_built_in_order() {
    let event = Event::new("e").add_attribute("a", "1".to_string()).add_attribute("b", "2".to_string());
    assert_eq!(event, Event { ty: "e".to_string(), attributes: vec![attr("a", "1"), attr("b", "2")] });
    let send = |to: &str| Instruction::Send { to_address: to.to_string(), amount: coins(1, "uluna") };
    let res = Response::new()
        .add_message(send("x"))
        .add_attribute("k", "v".to_string())
        .add_event(Event::new("first"))
        .add_message(send("y"))
        .add_event(Event::new("second"))
        .add_attribute("l", "w".to_string());
    assert_eq!(res.messages, vec![send("x"), send("y")]);
    assert_eq!(res.attributes, vec![attr("k", "v"), attr("l", "w")]);
    assert_eq!(res.events, vec![Event::new("first"), Event::new("second")]);
    assert_eq!(coins(7, "uluna"), vec![Coin { denom: "uluna".to_string(), amount: 7 }]);
}

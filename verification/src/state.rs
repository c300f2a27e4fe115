//! The records that the escrow keeps and the context of a request.

use vstd::prelude::*;
use crate::lex::KeyView;
use crate::math::Decimal;

verus! {

/// The one denomination in which prices and fees are paid.
pub const NATIVE_DENOM: &'static str = "uluna";

/// An amount of one denomination.
#[derive(Debug, PartialEq, Eq)]
pub struct Coin {
    pub denom: String,
    pub amount: u128,
}

/// The model of a [`Coin`].
pub struct CoinView {
    pub denom: Seq<char>,
    pub amount: u128,
}

impl View for Coin {
    type V = CoinView;

    open spec fn view(&self) -> CoinView {
        CoinView { denom: self.denom@, amount: self.amount }
    }
}

impl Clone for Coin {
    fn clone(&self) -> (copy: Self)
        ensures
            copy == *self,
    {
        Coin { denom: self.denom.clone(), amount: self.amount }
    }
}

/// `amount` of `denom`.
pub fn coin(amount: u128, denom: &str) -> (c: Coin)
    ensures
        c@ == (CoinView { denom: denom@, amount }),
{
    Coin { denom: denom.to_string(), amount }
}

/// The models of a list of coins, in order.
pub open spec fn coin_views(coins: Seq<Coin>) -> Seq<CoinView> {
    coins.map_values(|c: Coin| c@)
}

/// One proposed exchange of an asset for a payment.
#[derive(Debug, PartialEq, Eq)]
pub struct Trade {
    pub seller: String,
    pub buyer: String,
    pub price: Coin,
    pub nft_collection: String,
    pub nft_id: String,
    pub is_confirmed_trade: bool,
    pub seller_fee: Decimal,
    pub buyer_fee: Decimal,
}

/// The model of a [`Trade`].
pub struct TradeView {
    pub seller: Seq<char>,
    pub buyer: Seq<char>,
    pub price: CoinView,
    pub nft_collection: Seq<char>,
    pub nft_id: Seq<char>,
    pub is_confirmed_trade: bool,
    pub seller_fee: Decimal,
    pub buyer_fee: Decimal,
}

impl TradeView {
    /// The key under which the trade is kept: buyer, collection, asset id.
    pub open spec fn key(self) -> KeyView {
        (self.buyer, self.nft_collection, self.nft_id)
    }
}

impl View for Trade {
    type V = TradeView;

    open spec fn view(&self) -> TradeView {
        TradeView {
            seller: self.seller@,
            buyer: self.buyer@,
            price: self.price@,
            nft_collection: self.nft_collection@,
            nft_id: self.nft_id@,
            is_confirmed_trade: self.is_confirmed_trade,
            seller_fee: self.seller_fee,
            buyer_fee: self.buyer_fee,
        }
    }
}

impl Clone for Trade {
    fn clone(&self) -> (copy: Self)
        ensures
            copy == *self,
    {
        Trade {
            seller: self.seller.clone(),
            buyer: self.buyer.clone(),
            price: self.price.clone(),
            nft_collection: self.nft_collection.clone(),
            nft_id: self.nft_id.clone(),
            is_confirmed_trade: self.is_confirmed_trade,
            seller_fee: self.seller_fee,
            buyer_fee: self.buyer_fee,
        }
    }
}

/// The models of a list of trades, in order.
pub open spec fn trade_views(trades: Seq<Trade>) -> Seq<TradeView> {
    trades.map_values(|t: Trade| t@)
}

/// Buyer, collection, asset id.
pub type TradeKey = (String, String, String);

/// The key of the trade that `buyer` may make for asset `nft_id` of
/// `nft_collection`.
pub fn trade_key(buyer: &String, nft_collection: &String, nft_id: String) -> (key: TradeKey)
    ensures
        key@ == (buyer@, nft_collection@, nft_id@),
{
    (buyer.clone(), nft_collection.clone(), nft_id)
}

/// The settings of the escrow, one record for all trades.
#[derive(Debug, PartialEq, Eq)]
pub struct Config {
    pub admin: String,
    pub fee_admin: String,
    pub commission_addr: String,
    pub seller_fee: Decimal,
    pub buyer_fee: Decimal,
    pub listing_fee: u128,
    pub e_break: bool,
}

/// The model of a [`Config`].
pub struct ConfigView {
    pub admin: Seq<char>,
    pub fee_admin: Seq<char>,
    pub commission_addr: Seq<char>,
    pub seller_fee: Decimal,
    pub buyer_fee: Decimal,
    pub listing_fee: u128,
    pub e_break: bool,
}

impl View for Config {
    type V = ConfigView;

    open spec fn view(&self) -> ConfigView {
        ConfigView {
            admin: self.admin@,
            fee_admin: self.fee_admin@,
            commission_addr: self.commission_addr@,
            seller_fee: self.seller_fee,
            buyer_fee: self.buyer_fee,
            listing_fee: self.listing_fee,
            e_break: self.e_break,
        }
    }
}

impl Clone for Config {
    fn clone(&self) -> (copy: Self)
        ensures
            copy == *self,
    {
        Config {
            admin: self.admin.clone(),
            fee_admin: self.fee_admin.clone(),
            commission_addr: self.commission_addr.clone(),
            seller_fee: self.seller_fee,
            buyer_fee: self.buyer_fee,
            listing_fee: self.listing_fee,
            e_break: self.e_break,
        }
    }
}

/// Where the escrow itself runs.
#[derive(Debug, PartialEq, Eq)]
pub struct Env {
    /// The identity of the escrow, which the registry is asked to authorize.
    pub contract: String,
}

/// Who sent a request, and the funds that came with it.
#[derive(Debug, PartialEq, Eq)]
pub struct MessageInfo {
    pub sender: String,
    pub funds: Vec<Coin>,
}

/// The model of a [`MessageInfo`].
pub struct MessageInfoView {
    pub sender: Seq<char>,
    pub funds: Seq<CoinView>,
}

impl View for MessageInfo {
    type V = MessageInfoView;

    open spec fn view(&self) -> MessageInfoView {
        MessageInfoView { sender: self.sender@, funds: coin_views(self.funds@) }
    }
}

/// The context that the operations on a trade run in.
#[derive(Debug, PartialEq, Eq)]
pub struct ExecuteEnv {
    pub env: Env,
    pub info: MessageInfo,
}

} // verus!

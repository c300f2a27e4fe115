//! The requests that the escrow takes and the answers it gives.

use vstd::prelude::*;
use crate::math::Decimal;
use crate::state::trade_views;
use crate::state::ConfigView;
use crate::state::Trade;
use crate::state::TradeView;

verus! {

/// The request to move an escrow to a new version of its code.
#[derive(Clone, Copy, Debug, PartialEq, Eq, Structural)]
pub struct MigrateMsg {}

/// The request that sets an escrow up.
#[derive(Debug, PartialEq, Eq)]
pub struct InstantiateMsg {
    pub admin: String,
    pub fee_admin: String,
    pub commission_addr: String,
    pub buyer_fee: Decimal,
    pub seller_fee: Decimal,
    pub listing_fee: u128,
}

/// The key after which a page of trades goes on.
#[derive(Debug, PartialEq, Eq)]
pub struct TradeOffset {
    pub buyer: String,
    pub nft_collection: String,
    pub nft_id: String,
}

impl TradeOffset {
    pub fn new(buyer: String, nft_collection: String, nft_id: String) -> (offset: Self)
        ensures
            offset.buyer == buyer,
            offset.nft_collection == nft_collection,
            offset.nft_id == nft_id,
    {
        TradeOffset { buyer, nft_collection, nft_id }
    }
}

/// A page of trades.
#[derive(Debug, PartialEq, Eq)]
pub struct TradesResponse {
    pub trades: Vec<Trade>,
}

impl View for TradesResponse {
    type V = Seq<TradeView>;

    open spec fn view(&self) -> Seq<TradeView> {
        trade_views(self.trades@)
    }
}

/// One trade, where there is one under the key asked for.
#[derive(Debug, PartialEq, Eq)]
pub struct TradeResponse {
    pub trade: Option<Trade>,
}

impl View for TradeResponse {
    type V = Option<TradeView>;

    open spec fn view(&self) -> Option<TradeView> {
        match self.trade {
            Some(t) => Some(t@),
            None => None,
        }
    }
}

/// The settings of the escrow.
#[derive(Debug, PartialEq, Eq)]
pub struct ConfigResponse {
    pub admin: String,
    pub fee_admin: String,
    pub commission_addr: String,
    pub e_break: bool,
    pub buyer_fee: Decimal,
    pub seller_fee: Decimal,
    pub listing_fee: u128,
}

impl View for ConfigResponse {
    type V = ConfigView;

    open spec fn view(&self) -> ConfigView {
        ConfigView {
            admin: self.admin@,
            fee_admin: self.fee_admin@,
            commission_addr: self.commission_addr@,
            seller_fee: self.seller_fee,
            buyer_fee: self.buyer_fee,
            listing_fee: self.listing_fee,
            e_break: self.e_break,
        }
    }
}

} // verus!

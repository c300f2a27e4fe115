//! What can be asked of the escrow. Nothing here changes it.

use vstd::prelude::*;
use crate::msg::ConfigResponse;
use crate::msg::TradeResponse;
use crate::msg::TradesResponse;
use crate::state::TradeView;
use crate::store::has_key;
use crate::store::matching;
use crate::store::page;
use crate::store::record_at;
use crate::store::Escrow;
use crate::store::IndexName;

verus! {

/// The length of a page where none is asked for.
pub const DEFAULT_QUERY_LIMIT: u32 = 10;

/// The length that no page exceeds.
pub const MAX_QUERY_LIMIT: u32 = 30;

/// The length of the page that is given where `limit` is asked for.
pub open spec fn page_limit(limit: Option<u32>) -> nat {
    let asked = match limit {
        Some(n) => n,
        None => DEFAULT_QUERY_LIMIT,
    };
    if asked < MAX_QUERY_LIMIT {
        asked as nat
    } else {
        MAX_QUERY_LIMIT as nat
    }
}

/// The settings as they stand.
pub fn query_config(deps: &Escrow) -> (res: ConfigResponse)
    ensures
        res@ == deps@.config,
{
    ConfigResponse {
        admin: deps.config.admin.clone(),
        commission_addr: deps.config.commission_addr.clone(),
        fee_admin: deps.config.fee_admin.clone(),
        buyer_fee: deps.config.buyer_fee,
        seller_fee: deps.config.seller_fee,
        e_break: deps.config.e_break,
        listing_fee: deps.config.listing_fee,
    }
}

/// The trade kept under `(buyer, nft_collection, nft_id)`, if there is one.
pub fn query_trade(deps: &Escrow, buyer: String, nft_collection: String, nft_id: String) -> (res:
    TradeResponse)
    requires
        deps.wf(),
    ensures
        res@ == (if has_key(deps@.trades, (buyer@, nft_collection@, nft_id@)) {
            Some(record_at(deps@.trades, (buyer@, nft_collection@, nft_id@)))
        } else {
            None::<TradeView>
        }),
{
    let trade = deps.trades.may_load(&(buyer, nft_collection, nft_id));
    TradeResponse { trade }
}

/// The trades that `buyer` can make, in ascending order of their keys: the
/// first `limit` of them, or ten where no limit is given, and never more
/// than thirty.
pub fn query_trades_by_buyer(deps: &Escrow, buyer: String, limit: Option<u32>) -> (res:
    TradesResponse)
    requires
        deps.wf(),
    ensures
        res@ == page(deps@.trades.filter(matching(IndexName::Buyer, buyer@)), page_limit(limit)),
{
    let limit = effective_limit(limit);
    let trades = deps.trades.scan_by_index(IndexName::Buyer, buyer.as_str(), limit);
    TradesResponse { trades }
}

/// The trades that `seller` has listed, in ascending order of their keys:
/// the first `limit` of them, or ten where no limit is given, and never more
/// than thirty.
pub fn query_trades_by_seller(deps: &Escrow, seller: String, limit: Option<u32>) -> (res:
    TradesResponse)
    requires
        deps.wf(),
    ensures
        res@ == page(deps@.trades.filter(matching(IndexName::Seller, seller@)), page_limit(limit)),
{
    let limit = effective_limit(limit);
    let trades = deps.trades.scan_by_index(IndexName::Seller, seller.as_str(), limit);
    TradesResponse { trades }
}

/// The length of the page that is given where `limit` is asked for.
fn effective_limit(limit: Option<u32>) -> (n: usize)
    ensures
        n == page_limit(limit),
{
    let asked = match limit {
        Some(n) => n,
        None => DEFAULT_QUERY_LIMIT,
    };
    if asked < MAX_QUERY_LIMIT {
        asked as usize
    } else {
        MAX_QUERY_LIMIT as usize
    }
}

/// No page is longer than asked for, none is longer than thirty, and one
/// for which no length is given is not longer than ten.
pub proof fn lemma_page_bounded(trades: Seq<TradeView>, limit: Option<u32>)
    ensures
        page(trades, page_limit(limit)).len() <= page_limit(limit),
        page_limit(limit) <= MAX_QUERY_LIMIT,
        limit.is_none() ==> page_limit(limit) == DEFAULT_QUERY_LIMIT,
        limit matches Some(n) ==> page_limit(limit) == (if n > MAX_QUERY_LIMIT {
            MAX_QUERY_LIMIT
        } else {
            n
        }),
{
}

} // verus!

//! Setting an escrow up.

use vstd::prelude::*;
use crate::msg::InstantiateMsg;
use crate::msg::MigrateMsg;
use crate::response::Response;
use crate::response::ResponseView;
use crate::state::Config;
use crate::state::ConfigView;
use crate::state::MessageInfo;
use crate::state::TradeView;
use crate::store::trades;
use crate::store::Escrow;

verus! {

/// The settings that a new escrow starts with. The sender of the request is
/// its administrator, whatever the request names; both fee fractions start
/// as the seller's fee fraction of the request; the escrow is not halted.
pub open spec fn initial_config(sender: Seq<char>, msg: InstantiateMsg) -> ConfigView {
    ConfigView {
        admin: sender,
        fee_admin: msg.fee_admin@,
        commission_addr: msg.commission_addr@,
        seller_fee: msg.seller_fee,
        buyer_fee: msg.seller_fee,
        listing_fee: msg.listing_fee,
        e_break: false,
    }
}

/// A new escrow, without trades, and the answer to the request that set it
/// up.
pub fn instantiate(info: MessageInfo, msg: InstantiateMsg) -> (made: (Escrow, Response))
    ensures
        made.0.wf(),
        made.0@.config == initial_config(info@.sender, msg),
        made.0@.trades == Seq::<TradeView>::empty(),
        made.1@ == ResponseView::new().add_attribute("method"@, "instantiate"@).add_attribute(
            "admin"@,
            info@.sender,
        ),
{
    let config = Config {
        admin: info.sender.clone(),
        fee_admin: msg.fee_admin,
        commission_addr: msg.commission_addr,
        seller_fee: msg.seller_fee,
        buyer_fee: msg.seller_fee,
        listing_fee: msg.listing_fee,
        e_break: false,
    };
    let res = Response::new().add_attribute("method", "instantiate".to_string()).add_attribute(
        "admin",
        info.sender,
    );
    (Escrow { config, trades: trades() }, res)
}

/// Moving to a new version of the code changes nothing and says nothing.
pub fn migrate(_msg: MigrateMsg) -> (res: Response)
    ensures
        res@ == ResponseView::new(),
{
    Response::new()
}

} // verus!

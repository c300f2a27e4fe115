use nftswitch::index::TradeIndex;
use nftswitch::lex::{key_before, text_before, text_eq};
use nftswitch::math::Decimal;
use nftswitch::state::{coin, trade_key, Trade};
use nftswitch::store::{trades, IndexName, TradeIndices, TradeStore};

fn trade(seller: &str, buyer: &str, collection: &str, id: &str, price: u128) -> Trade {
    Trade {
        seller: seller.to_string(),
        buyer: buyer.to_string(),
        price: coin(price, "uluna"),
        nft_collection: collection.to_string(),
        nft_id: id.to_string(),
        is_confirmed_trade: false,
        seller_fee: Decimal::permille(15),
        buyer_fee: Decimal::permille(15),
    }
}

fn key(buyer: &str, collection: &str, id: &str) -> (String, String, String) {
    (buyer.to_string(), collection.to_string(), id.to_string())
}

fn ids(found: &[Trade]) -> Vec<String> {
    found.iter().map(|t| format!("{}/{}/{}", t.buyer, t.nft_collection, t.nft_id)).collect()
}

#[test]
fn text_order_is_that_of_bytes() {
    assert!(text_before("a", "b"));
    assert!(!text_before("b", "a"));
    assert!(!text_before("a", "a"));
    assert!(text_before("", "a"));
    assert!(!text_before("a", ""));
    assert!(!text_before("", ""));
    assert!(text_before("a", "ab"));
    assert!(!text_before("ab", "a"));
    assert!(text_before("ab", "b"));
    assert!(text_before("100", "101"));
    assert!(text_before("100", "99"));
    assert!(text_before("Z", "a"));
    assert!(text_before("z", "é"));
    assert!(text_before("é", "日"));
    assert_eq!(text_before("z", "é"), "z" < "é");
    assert_eq!(text_before("日本", "日"), "日本" < "日");
}

#[test]
fn text_equality_is_that_of_characters() {
    assert!(text_eq("", ""));
    assert!(text_eq("uluna", "uluna"));
    assert!(!text_eq("uluna", "ulun"));
    assert!(!text_eq("uluna", "ulunb"));
    assert!(!text_eq("é", "e"));
}

#[test]
fn key_order_goes_component_by_component() {
    assert!(key_before("a", "z", "z", "b", "a", "a"));
    assert!(!key_before("b", "a", "a", "a", "z", "z"));
    assert!(key_before("a", "a", "z", "a", "b", "a"));
    assert!(key_before("a", "a", "1", "a", "a", "2"));
    assert!(!key_before("a", "a", "1", "a", "a", "1"));
    assert!(!key_before("a", "a", "2", "a", "a", "1"));
    // a component that is a prefix of the other does not run into the next
    assert!(key_before("a", "b", "", "ab", "", ""));
}

#[test]
fn trade_key_is_buyer_collection_id() {
    let k = trade_key(&"buyer".to_string(), &"collection".to_string(), "7".to_string());
    assert_eq!(k, key("buyer", "collection", "7"));
}

#[test]
fn empty_store_holds_nothing() {
    let store = trades();
    assert_eq!(store.len(), 0);
    assert_eq!(store.may_load(&key("buyer", "c", "1")), None);
    assert!(store.scan_by_index(IndexName::Buyer, "buyer", 10).is_empty());
    assert!(store.to_vec().is_empty());
    let fresh = TradeStore::new();
    assert_eq!(fresh.len(), 0);
}

#[test]
fn saved_trade_is_loaded_under_its_key_only() {
    let mut store = trades();
    store.save(trade("seller", "buyer", "c", "1", 100));
    assert_eq!(store.len(), 1);
    assert_eq!(store.may_load(&key("buyer", "c", "1")), Some(trade("seller", "buyer", "c", "1", 100)));
    assert_eq!(store.may_load(&key("buyer", "c", "2")), None);
    assert_eq!(store.may_load(&key("seller", "c", "1")), None);
    assert_eq!(store.may_load(&key("buyer", "d", "1")), None);
}

#[test]
fn saving_under_a_kept_key_replaces_the_record() {
    let mut store = trades();
    store.save(trade("seller", "buyer", "c", "1", 100));
    store.save(trade("other", "buyer", "c", "1", 250));
    assert_eq!(store.len(), 1);
    assert_eq!(store.may_load(&key("buyer", "c", "1")), Some(trade("other", "buyer", "c", "1", 250)));
    // the index entry of the record that was replaced is gone
    assert!(store.scan_by_index(IndexName::Seller, "seller", 10).is_empty());
    assert_eq!(ids(&store.scan_by_index(IndexName::Seller, "other", 10)), vec!["buyer/c/1"]);
    assert_eq!(ids(&store.scan_by_index(IndexName::Buyer, "buyer", 10)), vec!["buyer/c/1"]);
}

#[test]
fn records_stand_in_ascending_order_of_their_keys() {
    let mut store = trades();
    store.save(trade("s", "bob", "c2", "1", 1));
    store.save(trade("s", "alice", "c9", "7", 2));
    store.save(trade("s", "bob", "c1", "9", 3));
    store.save(trade("s", "alice", "c9", "10", 4));
    store.save(trade("s", "al", "z", "z", 5));
    assert_eq!(ids(&store.to_vec()), vec!["al/z/z", "alice/c9/10", "alice/c9/7", "bob/c1/9", "bob/c2/1"]);
}

#[test]
fn removing_takes_record_and_index_entries() {
    let mut store = trades();
    store.save(trade("s1", "b1", "c", "1", 1));
    store.save(trade("s1", "b2", "c", "2", 2));
    store.save(trade("s2", "b1", "c", "3", 3));
    store.remove(&key("b1", "c", "1"));
    assert_eq!(store.len(), 2);
    assert_eq!(store.may_load(&key("b1", "c", "1")), None);
    assert_eq!(ids(&store.scan_by_index(IndexName::Seller, "s1", 10)), vec!["b2/c/2"]);
    assert_eq!(ids(&store.scan_by_index(IndexName::Buyer, "b1", 10)), vec!["b1/c/3"]);
    assert_eq!(ids(&store.scan_by_index(IndexName::Collection, "c", 10)), vec!["b1/c/3", "b2/c/2"]);
    // removing what is not there changes nothing
    store.remove(&key("b1", "c", "1"));
    store.remove(&key("nobody", "c", "1"));
    assert_eq!(ids(&store.to_vec()), vec!["b1/c/3", "b2/c/2"]);
}

#[test]
fn scan_lists_matches_in_key_order_up_to_the_limit() {
    let mut store = trades();
    store.save(trade("s1", "b3", "c1", "1", 1));
    store.save(trade("s2", "b1", "c1", "2", 2));
    store.save(trade("s1", "b2", "c2", "3", 3));
    store.save(trade("s1", "b1", "c2", "4", 4));
    store.save(trade("s0", "b0", "c0", "5", 5));
    store.save(trade("s3", "b9", "c9", "6", 6));
    assert_eq!(ids(&store.scan_by_index(IndexName::Seller, "s1", 10)), vec!["b1/c2/4", "b2/c2/3", "b3/c1/1"]);
    assert_eq!(ids(&store.scan_by_index(IndexName::Seller, "s1", 3)), vec!["b1/c2/4", "b2/c2/3", "b3/c1/1"]);
    assert_eq!(ids(&store.scan_by_index(IndexName::Seller, "s1", 2)), vec!["b1/c2/4", "b2/c2/3"]);
    assert_eq!(ids(&store.scan_by_index(IndexName::Seller, "s1", 1)), vec!["b1/c2/4"]);
    assert!(store.scan_by_index(IndexName::Seller, "s1", 0).is_empty());
    assert_eq!(ids(&store.scan_by_index(IndexName::Buyer, "b1", 10)), vec!["b1/c1/2", "b1/c2/4"]);
    assert_eq!(ids(&store.scan_by_index(IndexName::Collection, "c2", 10)), vec!["b1/c2/4", "b2/c2/3"]);
    assert_eq!(ids(&store.scan_by_index(IndexName::Collection, "c9", usize::MAX)), vec!["b9/c9/6"]);
    // a key that is a prefix of a kept one, or goes on after one, matches nothing
    assert!(store.scan_by_index(IndexName::Seller, "s", 10).is_empty());
    assert!(store.scan_by_index(IndexName::Seller, "s11", 10).is_empty());
    assert!(store.scan_by_index(IndexName::Seller, "", 10).is_empty());
    assert!(store.scan_by_index(IndexName::Seller, "zz", 10).is_empty());
}

#[test]
fn scan_returns_the_records_themselves() {
    let mut store = trades();
    let mut t = trade("seller", "buyer", "c", "1", 1000);
    t.is_confirmed_trade = true;
    t.seller_fee = Decimal::percent(2);
    store.save(t);
    let mut expected = trade("seller", "buyer", "c", "1", 1000);
    expected.is_confirmed_trade = true;
    expected.seller_fee = Decimal::percent(2);
    assert_eq!(store.scan_by_index(IndexName::Collection, "c", 5), vec![expected]);
}

#[test]
fn rebuilt_store_is_the_store() {
    let mut store = trades();
    store.save(trade("s1", "b3", "c1", "1", 1));
    store.save(trade("s2", "b1", "c1", "2", 2));
    store.save(trade("s1", "b2", "c2", "3", 3));
    let rows = store.to_vec();
    let again = TradeStore::from_trades(rows.clone());
    assert_eq!(again.to_vec(), rows);
    assert_eq!(ids(&again.scan_by_index(IndexName::Seller, "s1", 10)), vec!["b2/c2/3", "b3/c1/1"]);
}

#[test]
fn rebuilding_sorts_and_keeps_the_later_of_two_under_one_key() {
    let rows = vec![
        trade("s1", "b", "c", "2", 1),
        trade("s1", "a", "c", "1", 2),
        trade("s2", "b", "c", "2", 3),
    ];
    let store = TradeStore::from_trades(rows);
    assert_eq!(store.to_vec(), vec![trade("s1", "a", "c", "1", 2), trade("s2", "b", "c", "2", 3)]);
    assert_eq!(ids(&store.scan_by_index(IndexName::Seller, "s1", 10)), vec!["a/c/1"]);
}

#[test]
fn index_table_keeps_entries_in_order() {
    let mut index = TradeIndex::new();
    assert_eq!(index.len(), 0);
    index.insert("s2".to_string(), key("b1", "c", "1"));
    index.insert("s1".to_string(), key("b2", "c", "1"));
    index.insert("s1".to_string(), key("b1", "c", "2"));
    index.insert("s1".to_string(), key("b1", "c", "1"));
    assert_eq!(index.len(), 4);
    let listed: Vec<(String, (String, String, String))> =
        (0..index.len()).map(|i| (index.secondary_at(i).clone(), index.primary_at(i).clone())).collect();
    assert_eq!(
        listed,
        vec![
            ("s1".to_string(), key("b1", "c", "1")),
            ("s1".to_string(), key("b1", "c", "2")),
            ("s1".to_string(), key("b2", "c", "1")),
            ("s2".to_string(), key("b1", "c", "1")),
        ]
    );
    assert_eq!(index.locate("s1", "", "", ""), 0);
    assert_eq!(index.locate("s1", "b1", "c", "2"), 1);
    assert_eq!(index.locate("s1", "b1", "c", "3"), 2);
    assert_eq!(index.locate("s2", "", "", ""), 3);
    assert_eq!(index.locate("s3", "", "", ""), 4);
    // an entry that is there is not entered twice
    index.insert("s1".to_string(), key("b1", "c", "2"));
    assert_eq!(index.len(), 4);
    index.remove("s1", &key("b1", "c", "2"));
    index.remove("s1", &key("b9", "c", "9"));
    assert_eq!(index.len(), 3);
    assert_eq!(index.primary_at(1), &key("b2", "c", "1"));
}

#[test]
fn the_three_indices_come_in_a_fixed_order() {
    let indices = TradeIndices::new();
    let all = indices.get_indexes();
    assert_eq!(all.len(), 3);
    assert_eq!(indices.index(IndexName::Collection).len(), 0);
    assert_eq!(indices.index(IndexName::Seller).len(), 0);
    assert_eq!(indices.index(IndexName::Buyer).len(), 0);
}

#[test]
fn scan_asset_lists_the_trades_of_one_asset() {
    let mut store = trades();
    store.save(trade("s1", "b3", "c1", "1", 1));
    store.save(trade("s2", "b1", "c1", "1", 2));
    store.save(trade("s1", "b2", "c2", "1", 3));
    store.save(trade("s1", "b1", "c1", "2", 4));
    store.save(trade("s3", "b2", "c1", "1", 5));
    assert_eq!(ids(&store.scan_asset("c1", "1")), vec!["b1/c1/1", "b2/c1/1", "b3/c1/1"]);
    assert_eq!(ids(&store.scan_asset("c1", "2")), vec!["b1/c1/2"]);
    assert_eq!(ids(&store.scan_asset("c2", "1")), vec!["b2/c2/1"]);
    assert!(store.scan_asset("c2", "2").is_empty());
    assert!(store.scan_asset("c", "1").is_empty());
    assert!(store.scan_asset("c1", "").is_empty());
    assert!(trades().scan_asset("c1", "1").is_empty());
}

//! The table of open trades.
//!
//! Records stand in ascending order of their key (buyer, collection, asset
//! id). Three secondary indices, by collection, by seller and by buyer, hold
//! one entry per record and are changed together with the records, so that a
//! scan of an index lists exactly the records that carry the key asked for.

use vstd::prelude::*;
use crate::index::entry_lt;
use crate::index::entry_order;
use crate::index::EntryView;
use crate::index::TradeIndex;
use crate::lex::key_before;
use crate::lex::key_lt;
use crate::lex::key_order;
use crate::lex::lemma_empty_text_least;
use crate::lex::lemma_key_asymmetric;
use crate::lex::lemma_key_irreflexive;
use crate::lex::lemma_key_order_strict_total;
use crate::lex::lemma_key_total;
use crate::lex::lemma_key_transitive;
use crate::lex::lemma_text_asymmetric;
use crate::lex::lemma_text_irreflexive;
use crate::lex::lemma_text_total;
use crate::lex::text_eq;
use crate::lex::KeyView;
use crate::sorted::ascending;
use crate::sorted::lemma_ascending_unique;
use crate::sorted::lemma_filter_all;
use crate::sorted::lemma_filter_ascending;
use crate::sorted::lemma_filter_head;
use crate::sorted::lemma_filter_none;
use crate::sorted::lemma_filter_tail;
use crate::sorted::lemma_insert_ascending;
use crate::sorted::lemma_insert_contains;
use crate::sorted::lemma_remove_ascending;
use crate::sorted::lemma_remove_contains;
use crate::state::trade_views;
use crate::state::Config;
use crate::state::ConfigView;
use crate::state::Trade;
use crate::state::TradeKey;
use crate::state::TradeView;

verus! {

/// The secondary keys by which trades can be listed.
#[derive(Clone, Copy, Debug, PartialEq, Eq, Structural)]
pub enum IndexName {
    Collection,
    Seller,
    Buyer,
}

/// The secondary key that trade `t` has under index `which`.
pub open spec fn secondary(t: TradeView, which: IndexName) -> Seq<char> {
    match which {
        IndexName::Collection => t.nft_collection,
        IndexName::Seller => t.seller,
        IndexName::Buyer => t.buyer,
    }
}

/// The entry that index `which` holds for trade `t`.
pub open spec fn entry_of(t: TradeView, which: IndexName) -> EntryView {
    EntryView { ik: secondary(t, which), pk: t.key() }
}

/// The entries that index `which` holds for `rows`, row by row.
pub open spec fn image(rows: Seq<TradeView>, which: IndexName) -> Seq<EntryView> {
    rows.map_values(|t: TradeView| entry_of(t, which))
}

/// `entries` holds an entry for each of `rows` and no other.
pub open spec fn mirrors(entries: Seq<EntryView>, rows: Seq<TradeView>, which: IndexName) -> bool {
    forall|x: EntryView| entries.contains(x) <==> #[trigger] image(rows, which).contains(x)
}

/// The order of records: that of their keys.
pub open spec fn row_order() -> spec_fn(TradeView, TradeView) -> bool {
    |a: TradeView, b: TradeView| key_lt(a.key(), b.key())
}

/// The keys of `rows`, row by row.
pub open spec fn keys(rows: Seq<TradeView>) -> Seq<KeyView> {
    rows.map_values(|t: TradeView| t.key())
}

/// Some record of `rows` is kept under key `k`.
pub open spec fn has_key(rows: Seq<TradeView>, k: KeyView) -> bool {
    exists|i: int| 0 <= i < rows.len() && #[trigger] rows[i].key() == k
}

/// The record of `rows` that is kept under key `k`.
pub open spec fn record_at(rows: Seq<TradeView>, k: KeyView) -> TradeView {
    choose|t: TradeView| rows.contains(t) && t.key() == k
}

/// The records whose key sorts before `k`.
pub open spec fn below(k: KeyView) -> spec_fn(TradeView) -> bool {
    |t: TradeView| key_lt(t.key(), k)
}

/// The records whose key sorts after `k`.
pub open spec fn above(k: KeyView) -> spec_fn(TradeView) -> bool {
    |t: TradeView| key_lt(k, t.key())
}

/// The records whose key is not `k`.
pub open spec fn other_than(k: KeyView) -> spec_fn(TradeView) -> bool {
    |t: TradeView| t.key() != k
}

/// `rows` with `t` put under its key, in place of what was kept there.
pub open spec fn upsert(rows: Seq<TradeView>, t: TradeView) -> Seq<TradeView> {
    rows.filter(below(t.key())).push(t) + rows.filter(above(t.key()))
}

/// `rows` without the record kept under `k`.
pub open spec fn without(rows: Seq<TradeView>, k: KeyView) -> Seq<TradeView> {
    rows.filter(other_than(k))
}

/// The records whose secondary key under `which` is `prefix`.
pub open spec fn matching(which: IndexName, prefix: Seq<char>) -> spec_fn(TradeView) -> bool {
    |t: TradeView| secondary(t, which) == prefix
}

/// The first `limit` elements of `s`, or all of it where it has fewer.
pub open spec fn page<T>(s: Seq<T>, limit: nat) -> Seq<T> {
    if limit < s.len() {
        s.take(limit as int)
    } else {
        s
    }
}

/// The records of the asset with id `nft_id`, in whichever collection.
pub open spec fn with_id(nft_id: Seq<char>) -> spec_fn(TradeView) -> bool {
    |t: TradeView| t.nft_id == nft_id
}

/// The trades kept for the asset `nft_id` of `nft_collection`, whoever is to
/// buy it, in the order of `rows`.
pub open spec fn for_asset(
    rows: Seq<TradeView>,
    nft_collection: Seq<char>,
    nft_id: Seq<char>,
) -> Seq<TradeView> {
    rows.filter(matching(IndexName::Collection, nft_collection)).filter(with_id(nft_id))
}

/// The trades kept for an asset are the records that name its collection
/// and its id, and no others.
pub proof fn lemma_for_asset(
    rows: Seq<TradeView>,
    nft_collection: Seq<char>,
    nft_id: Seq<char>,
    t: TradeView,
)
    ensures
        for_asset(rows, nft_collection, nft_id).contains(t) <==> rows.contains(t)
            && t.nft_collection == nft_collection && t.nft_id == nft_id,
{
    let in_collection = matching(IndexName::Collection, nft_collection);
    let mid = rows.filter(in_collection);
    let out = mid.filter(with_id(nft_id));
    if out.contains(t) {
        let i = choose|i: int| 0 <= i < out.len() && out[i] == t;
        mid.lemma_filter_pred(with_id(nft_id), i);
        mid.lemma_filter_contains_rev(with_id(nft_id), t);
        let j = choose|j: int| 0 <= j < mid.len() && mid[j] == t;
        rows.lemma_filter_pred(in_collection, j);
        rows.lemma_filter_contains_rev(in_collection, t);
    }
    if rows.contains(t) && t.nft_collection == nft_collection && t.nft_id == nft_id {
        let i = choose|i: int| 0 <= i < rows.len() && rows[i] == t;
        rows.lemma_filter_contains(in_collection, i);
        let j = choose|j: int| 0 <= j < mid.len() && mid[j] == t;
        mid.lemma_filter_contains(with_id(nft_id), j);
    }
}

/// The three secondary indices over the trades.
#[derive(Debug)]
pub struct TradeIndices {
    collection: TradeIndex,
    seller: TradeIndex,
    buyer: TradeIndex,
}

impl TradeIndices {
    /// The model of index `which`.
    pub closed spec fn entries(&self, which: IndexName) -> Seq<EntryView> {
        match which {
            IndexName::Collection => self.collection@,
            IndexName::Seller => self.seller@,
            IndexName::Buyer => self.buyer@,
        }
    }

    /// Each index is in order and holds what `rows` asks for.
    pub closed spec fn wf(&self, rows: Seq<TradeView>) -> bool {
        &&& self.collection.wf()
        &&& self.seller.wf()
        &&& self.buyer.wf()
        &&& mirrors(self.collection@, rows, IndexName::Collection)
        &&& mirrors(self.seller@, rows, IndexName::Seller)
        &&& mirrors(self.buyer@, rows, IndexName::Buyer)
    }

    /// Three indices without entries.
    pub fn new() -> (idx: Self)
        ensures
            idx.wf(Seq::<TradeView>::empty()),
            forall|which: IndexName| #[trigger] idx.entries(which) == Seq::<EntryView>::empty(),
    {
        let idx = TradeIndices {
            collection: TradeIndex::new(),
            seller: TradeIndex::new(),
            buyer: TradeIndex::new(),
        };
        proof {
            let none = Seq::<TradeView>::empty();
            assert(image(none, IndexName::Collection) =~= Seq::<EntryView>::empty());
            assert(image(none, IndexName::Seller) =~= Seq::<EntryView>::empty());
            assert(image(none, IndexName::Buyer) =~= Seq::<EntryView>::empty());
        }
        idx
    }

    /// The index named `which`.
    pub fn index(&self, which: IndexName) -> (index: &TradeIndex)
        ensures
            index@ == self.entries(which),
            self.wf_index(which) ==> index.wf(),
    {
        match which {
            IndexName::Collection => &self.collection,
            IndexName::Seller => &self.seller,
            IndexName::Buyer => &self.buyer,
        }
    }

    /// Index `which` is in order.
    pub closed spec fn wf_index(&self, which: IndexName) -> bool {
        match which {
            IndexName::Collection => self.collection.wf(),
            IndexName::Seller => self.seller.wf(),
            IndexName::Buyer => self.buyer.wf(),
        }
    }

    /// The three indices: by collection, by seller, by buyer.
    pub fn get_indexes(&self) -> (all: Vec<&TradeIndex>)
        ensures
            all@.len() == 3,
            all@[0]@ == self.entries(IndexName::Collection),
            all@[1]@ == self.entries(IndexName::Seller),
            all@[2]@ == self.entries(IndexName::Buyer),
    {
        let mut all: Vec<&TradeIndex> = Vec::new();
        all.push(&self.collection);
        all.push(&self.seller);
        all.push(&self.buyer);
        all
    }

    /// Enters `trade`, which is put at `pos` in `rows`, into each index.
    fn insert(&mut self, trade: &Trade, Ghost(rows): Ghost<Seq<TradeView>>, Ghost(pos): Ghost<int>)
        requires
            old(self).wf(rows),
            0 <= pos <= rows.len(),
        ensures
            final(self).wf(rows.insert(pos, trade@)),
    {
        let ghost t = trade@;
        proof {
            lemma_image_insert(rows, pos, t, IndexName::Collection);
            lemma_image_insert(rows, pos, t, IndexName::Seller);
            lemma_image_insert(rows, pos, t, IndexName::Buyer);
        }
        self.collection.insert(
            trade.nft_collection.clone(),
            (trade.buyer.clone(), trade.nft_collection.clone(), trade.nft_id.clone()),
        );
        self.seller.insert(
            trade.seller.clone(),
            (trade.buyer.clone(), trade.nft_collection.clone(), trade.nft_id.clone()),
        );
        self.buyer.insert(
            trade.buyer.clone(),
            (trade.buyer.clone(), trade.nft_collection.clone(), trade.nft_id.clone()),
        );
    }

    /// Takes the entries of `trade`, which stands at `pos` in `rows`, out of
    /// each index.
    fn remove(&mut self, trade: &Trade, Ghost(rows): Ghost<Seq<TradeView>>, Ghost(pos): Ghost<int>)
        requires
            old(self).wf(rows),
            ascending(rows, row_order()),
            0 <= pos < rows.len(),
            rows[pos] == trade@,
        ensures
            final(self).wf(rows.remove(pos)),
    {
        proof {
            lemma_image_remove(rows, pos, IndexName::Collection);
            lemma_image_remove(rows, pos, IndexName::Seller);
            lemma_image_remove(rows, pos, IndexName::Buyer);
        }
        let pk = (trade.buyer.clone(), trade.nft_collection.clone(), trade.nft_id.clone());
        self.collection.remove(trade.nft_collection.as_str(), &pk);
        self.seller.remove(trade.seller.as_str(), &pk);
        self.buyer.remove(trade.buyer.as_str(), &pk);
    }
}

/// What inserting a row does to the entries asked for.
proof fn lemma_image_insert(rows: Seq<TradeView>, pos: int, t: TradeView, which: IndexName)
    requires
        0 <= pos <= rows.len(),
    ensures
        forall|x: EntryView| #[trigger]
            image(rows.insert(pos, t), which).contains(x) <==> image(rows, which).contains(x) || x
                == entry_of(t, which),
{
    assert(image(rows.insert(pos, t), which) =~= image(rows, which).insert(
        pos,
        entry_of(t, which),
    ));
    lemma_insert_contains(image(rows, which), pos, entry_of(t, which));
}

/// The order of entries by primary key alone.
spec fn pk_order() -> spec_fn(EntryView, EntryView) -> bool {
    |a: EntryView, b: EntryView| key_lt(a.pk, b.pk)
}

/// What removing a row does to the entries asked for.
proof fn lemma_image_remove(rows: Seq<TradeView>, pos: int, which: IndexName)
    requires
        ascending(rows, row_order()),
        0 <= pos < rows.len(),
    ensures
        forall|x: EntryView| #[trigger]
            image(rows.remove(pos), which).contains(x) <==> image(rows, which).contains(x) && x
                != entry_of(rows[pos], which),
{
    let img = image(rows, which);
    assert(image(rows.remove(pos), which) =~= img.remove(pos));
    assert forall|i: int, j: int| 0 <= i < j < img.len() implies #[trigger] pk_order()(
        img[i],
        img[j],
    ) by {
        assert(row_order()(rows[i], rows[j]));
    }
    assert forall|a: EntryView| !#[trigger] pk_order()(a, a) by {
        lemma_key_irreflexive(a.pk);
    }
    lemma_remove_contains(img, pk_order(), pos);
}

/// The entries whose secondary key is `prefix`.
spec fn pointing(prefix: Seq<char>) -> spec_fn(EntryView) -> bool {
    |e: EntryView| e.ik == prefix
}

/// The primary keys of `entries`, entry by entry.
spec fn targets(entries: Seq<EntryView>) -> Seq<KeyView> {
    entries.map_values(|e: EntryView| e.pk)
}

/// An index in order lists, under one secondary key, the keys of exactly
/// the records that carry it, in the order of the records.
proof fn lemma_index_lists_rows(
    entries: Seq<EntryView>,
    rows: Seq<TradeView>,
    which: IndexName,
    prefix: Seq<char>,
)
    requires
        ascending(entries, entry_order()),
        ascending(rows, row_order()),
        mirrors(entries, rows, which),
    ensures
        targets(entries.filter(pointing(prefix))) == keys(rows.filter(matching(which, prefix))),
{
    let hits = entries.filter(pointing(prefix));
    let found = rows.filter(matching(which, prefix));
    let x = targets(hits);
    let y = keys(found);
    lemma_filter_ascending(entries, entry_order(), pointing(prefix));
    lemma_filter_ascending(rows, row_order(), matching(which, prefix));
    assert forall|i: int, j: int| 0 <= i < j < x.len() implies #[trigger] key_order()(
        x[i],
        x[j],
    ) by {
        assert(entry_order()(hits[i], hits[j]));
        entries.lemma_filter_pred(pointing(prefix), i);
        entries.lemma_filter_pred(pointing(prefix), j);
        lemma_text_irreflexive(prefix);
    }
    assert forall|i: int, j: int| 0 <= i < j < y.len() implies #[trigger] key_order()(
        y[i],
        y[j],
    ) by {
        assert(row_order()(found[i], found[j]));
    }
    assert forall|k: KeyView| x.contains(k) <==> y.contains(k) by {
        if x.contains(k) {
            let i = choose|i: int| 0 <= i < x.len() && x[i] == k;
            entries.lemma_filter_pred(pointing(prefix), i);
            assert(hits.contains(hits[i]));
            entries.lemma_filter_contains_rev(pointing(prefix), hits[i]);
            assert(image(rows, which).contains(hits[i]));
            let j = choose|j: int|
                0 <= j < image(rows, which).len() && image(rows, which)[j] == hits[i];
            assert(matching(which, prefix)(rows[j]));
            rows.lemma_filter_contains(matching(which, prefix), j);
            let m = choose|m: int| 0 <= m < found.len() && found[m] == rows[j];
            assert(y[m] == k);
        }
        if y.contains(k) {
            let m = choose|m: int| 0 <= m < y.len() && y[m] == k;
            rows.lemma_filter_pred(matching(which, prefix), m);
            assert(found.contains(found[m]));
            rows.lemma_filter_contains_rev(matching(which, prefix), found[m]);
            let j = choose|j: int| 0 <= j < rows.len() && rows[j] == found[m];
            assert(image(rows, which)[j] == entry_of(rows[j], which));
            assert(image(rows, which).contains(entry_of(rows[j], which)));
            assert(entries.contains(entry_of(rows[j], which)));
            let i = choose|i: int| 0 <= i < entries.len() && entries[i] == entry_of(rows[j], which);
            assert(pointing(prefix)(entries[i]));
            entries.lemma_filter_contains(pointing(prefix), i);
            let n = choose|n: int| 0 <= n < hits.len() && hits[n] == entries[i];
            assert(x[n] == k);
        }
    }
    lemma_key_order_strict_total();
    lemma_ascending_unique(x, y, key_order());
}

/// After a record is put under its key, it is the one kept there.
pub proof fn lemma_upsert_holds(rows: Seq<TradeView>, t: TradeView)
    ensures
        upsert(rows, t).contains(t),
        has_key(upsert(rows, t), t.key()),
        record_at(upsert(rows, t), t.key()) == t,
{
    let k = t.key();
    let low = rows.filter(below(k));
    let high = rows.filter(above(k));
    let out = upsert(rows, t);
    assert(out[low.len() as int] == t);
    assert(out[low.len() as int].key() == k);
    let u = record_at(out, k);
    let i = choose|i: int| 0 <= i < out.len() && out[i] == u;
    lemma_key_irreflexive(k);
    if i < low.len() {
        rows.lemma_filter_pred(below(k), i);
    } else if i > low.len() {
        rows.lemma_filter_pred(above(k), i - low.len() - 1);
    }
}

/// Putting a record under its key leaves what is kept under other keys.
pub proof fn lemma_upsert_keeps_others(rows: Seq<TradeView>, t: TradeView, u: TradeView)
    requires
        u.key() != t.key(),
    ensures
        upsert(rows, t).contains(u) <==> rows.contains(u),
{
    let low = rows.filter(below(t.key()));
    let high = rows.filter(above(t.key()));
    let out = upsert(rows, t);
    lemma_key_total(u.key(), t.key());
    if rows.contains(u) {
        let i = choose|i: int| 0 <= i < rows.len() && rows[i] == u;
        if key_lt(u.key(), t.key()) {
            rows.lemma_filter_contains(below(t.key()), i);
            let j = choose|j: int| 0 <= j < low.len() && low[j] == u;
            assert(out[j] == u);
        } else {
            rows.lemma_filter_contains(above(t.key()), i);
            let j = choose|j: int| 0 <= j < high.len() && high[j] == u;
            assert(out[low.len() + 1 + j] == u);
        }
    }
    if out.contains(u) {
        let i = choose|i: int| 0 <= i < out.len() && out[i] == u;
        if i < low.len() {
            assert(low.contains(low[i]));
            rows.lemma_filter_contains_rev(below(t.key()), u);
        } else {
            assert(i > low.len());
            assert(high.contains(high[i - low.len() - 1]));
            rows.lemma_filter_contains_rev(above(t.key()), u);
        }
    }
}

/// After the record under a key is taken out, nothing is kept there, and
/// what is kept under other keys stays.
pub proof fn lemma_without_lacks(rows: Seq<TradeView>, k: KeyView)
    ensures
        !has_key(without(rows, k), k),
        forall|u: TradeView| u.key() != k ==> (without(rows, k).contains(u) <==> rows.contains(u)),
{
    let out = without(rows, k);
    if has_key(out, k) {
        let i = choose|i: int| 0 <= i < out.len() && #[trigger] out[i].key() == k;
        rows.lemma_filter_pred(other_than(k), i);
    }
    assert forall|u: TradeView| u.key() != k implies (out.contains(u) <==> rows.contains(u)) by {
        if rows.contains(u) {
            let i = choose|i: int| 0 <= i < rows.len() && rows[i] == u;
            rows.lemma_filter_contains(other_than(k), i);
        }
        if out.contains(u) {
            rows.lemma_filter_contains_rev(other_than(k), u);
        }
    }
}

/// What a table holds after each of `rows` was put into it in turn,
/// beginning with none.
pub open spec fn saved_all(rows: Seq<TradeView>) -> Seq<TradeView>
    decreases rows.len(),
{
    if rows.len() == 0 {
        Seq::empty()
    } else {
        upsert(saved_all(rows.drop_last()), rows.last())
    }
}

/// Records that ascend by key make, put into a table in turn, the table
/// that lists them as they are.
pub proof fn lemma_saved_all_ascending(rows: Seq<TradeView>)
    requires
        ascending(rows, row_order()),
    ensures
        saved_all(rows) == rows,
    decreases rows.len(),
{
    if rows.len() > 0 {
        let head = rows.drop_last();
        let t = rows.last();
        assert forall|i: int, j: int| 0 <= i < j < head.len() implies #[trigger] row_order()(
            head[i],
            head[j],
        ) by {
            assert(row_order()(rows[i], rows[j]));
        }
        lemma_saved_all_ascending(head);
        assert forall|i: int| 0 <= i < head.len() implies below(t.key())(#[trigger] head[i])
            && !above(t.key())(head[i]) by {
            assert(row_order()(rows[i], rows[rows.len() - 1]));
            lemma_key_asymmetric(head[i].key(), t.key());
        }
        lemma_filter_all(head, below(t.key()));
        lemma_filter_none(head, above(t.key()));
        assert(upsert(head, t) =~= rows);
    }
}

/// The table of open trades with its secondary indices.
#[derive(Debug)]
pub struct TradeStore {
    rows: Vec<Trade>,
    idx: TradeIndices,
}

impl View for TradeStore {
    type V = Seq<TradeView>;

    /// The records in ascending order of their keys.
    closed spec fn view(&self) -> Seq<TradeView> {
        trade_views(self.rows@)
    }
}

/// A table without records.
pub fn trades() -> (store: TradeStore)
    ensures
        store.wf(),
        store@ == Seq::<TradeView>::empty(),
{
    TradeStore::new()
}

impl TradeStore {
    /// The records are in strictly ascending order of their keys, and each
    /// index is in order and holds one entry per record and no other.
    pub closed spec fn wf(&self) -> bool {
        &&& ascending(self@, row_order())
        &&& self.idx.wf(self@)
    }

    /// In a well-formed table the records ascend by key, so that no two
    /// share one.
    pub proof fn lemma_ordered(&self)
        requires
            self.wf(),
        ensures
            ascending(self@, row_order()),
            forall|i: int, j: int|
                0 <= i < self@.len() && 0 <= j < self@.len() && i != j ==> #[trigger] self@[i].key()
                    != #[trigger] self@[j].key(),
    {
        assert forall|i: int, j: int|
            0 <= i < self@.len() && 0 <= j < self@.len() && i != j implies #[trigger] self@[i].key()
            != #[trigger] self@[j].key() by {
            lemma_key_irreflexive(self@[i].key());
            if i < j {
                assert(row_order()(self@[i], self@[j]));
            } else {
                assert(row_order()(self@[j], self@[i]));
            }
        }
    }

    /// In a well-formed table each index holds one entry per record and no
    /// other, in ascending order.
    pub proof fn lemma_indexed(&self, which: IndexName)
        requires
            self.wf(),
        ensures
            ascending(self.index_entries(which), entry_order()),
            mirrors(self.index_entries(which), self@, which),
    {
    }

    /// The entries that index `which` holds.
    pub closed spec fn index_entries(&self, which: IndexName) -> Seq<EntryView> {
        self.idx.entries(which)
    }

    /// A table without records.
    pub fn new() -> (store: Self)
        ensures
            store.wf(),
            store@ == Seq::<TradeView>::empty(),
    {
        let store = TradeStore { rows: Vec::new(), idx: TradeIndices::new() };
        assert(store@ =~= Seq::<TradeView>::empty());
        store
    }

    /// The number of records.
    pub fn len(&self) -> (n: usize)
        ensures
            n == self@.len(),
    {
        self.rows.len()
    }

    /// What a scan of an index gives: records that carry the key asked for,
    /// in ascending order of their own keys, and not more than the limit.
    pub proof fn lemma_scan_ordered(&self, which: IndexName, prefix: Seq<char>, limit: nat)
        requires
            self.wf(),
        ensures
            ({
                let found = page(self@.filter(matching(which, prefix)), limit);
                &&& found.len() <= limit
                &&& ascending(found, row_order())
                &&& forall|i: int|
                    0 <= i < found.len() ==> self@.contains(#[trigger] found[i]) && secondary(
                        found[i],
                        which,
                    ) == prefix
            }),
    {
        let all = self@.filter(matching(which, prefix));
        let found = page(all, limit);
        lemma_filter_ascending(self@, row_order(), matching(which, prefix));
        assert forall|i: int, j: int| 0 <= i < j < found.len() implies #[trigger] row_order()(
            found[i],
            found[j],
        ) by {
            assert(row_order()(all[i], all[j]));
        }
        assert forall|i: int| 0 <= i < found.len() implies self@.contains(#[trigger] found[i])
            && secondary(found[i], which) == prefix by {
            assert(found[i] == all[i]);
            self@.lemma_filter_pred(matching(which, prefix), i);
            assert(all.contains(all[i]));
            self@.lemma_filter_contains_rev(matching(which, prefix), all[i]);
        }
    }

    /// The trades kept for the asset `nft_id` of `nft_collection`, in
    /// ascending order of their keys, that is of their buyers. They are
    /// found through the index by collection.
    pub fn scan_asset(&self, nft_collection: &str, nft_id: &str) -> (out: Vec<Trade>)
        requires
            self.wf(),
        ensures
            trade_views(out@) == for_asset(self@, nft_collection@, nft_id@),
    {
        let all = self.scan_by_index(IndexName::Collection, nft_collection, usize::MAX);
        let kept = self.rows.len();
        let ghost listed = trade_views(all@);
        proof {
            let found = self@.filter(matching(IndexName::Collection, nft_collection@));
            self@.lemma_filter_len(matching(IndexName::Collection, nft_collection@));
            assert(found.len() <= kept);
            assert(listed == found);
        }
        let mut out: Vec<Trade> = Vec::new();
        let mut i: usize = 0;
        proof {
            assert(listed.take(0) =~= Seq::<TradeView>::empty());
            lemma_filter_none(listed.take(0), with_id(nft_id@));
            assert(trade_views(out@) =~= Seq::<TradeView>::empty());
        }
        while i < all.len()
            invariant
                i <= all.len(),
                listed == trade_views(all@),
                trade_views(out@) == listed.take(i as int).filter(with_id(nft_id@)),
            decreases all.len() - i,
        {
            let ghost before = trade_views(out@);
            proof {
                assert(listed.take(i as int + 1) =~= listed.take(i as int).push(listed[i as int]));
                listed.take(i as int).lemma_filter_push(listed[i as int], with_id(nft_id@));
            }
            if text_eq(all[i].nft_id.as_str(), nft_id) {
                out.push(all[i].clone());
                proof {
                    assert(trade_views(out@) =~= before.push(listed[i as int]));
                }
            }
            i += 1;
        }
        proof {
            assert(listed.take(i as int) =~= listed);
        }
        out
    }

    /// The records, in ascending order of their keys.
    pub fn to_vec(&self) -> (rows: Vec<Trade>)
        ensures
            trade_views(rows@) == self@,
    {
        let mut rows: Vec<Trade> = Vec::new();
        let mut i: usize = 0;
        while i < self.rows.len()
            invariant
                i <= self.rows.len(),
                rows@ == self.rows@.take(i as int),
            decreases self.rows.len() - i,
        {
            rows.push(self.rows[i].clone());
            proof {
                assert(rows@ =~= self.rows@.take(i as int + 1));
            }
            i += 1;
        }
        proof {
            assert(self.rows@.take(i as int) =~= self.rows@);
        }
        rows
    }

    /// The table that holds `rows`, each put under its own key in turn: of
    /// two that share a key the later one stays.
    pub fn from_trades(rows: Vec<Trade>) -> (store: Self)
        ensures
            store.wf(),
            store@ == saved_all(trade_views(rows@)),
    {
        let ghost all = trade_views(rows@);
        let mut store = TradeStore::new();
        let mut i: usize = 0;
        while i < rows.len()
            invariant
                i <= rows.len(),
                all == trade_views(rows@),
                store.wf(),
                store@ == saved_all(all.take(i as int)),
            decreases rows.len() - i,
        {
            proof {
                assert(all.take(i as int + 1).drop_last() =~= all.take(i as int));
            }
            store.save(rows[i].clone());
            i += 1;
        }
        proof {
            assert(all.take(i as int) =~= all);
        }
        store
    }

    /// The place of the first record whose key does not sort before
    /// `(k0, k1, k2)`, found by halving.
    fn locate(&self, k0: &str, k1: &str, k2: &str) -> (pos: usize)
        requires
            self.wf(),
        ensures
            pos <= self@.len(),
            forall|i: int| 0 <= i < pos ==> key_lt(#[trigger] self@[i].key(), (k0@, k1@, k2@)),
            forall|i: int|
                pos <= i < self@.len() ==> !key_lt(#[trigger] self@[i].key(), (k0@, k1@, k2@)),
    {
        let ghost target = (k0@, k1@, k2@);
        let mut lo: usize = 0;
        let mut hi: usize = self.rows.len();
        while lo < hi
            invariant
                lo <= hi <= self.rows.len(),
                self.wf(),
                target == (k0@, k1@, k2@),
                forall|i: int| 0 <= i < lo ==> key_lt(#[trigger] self@[i].key(), target),
                forall|i: int| hi <= i < self@.len() ==> !key_lt(#[trigger] self@[i].key(), target),
            decreases hi - lo,
        {
            let mid = lo + (hi - lo) / 2;
            let row = &self.rows[mid];
            let before = key_before(
                row.buyer.as_str(),
                row.nft_collection.as_str(),
                row.nft_id.as_str(),
                k0,
                k1,
                k2,
            );
            assert(before == key_lt(self@[mid as int].key(), target));
            if before {
                assert forall|i: int| 0 <= i < mid + 1 implies key_lt(
                    #[trigger] self@[i].key(),
                    target,
                ) by {
                    if i < mid {
                        assert(row_order()(self@[i], self@[mid as int]));
                        lemma_key_transitive(self@[i].key(), self@[mid as int].key(), target);
                    }
                }
                lo = mid + 1;
            } else {
                assert forall|i: int| mid <= i < self@.len() implies !key_lt(
                    #[trigger] self@[i].key(),
                    target,
                ) by {
                    if i > mid && key_lt(self@[i].key(), target) {
                        assert(row_order()(self@[mid as int], self@[i]));
                        lemma_key_transitive(self@[mid as int].key(), self@[i].key(), target);
                    }
                }
                hi = mid;
            }
        }
        lo
    }

    /// Whether the record at `pos` is kept under `(k0, k1, k2)`.
    fn holds_at(&self, pos: usize, k0: &str, k1: &str, k2: &str) -> (found: bool)
        ensures
            found == (pos < self@.len() && self@[pos as int].key() == (k0@, k1@, k2@)),
    {
        if pos >= self.rows.len() {
            return false;
        }
        let row = &self.rows[pos];
        text_eq(row.buyer.as_str(), k0) && text_eq(row.nft_collection.as_str(), k1) && text_eq(
            row.nft_id.as_str(),
            k2,
        )
    }

    /// Where `pos` is the place that `locate` gives for `k`: whether a record
    /// is kept under `k`, and how the others stand to it.
    proof fn lemma_located(&self, pos: int, k: KeyView)
        requires
            self.wf(),
            0 <= pos <= self@.len(),
            forall|i: int| 0 <= i < pos ==> key_lt(#[trigger] self@[i].key(), k),
            forall|i: int| pos <= i < self@.len() ==> !key_lt(#[trigger] self@[i].key(), k),
        ensures
            has_key(self@, k) <==> pos < self@.len() && self@[pos].key() == k,
            forall|i: int| 0 <= i < pos ==> !key_lt(k, #[trigger] self@[i].key()),
            forall|i: int| 0 <= i < pos ==> #[trigger] self@[i].key() != k,
            forall|i: int| pos < i < self@.len() ==> key_lt(k, #[trigger] self@[i].key()),
            pos < self@.len() && self@[pos].key() != k ==> key_lt(k, self@[pos].key()),
    {
        let rows = self@;
        assert forall|i: int| 0 <= i < pos implies !key_lt(k, #[trigger] rows[i].key())
            && rows[i].key() != k by {
            lemma_key_asymmetric(rows[i].key(), k);
        }
        assert forall|i: int| pos < i < rows.len() implies key_lt(k, #[trigger] rows[i].key()) by {
            assert(row_order()(rows[pos], rows[i]));
            lemma_key_total(rows[i].key(), k);
            if rows[i].key() == k {
            }
        }
        if pos < rows.len() {
            lemma_key_total(rows[pos].key(), k);
        }
        if has_key(rows, k) {
            let i = choose|i: int| 0 <= i < rows.len() && #[trigger] rows[i].key() == k;
            lemma_key_irreflexive(k);
            assert(i == pos);
        }
    }

    /// The record kept under `key`, if there is one.
    pub fn may_load(&self, key: &TradeKey) -> (found: Option<Trade>)
        requires
            self.wf(),
        ensures
            match found {
                Some(t) => has_key(self@, key@) && t@ == record_at(self@, key@),
                None => !has_key(self@, key@),
            },
    {
        let pos = self.locate(key.0.as_str(), key.1.as_str(), key.2.as_str());
        proof {
            self.lemma_located(pos as int, key@);
        }
        if self.holds_at(pos, key.0.as_str(), key.1.as_str(), key.2.as_str()) {
            let t = self.rows[pos].clone();
            proof {
                assert(self@[pos as int] == t@);
                self.lemma_record_at(t@);
            }
            Some(t)
        } else {
            None
        }
    }

    /// A well-formed table keeps one record at most under a key: a record
    /// that it holds is the record kept under its key.
    pub proof fn lemma_record_at(&self, t: TradeView)
        requires
            self.wf(),
            self@.contains(t),
        ensures
            has_key(self@, t.key()),
            record_at(self@, t.key()) == t,
    {
        self.lemma_ordered();
        let i = choose|i: int| 0 <= i < self@.len() && self@[i] == t;
        assert(self@[i].key() == t.key());
        let u = record_at(self@, t.key());
        let j = choose|j: int| 0 <= j < self@.len() && self@[j] == u;
        assert(self@[j].key() == self@[i].key());
    }

    /// Puts `trade` under its own key, in place of the record kept there if
    /// there is one, and brings the three indices in line.
    pub fn save(&mut self, trade: Trade)
        requires
            old(self).wf(),
        ensures
            final(self).wf(),
            final(self)@ == upsert(old(self)@, trade@),
    {
        let ghost before = self@;
        let ghost t = trade@;
        let ghost k = trade@.key();
        let pos = self.locate(
            trade.buyer.as_str(),
            trade.nft_collection.as_str(),
            trade.nft_id.as_str(),
        );
        proof {
            self.lemma_located(pos as int, k);
            lemma_key_irreflexive(k);
        }
        let present = self.holds_at(
            pos,
            trade.buyer.as_str(),
            trade.nft_collection.as_str(),
            trade.nft_id.as_str(),
        );
        if present {
            self.remove_at(pos);
        }
        let ghost middle = self@;
        proof {
            lemma_filter_head(before, below(k), pos as int);
            if present {
                lemma_filter_tail(before, above(k), pos as int + 1);
                assert(middle.insert(pos as int, t) =~= before.take(pos as int).push(t)
                    + before.skip(pos as int + 1));
            } else {
                lemma_filter_tail(before, above(k), pos as int);
                assert(middle.insert(pos as int, t) =~= before.take(pos as int).push(t)
                    + before.skip(pos as int));
            }
            assert(!has_key(middle, k)) by {
                if has_key(middle, k) {
                    let i = choose|i: int| 0 <= i < middle.len() && #[trigger] middle[i].key() == k;
                    if present {
                        if i < pos {
                            assert(before[i].key() == k);
                        } else {
                            assert(before[i + 1].key() == k);
                        }
                    } else {
                        assert(before[i].key() == k);
                    }
                }
            }
            assert forall|i: int| 0 <= i < pos implies row_order()(#[trigger] middle[i], t) by {
                assert(key_lt(before[i].key(), k));
            }
            assert forall|i: int| pos <= i < middle.len() implies row_order()(
                t,
                #[trigger] middle[i],
            ) by {
                if present {
                    assert(key_lt(k, before[i + 1].key()));
                } else {
                    assert(key_lt(k, before[i].key()));
                }
            }
        }
        self.insert_at(pos, trade);
    }

    /// Puts `trade`, under whose key nothing is kept, at `pos`.
    fn insert_at(&mut self, pos: usize, trade: Trade)
        requires
            old(self).wf(),
            pos <= old(self)@.len(),
            !has_key(old(self)@, trade@.key()),
            forall|i: int| 0 <= i < pos ==> row_order()(#[trigger] old(self)@[i], trade@),
            forall|i: int|
                pos <= i < old(self)@.len() ==> row_order()(trade@, #[trigger] old(self)@[i]),
        ensures
            final(self).wf(),
            final(self)@ == old(self)@.insert(pos as int, trade@),
    {
        let ghost before = self@;
        let ghost t = trade@;
        proof {
            lemma_insert_ascending(before, row_order(), pos as int, t);
        }
        self.idx.insert(&trade, Ghost(before), Ghost(pos as int));
        self.rows.insert(pos, trade);
        assert(self@ =~= before.insert(pos as int, t));
    }

    /// Takes the record at `pos` out.
    fn remove_at(&mut self, pos: usize)
        requires
            old(self).wf(),
            pos < old(self)@.len(),
        ensures
            final(self).wf(),
            final(self)@ == old(self)@.remove(pos as int),
    {
        let ghost before = self@;
        proof {
            lemma_remove_ascending(before, row_order(), pos as int);
        }
        let gone = self.rows.remove(pos);
        assert(gone@ == before[pos as int]);
        self.idx.remove(&gone, Ghost(before), Ghost(pos as int));
        assert(self@ =~= before.remove(pos as int));
    }

    /// Takes the record kept under `key` out, if there is one, together with
    /// its index entries.
    pub fn remove(&mut self, key: &TradeKey)
        requires
            old(self).wf(),
        ensures
            final(self).wf(),
            final(self)@ == without(old(self)@, key@),
    {
        let ghost before = self@;
        let ghost k = key@;
        let pos = self.locate(key.0.as_str(), key.1.as_str(), key.2.as_str());
        proof {
            self.lemma_located(pos as int, k);
        }
        if self.holds_at(pos, key.0.as_str(), key.1.as_str(), key.2.as_str()) {
            self.remove_at(pos);
            proof {
                let p = pos as int;
                let head = before.take(p);
                let one = before.subrange(p, p + 1);
                let tail = before.skip(p + 1);
                lemma_filter_all(head, other_than(k));
                lemma_filter_none(one, other_than(k));
                assert forall|i: int| 0 <= i < tail.len() implies other_than(k)(
                    #[trigger] tail[i],
                ) by {
                    lemma_key_irreflexive(k);
                    assert(key_lt(k, before[i + p + 1].key()));
                }
                lemma_filter_all(tail, other_than(k));
                assert(before =~= (head + one) + tail);
                Seq::filter_distributes_over_add(head + one, tail, other_than(k));
                Seq::filter_distributes_over_add(head, one, other_than(k));
                assert(before.remove(p) =~= head + tail);
            }
        } else {
            proof {
                assert forall|i: int| 0 <= i < before.len() implies other_than(k)(
                    #[trigger] before[i],
                ) by {
                    assert(!has_key(before, k));
                }
                lemma_filter_all(before, other_than(k));
            }
        }
    }

    /// The first `limit` records whose secondary key under `which` is
    /// `prefix`, in ascending order of their keys. The index is entered at
    /// its first entry for `prefix` and left at the first entry for another
    /// key; each entry met leads to its record.
    pub fn scan_by_index(&self, which: IndexName, prefix: &str, limit: usize) -> (out: Vec<Trade>)
        requires
            self.wf(),
        ensures
            trade_views(out@) == page(self@.filter(matching(which, prefix@)), limit as nat),
    {
        let index = self.idx.index(which);
        let ghost entries = index@;
        let ghost hit = pointing(prefix@);
        let ghost hits = entries.filter(hit);
        let ghost found = self@.filter(matching(which, prefix@));
        let mut out: Vec<Trade> = Vec::new();
        let mut i = index.locate(prefix, "", "", "");
        proof {
            reveal_strlit("");
            assert(""@ =~= Seq::<char>::empty());
            lemma_index_lists_rows(entries, self@, which, prefix@);
            assert(hits.len() == found.len()) by {
                assert(targets(hits).len() == keys(found).len());
            }
            assert forall|j: int| 0 <= j < i implies !hit(#[trigger] entries.take(i as int)[j]) by {
                let e = entries[j];
                lemma_empty_text_least(e.pk.0);
                lemma_empty_text_least(e.pk.1);
                lemma_empty_text_least(e.pk.2);
                lemma_text_irreflexive(prefix@);
            }
            lemma_filter_none(entries.take(i as int), hit);
            assert(trade_views(out@) =~= found.take(0));
            assert(hits.take(0) =~= Seq::<EntryView>::empty());
        }
        while i < index.len() && out.len() < limit
            invariant
                self.wf(),
                index.wf(),
                entries == index@,
                entries == self.index_entries(which),
                hit == pointing(prefix@),
                hits == entries.filter(hit),
                found == self@.filter(matching(which, prefix@)),
                targets(hits) == keys(found),
                hits.len() == found.len(),
                i <= entries.len(),
                out@.len() <= hits.len(),
                out@.len() <= limit,
                entries.take(i as int).filter(hit) == hits.take(out@.len() as int),
                trade_views(out@) == found.take(out@.len() as int),
                forall|j: int|
                    i <= j < entries.len() ==> !entry_lt(
                        #[trigger] entries[j],
                        EntryView { ik: prefix@, pk: (""@, ""@, ""@) },
                    ),
            decreases entries.len() - i,
        {
            let ghost c = out@.len() as int;
            let ghost rest = entries.skip(i as int);
            proof {
                assert(entries =~= entries.take(i as int) + rest);
                Seq::filter_distributes_over_add(entries.take(i as int), rest, hit);
            }
            if !text_eq(index.secondary_at(i).as_str(), prefix) {
                proof {
                    assert forall|j: int| 0 <= j < rest.len() implies !hit(#[trigger] rest[j]) by {
                        let first = entries[i as int];
                        let e = entries[i + j];
                        if j > 0 {
                            assert(entry_order()(first, e));
                        }
                        lemma_text_total(first.ik, prefix@);
                        if e.ik == prefix@ {
                            lemma_text_asymmetric(prefix@, first.ik);
                        }
                    }
                    lemma_filter_none(rest, hit);
                    assert(hits =~= hits.take(c));
                    assert(found =~= found.take(c));
                }
                return out;
            }
            let pk = index.primary_at(i);
            let pos = self.locate(pk.0.as_str(), pk.1.as_str(), pk.2.as_str());
            proof {
                let e = entries[i as int];
                assert(entries.take(i as int + 1) =~= entries.take(i as int).push(e));
                entries.take(i as int).lemma_filter_push(e, hit);
                let tail = entries.skip(i as int + 1);
                assert(entries =~= entries.take(i as int + 1) + tail);
                Seq::filter_distributes_over_add(entries.take(i as int + 1), tail, hit);
                assert(hits.len() > c);
                assert(hits[c] == e);
                assert(hits.take(c + 1) =~= hits.take(c).push(e));
                assert(targets(hits)[c] == e.pk);
                assert(keys(found)[c] == found[c].key());
                self@.lemma_filter_contains_rev(matching(which, prefix@), found[c]);
                assert(found.contains(found[c]));
                assert(has_key(self@, e.pk)) by {
                    let m = choose|m: int| 0 <= m < self@.len() && self@[m] == found[c];
                    assert(self@[m].key() == e.pk);
                }
                self.lemma_located(pos as int, pk@);
                self.lemma_ordered();
                let m = choose|m: int| 0 <= m < self@.len() && self@[m] == found[c];
                assert(m == pos);
                assert(found.take(c + 1) =~= found.take(c).push(found[c]));
            }
            let t = self.rows[pos].clone();
            out.push(t);
            proof {
                assert(trade_views(out@) =~= found.take(c).push(found[c]));
            }
            i += 1;
        }
        proof {
            let c = out@.len() as int;
            if i == entries.len() {
                assert(entries.take(i as int) =~= entries);
                assert(hits =~= hits.take(c));
                assert(found =~= found.take(c));
            }
        }
        out
    }
}

/// All that the escrow keeps between requests: its settings and its trades.
#[derive(Debug)]
pub struct Escrow {
    pub config: Config,
    pub trades: TradeStore,
}

/// The model of an [`Escrow`].
pub struct EscrowView {
    pub config: ConfigView,
    pub trades: Seq<TradeView>,
}

impl View for Escrow {
    type V = EscrowView;

    open spec fn view(&self) -> EscrowView {
        EscrowView { config: self.config@, trades: self.trades@ }
    }
}

impl Escrow {
    /// The table of trades is well formed.
    pub open spec fn wf(&self) -> bool {
        self.trades.wf()
    }
}

} // verus!

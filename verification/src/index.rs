//! One secondary index: a table of (secondary key, primary key) entries in
//! ascending order. An entry points at a record; it never holds one.

use vstd::prelude::*;
use crate::lex::key_before;
use crate::lex::key_lt;
use crate::lex::lemma_key_irreflexive;
use crate::lex::lemma_key_total;
use crate::lex::lemma_key_transitive;
use crate::lex::lemma_text_irreflexive;
use crate::lex::lemma_text_total;
use crate::lex::lemma_text_transitive;
use crate::lex::text_before;
use crate::lex::text_eq;
use crate::lex::text_lt;
use crate::lex::KeyView;
use crate::sorted::ascending;
use crate::sorted::lemma_insert_ascending;
use crate::sorted::lemma_insert_contains;
use crate::sorted::lemma_remove_ascending;
use crate::sorted::lemma_remove_contains;
use crate::state::TradeKey;

verus! {

/// The association of one secondary key with one primary key.
#[derive(Debug)]
pub struct IndexEntry {
    ik: String,
    pk: TradeKey,
}

/// The model of an [`IndexEntry`].
pub struct EntryView {
    pub ik: Seq<char>,
    pub pk: KeyView,
}

impl View for IndexEntry {
    type V = EntryView;

    closed spec fn view(&self) -> EntryView {
        EntryView { ik: self.ik@, pk: self.pk@ }
    }
}

/// Entry `a` sorts strictly before entry `b`: by secondary key, then by
/// primary key.
pub open spec fn entry_lt(a: EntryView, b: EntryView) -> bool {
    text_lt(a.ik, b.ik) || (a.ik == b.ik && key_lt(a.pk, b.pk))
}

/// [`entry_lt`] as a relation that can be handed to lemmas on sequences.
pub open spec fn entry_order() -> spec_fn(EntryView, EntryView) -> bool {
    |a: EntryView, b: EntryView| entry_lt(a, b)
}

/// No entry sorts before itself.
pub proof fn lemma_entry_irreflexive(a: EntryView)
    ensures
        !entry_lt(a, a),
{
    lemma_text_irreflexive(a.ik);
    lemma_key_irreflexive(a.pk);
}

/// Before-ness of entries carries over a middle entry.
pub proof fn lemma_entry_transitive(a: EntryView, b: EntryView, c: EntryView)
    requires
        entry_lt(a, b),
        entry_lt(b, c),
    ensures
        entry_lt(a, c),
{
    if text_lt(a.ik, b.ik) && text_lt(b.ik, c.ik) {
        lemma_text_transitive(a.ik, b.ik, c.ik);
    }
    if key_lt(a.pk, b.pk) && key_lt(b.pk, c.pk) {
        lemma_key_transitive(a.pk, b.pk, c.pk);
    }
}

/// Of two different entries one sorts before the other.
pub proof fn lemma_entry_total(a: EntryView, b: EntryView)
    ensures
        entry_lt(a, b) || a == b || entry_lt(b, a),
{
    lemma_text_total(a.ik, b.ik);
    lemma_key_total(a.pk, b.pk);
}

/// The models of a list of entries, in order.
pub open spec fn entry_views(entries: Seq<IndexEntry>) -> Seq<EntryView> {
    entries.map_values(|e: IndexEntry| e@)
}

/// A secondary index over the trades.
#[derive(Debug)]
pub struct TradeIndex {
    entries: Vec<IndexEntry>,
}

impl View for TradeIndex {
    type V = Seq<EntryView>;

    closed spec fn view(&self) -> Seq<EntryView> {
        entry_views(self.entries@)
    }
}

impl TradeIndex {
    /// The entries stand in strictly ascending order, so none occurs twice.
    pub open spec fn wf(&self) -> bool {
        ascending(self@, entry_order())
    }

    /// An index without entries.
    pub fn new() -> (index: Self)
        ensures
            index.wf(),
            index@ == Seq::<EntryView>::empty(),
    {
        let index = TradeIndex { entries: Vec::new() };
        assert(index@ =~= Seq::<EntryView>::empty());
        index
    }

    /// The number of entries.
    pub fn len(&self) -> (n: usize)
        ensures
            n == self@.len(),
    {
        self.entries.len()
    }

    /// The secondary key of entry `i`.
    pub fn secondary_at(&self, i: usize) -> (ik: &String)
        requires
            i < self@.len(),
        ensures
            ik@ == self@[i as int].ik,
    {
        &self.entries[i].ik
    }

    /// The primary key of entry `i`.
    pub fn primary_at(&self, i: usize) -> (pk: &TradeKey)
        requires
            i < self@.len(),
        ensures
            pk@ == self@[i as int].pk,
    {
        &self.entries[i].pk
    }

    /// The place of the first entry that does not sort before
    /// `(ik, (k0, k1, k2))`, found by halving.
    pub fn locate(&self, ik: &str, k0: &str, k1: &str, k2: &str) -> (pos: usize)
        requires
            self.wf(),
        ensures
            pos <= self@.len(),
            forall|i: int|
                0 <= i < pos ==> entry_lt(
                    #[trigger] self@[i],
                    EntryView { ik: ik@, pk: (k0@, k1@, k2@) },
                ),
            forall|i: int|
                pos <= i < self@.len() ==> !entry_lt(
                    #[trigger] self@[i],
                    EntryView { ik: ik@, pk: (k0@, k1@, k2@) },
                ),
    {
        let ghost target = EntryView { ik: ik@, pk: (k0@, k1@, k2@) };
        let ghost lt = entry_order();
        let mut lo: usize = 0;
        let mut hi: usize = self.entries.len();
        while lo < hi
            invariant
                lo <= hi <= self.entries.len(),
                self.wf(),
                lt == entry_order(),
                target == (EntryView { ik: ik@, pk: (k0@, k1@, k2@) }),
                forall|i: int| 0 <= i < lo ==> entry_lt(#[trigger] self@[i], target),
                forall|i: int| hi <= i < self@.len() ==> !entry_lt(#[trigger] self@[i], target),
            decreases hi - lo,
        {
            let mid = lo + (hi - lo) / 2;
            let e = &self.entries[mid];
            proof {
                lemma_text_irreflexive(ik@);
            }
            let before = if text_eq(e.ik.as_str(), ik) {
                key_before(e.pk.0.as_str(), e.pk.1.as_str(), e.pk.2.as_str(), k0, k1, k2)
            } else {
                text_before(e.ik.as_str(), ik)
            };
            assert(before == entry_lt(self@[mid as int], target));
            if before {
                assert forall|i: int| 0 <= i < mid + 1 implies entry_lt(
                    #[trigger] self@[i],
                    target,
                ) by {
                    if i < mid {
                        assert(lt(self@[i], self@[mid as int]));
                        lemma_entry_transitive(self@[i], self@[mid as int], target);
                    }
                }
                lo = mid + 1;
            } else {
                assert forall|i: int| mid <= i < self@.len() implies !entry_lt(
                    #[trigger] self@[i],
                    target,
                ) by {
                    if i > mid && entry_lt(self@[i], target) {
                        assert(lt(self@[mid as int], self@[i]));
                        lemma_entry_transitive(self@[mid as int], self@[i], target);
                    }
                }
                hi = mid;
            }
        }
        lo
    }

    /// Whether the entry `(ik, pk)` stands at place `pos`.
    fn holds_at(&self, pos: usize, ik: &str, pk: &TradeKey) -> (found: bool)
        ensures
            found == (pos < self@.len() && self@[pos as int] == (EntryView { ik: ik@, pk: pk@ })),
    {
        if pos >= self.entries.len() {
            return false;
        }
        let e = &self.entries[pos];
        text_eq(e.ik.as_str(), ik) && text_eq(e.pk.0.as_str(), pk.0.as_str()) && text_eq(
            e.pk.1.as_str(),
            pk.1.as_str(),
        ) && text_eq(e.pk.2.as_str(), pk.2.as_str())
    }

    /// Adds the entry `(ik, pk)`, unless the index holds it already.
    pub fn insert(&mut self, ik: String, pk: TradeKey)
        requires
            old(self).wf(),
        ensures
            final(self).wf(),
            forall|x: EntryView| #[trigger]
                final(self)@.contains(x) <==> old(self)@.contains(x) || x == (EntryView {
                    ik: ik@,
                    pk: pk@,
                }),
    {
        let ghost e = EntryView { ik: ik@, pk: pk@ };
        let ghost before = self@;
        let pos = self.locate(ik.as_str(), pk.0.as_str(), pk.1.as_str(), pk.2.as_str());
        if self.holds_at(pos, ik.as_str(), &pk) {
            assert(before.contains(before[pos as int]));
            return ;
        }
        proof {
            assert forall|i: int| pos <= i < before.len() implies entry_order()(
                e,
                #[trigger] before[i],
            ) by {
                lemma_entry_total(before[i], e);
                lemma_entry_irreflexive(e);
                if i > pos && before[i] == e {
                    assert(entry_order()(before[pos as int], before[i]));
                }
            }
            lemma_insert_ascending(before, entry_order(), pos as int, e);
            lemma_insert_contains(before, pos as int, e);
        }
        self.entries.insert(pos, IndexEntry { ik, pk });
        assert(self@ =~= before.insert(pos as int, e));
    }

    /// Takes the entry `(ik, pk)` out, if the index holds it.
    pub fn remove(&mut self, ik: &str, pk: &TradeKey)
        requires
            old(self).wf(),
        ensures
            final(self).wf(),
            forall|x: EntryView| #[trigger]
                final(self)@.contains(x) <==> old(self)@.contains(x) && x != (EntryView {
                    ik: ik@,
                    pk: pk@,
                }),
    {
        let ghost e = EntryView { ik: ik@, pk: pk@ };
        let ghost before = self@;
        let pos = self.locate(ik, pk.0.as_str(), pk.1.as_str(), pk.2.as_str());
        if self.holds_at(pos, ik, pk) {
            proof {
                assert forall|a: EntryView| !#[trigger] entry_order()(a, a) by {
                    lemma_entry_irreflexive(a);
                }
                lemma_remove_ascending(before, entry_order(), pos as int);
                lemma_remove_contains(before, entry_order(), pos as int);
            }
            self.entries.remove(pos);
            assert(self@ =~= before.remove(pos as int));
        } else {
            proof {
                if before.contains(e) {
                    let i = choose|i: int| 0 <= i < before.len() && before[i] == e;
                    lemma_entry_irreflexive(e);
                    if i > pos {
                        assert(entry_order()(before[pos as int], before[i]));
                    }
                }
            }
        }
    }
}

} // verus!

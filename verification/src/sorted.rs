//! Sequences kept in strictly ascending order, and what filtering, inserting
//! and removing do to them.

use vstd::prelude::*;

verus! {

/// Every element of `s` stands strictly before all later ones.
pub open spec fn ascending<T>(s: Seq<T>, lt: spec_fn(T, T) -> bool) -> bool {
    forall|i: int, j: int| 0 <= i < j < s.len() ==> #[trigger] lt(s[i], s[j])
}

/// `lt` is a strict total order.
pub open spec fn strict_total<T>(lt: spec_fn(T, T) -> bool) -> bool {
    &&& forall|a: T| !#[trigger] lt(a, a)
    &&& forall|a: T, b: T, c: T| #[trigger] lt(a, b) && #[trigger] lt(b, c) ==> lt(a, c)
    &&& forall|a: T, b: T| #[trigger] lt(a, b) || a == b || lt(b, a)
}

/// An element put where everything before it is smaller and everything
/// after it is larger keeps the sequence ascending.
pub proof fn lemma_insert_ascending<T>(s: Seq<T>, lt: spec_fn(T, T) -> bool, p: int, x: T)
    requires
        ascending(s, lt),
        0 <= p <= s.len(),
        forall|i: int| 0 <= i < p ==> lt(#[trigger] s[i], x),
        forall|i: int| p <= i < s.len() ==> lt(x, #[trigger] s[i]),
    ensures
        ascending(s.insert(p, x), lt),
{
    let t = s.insert(p, x);
    assert forall|i: int, j: int| 0 <= i < j < t.len() implies #[trigger] lt(t[i], t[j]) by {
        if i < p && j > p {
            assert(lt(s[i], s[j - 1]));
        } else if i < p && j < p {
            assert(lt(s[i], s[j]));
        } else if i > p {
            assert(lt(s[i - 1], s[j - 1]));
        }
    }
}

/// Taking an element out keeps the sequence ascending.
pub proof fn lemma_remove_ascending<T>(s: Seq<T>, lt: spec_fn(T, T) -> bool, p: int)
    requires
        ascending(s, lt),
        0 <= p < s.len(),
    ensures
        ascending(s.remove(p), lt),
{
    let t = s.remove(p);
    assert forall|i: int, j: int| 0 <= i < j < t.len() implies #[trigger] lt(t[i], t[j]) by {
        let i0 = if i < p { i } else { i + 1 };
        let j0 = if j < p { j } else { j + 1 };
        assert(lt(s[i0], s[j0]));
    }
}

/// What an insertion does to membership.
pub proof fn lemma_insert_contains<T>(s: Seq<T>, p: int, x: T)
    requires
        0 <= p <= s.len(),
    ensures
        forall|y: T| #[trigger] s.insert(p, x).contains(y) <==> s.contains(y) || y == x,
{
    let t = s.insert(p, x);
    assert forall|y: T| #[trigger] t.contains(y) <==> s.contains(y) || y == x by {
        if t.contains(y) {
            let i = choose|i: int| 0 <= i < t.len() && t[i] == y;
            if i < p {
                assert(s[i] == y);
            } else if i > p {
                assert(s[i - 1] == y);
            }
        }
        if s.contains(y) {
            let i = choose|i: int| 0 <= i < s.len() && s[i] == y;
            if i < p {
                assert(t[i] == y);
            } else {
                assert(t[i + 1] == y);
            }
        }
        if y == x {
            assert(t[p] == y);
        }
    }
}

/// What a removal does to membership, where no element occurs twice.
pub proof fn lemma_remove_contains<T>(s: Seq<T>, lt: spec_fn(T, T) -> bool, p: int)
    requires
        ascending(s, lt),
        forall|a: T| !#[trigger] lt(a, a),
        0 <= p < s.len(),
    ensures
        forall|y: T| #[trigger] s.remove(p).contains(y) <==> s.contains(y) && y != s[p],
{
    let t = s.remove(p);
    assert forall|y: T| #[trigger] t.contains(y) <==> s.contains(y) && y != s[p] by {
        if t.contains(y) {
            let i = choose|i: int| 0 <= i < t.len() && t[i] == y;
            if i < p {
                assert(s[i] == y);
                assert(lt(s[i], s[p]));
            } else {
                assert(s[i + 1] == y);
                assert(lt(s[p], s[i + 1]));
            }
        }
        if s.contains(y) && y != s[p] {
            let i = choose|i: int| 0 <= i < s.len() && s[i] == y;
            if i < p {
                assert(t[i] == y);
            } else {
                assert(t[i - 1] == y);
            }
        }
    }
}

/// A filter that every element passes changes nothing.
pub proof fn lemma_filter_all<T>(s: Seq<T>, pred: spec_fn(T) -> bool)
    requires
        forall|i: int| 0 <= i < s.len() ==> pred(#[trigger] s[i]),
    ensures
        s.filter(pred) == s,
    decreases s.len(),
{
    reveal(Seq::filter);
    if s.len() > 0 {
        lemma_filter_all(s.drop_last(), pred);
        assert(s.drop_last().push(s.last()) =~= s);
    }
}

/// A filter that no element passes leaves nothing.
pub proof fn lemma_filter_none<T>(s: Seq<T>, pred: spec_fn(T) -> bool)
    requires
        forall|i: int| 0 <= i < s.len() ==> !pred(#[trigger] s[i]),
    ensures
        s.filter(pred) == Seq::<T>::empty(),
    decreases s.len(),
{
    reveal(Seq::filter);
    if s.len() > 0 {
        lemma_filter_none(s.drop_last(), pred);
    }
}

/// Where exactly the first `p` elements pass, the filter keeps those.
pub proof fn lemma_filter_head<T>(s: Seq<T>, pred: spec_fn(T) -> bool, p: int)
    requires
        0 <= p <= s.len(),
        forall|i: int| 0 <= i < p ==> pred(#[trigger] s[i]),
        forall|i: int| p <= i < s.len() ==> !pred(#[trigger] s[i]),
    ensures
        s.filter(pred) == s.take(p),
{
    lemma_filter_all(s.take(p), pred);
    lemma_filter_none(s.skip(p), pred);
    assert(s =~= s.take(p) + s.skip(p));
    Seq::filter_distributes_over_add(s.take(p), s.skip(p), pred);
}

/// Where exactly the elements from `p` on pass, the filter keeps those.
pub proof fn lemma_filter_tail<T>(s: Seq<T>, pred: spec_fn(T) -> bool, p: int)
    requires
        0 <= p <= s.len(),
        forall|i: int| 0 <= i < p ==> !pred(#[trigger] s[i]),
        forall|i: int| p <= i < s.len() ==> pred(#[trigger] s[i]),
    ensures
        s.filter(pred) == s.skip(p),
{
    lemma_filter_none(s.take(p), pred);
    lemma_filter_all(s.skip(p), pred);
    assert(s =~= s.take(p) + s.skip(p));
    Seq::filter_distributes_over_add(s.take(p), s.skip(p), pred);
}

/// The first element that passes is the first that the filter keeps.
pub proof fn lemma_filter_first<T>(s: Seq<T>, pred: spec_fn(T) -> bool, p: int)
    requires
        0 <= p < s.len(),
        forall|i: int| 0 <= i < p ==> !pred(#[trigger] s[i]),
        pred(s[p]),
    ensures
        s.filter(pred).len() > 0,
        s.filter(pred)[0] == s[p],
{
    let head = s.take(p);
    let one = seq![s[p]];
    let rest = s.skip(p + 1);
    lemma_filter_none(head, pred);
    lemma_filter_all(one, pred);
    assert(s =~= (head + one) + rest);
    Seq::filter_distributes_over_add(head + one, rest, pred);
    Seq::filter_distributes_over_add(head, one, pred);
}

/// What is left of an ascending sequence after a filter is ascending.
pub proof fn lemma_filter_ascending<T>(
    s: Seq<T>,
    lt: spec_fn(T, T) -> bool,
    pred: spec_fn(T) -> bool,
)
    requires
        ascending(s, lt),
    ensures
        ascending(s.filter(pred), lt),
    decreases s.len(),
{
    reveal(Seq::filter);
    if s.len() > 0 {
        let head = s.drop_last();
        let kept = head.filter(pred);
        assert(ascending(head, lt)) by {
            assert forall|i: int, j: int| 0 <= i < j < head.len() implies #[trigger] lt(
                head[i],
                head[j],
            ) by {
                assert(lt(s[i], s[j]));
            }
        }
        lemma_filter_ascending(head, lt, pred);
        if pred(s.last()) {
            let out = kept.push(s.last());
            assert forall|i: int, j: int| 0 <= i < j < out.len() implies #[trigger] lt(
                out[i],
                out[j],
            ) by {
                if j < kept.len() {
                    assert(lt(kept[i], kept[j]));
                } else {
                    assert(kept.contains(kept[i]));
                    head.lemma_filter_contains_rev(pred, kept[i]);
                    let k = choose|k: int| 0 <= k < head.len() && head[k] == kept[i];
                    assert(lt(s[k], s[s.len() - 1]));
                }
            }
        }
    }
}

/// Two ascending sequences that hold the same elements are equal.
pub proof fn lemma_ascending_unique<T>(x: Seq<T>, y: Seq<T>, lt: spec_fn(T, T) -> bool)
    requires
        strict_total(lt),
        ascending(x, lt),
        ascending(y, lt),
        forall|e: T| x.contains(e) <==> y.contains(e),
    ensures
        x == y,
    decreases x.len(),
{
    if x.len() == 0 {
        if y.len() > 0 {
            assert(y.contains(y[0]));
            assert(x.contains(y[0]));
        }
        assert(x =~= y);
    } else if y.len() == 0 {
        assert(x.contains(x[0]));
        assert(y.contains(x[0]));
    } else {
        assert(x.contains(x[0]));
        assert(y.contains(y[0]));
        let i = choose|i: int| 0 <= i < y.len() && y[i] == x[0];
        let j = choose|j: int| 0 <= j < x.len() && x[j] == y[0];
        if i > 0 {
            assert(lt(y[0], y[i]));
        }
        if j > 0 {
            assert(lt(x[0], x[j]));
        }
        assert(x[0] == y[0]);
        let xs = x.drop_first();
        let ys = y.drop_first();
        assert forall|a: int, b: int| 0 <= a < b < xs.len() implies #[trigger] lt(xs[a], xs[b]) by {
            assert(lt(x[a + 1], x[b + 1]));
        }
        assert forall|a: int, b: int| 0 <= a < b < ys.len() implies #[trigger] lt(ys[a], ys[b]) by {
            assert(lt(y[a + 1], y[b + 1]));
        }
        assert forall|e: T| xs.contains(e) <==> ys.contains(e) by {
            if xs.contains(e) {
                let k = choose|k: int| 0 <= k < xs.len() && xs[k] == e;
                assert(x[k + 1] == e);
                assert(lt(x[0], x[k + 1]));
                assert(x.contains(e));
                let m = choose|m: int| 0 <= m < y.len() && y[m] == e;
                assert(m > 0);
                assert(ys[m - 1] == e);
            }
            if ys.contains(e) {
                let k = choose|k: int| 0 <= k < ys.len() && ys[k] == e;
                assert(y[k + 1] == e);
                assert(lt(y[0], y[k + 1]));
                assert(y.contains(e));
                let m = choose|m: int| 0 <= m < x.len() && x[m] == e;
                assert(m > 0);
                assert(xs[m - 1] == e);
            }
        }
        lemma_ascending_unique(xs, ys, lt);
        assert(x =~= seq![x[0]] + xs);
        assert(y =~= seq![y[0]] + ys);
    }
}

} // verus!

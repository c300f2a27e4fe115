//! The order in which keys are kept: text by its UTF-8 bytes, tuples of text
//! component by component.

use vstd::prelude::*;
use vstd::utf8::encode_utf8;
use vstd::utf8::encode_utf8_decode_utf8;
use crate::sorted::strict_total;

verus! {

/// `a` comes before `b` when compared byte by byte from position `i` on; a
/// proper prefix comes before what it is a prefix of.
pub open spec fn bytes_lt_from(a: Seq<u8>, b: Seq<u8>, i: nat) -> bool
    decreases a.len() - i,
{
    if i >= b.len() {
        false
    } else if i >= a.len() {
        true
    } else if a[i as int] != b[i as int] {
        a[i as int] < b[i as int]
    } else {
        bytes_lt_from(a, b, i + 1)
    }
}

/// Text `a` sorts strictly before text `b`: the order of `str` itself.
pub open spec fn text_lt(a: Seq<char>, b: Seq<char>) -> bool {
    bytes_lt_from(encode_utf8(a), encode_utf8(b), 0)
}

/// The model of a primary key: buyer, collection, asset id.
pub type KeyView = (Seq<char>, Seq<char>, Seq<char>);

/// Key `a` sorts strictly before key `b`: by the first component, then the
/// second, then the third, each compared as text. This is the order of a
/// tuple of three `String`s. It is not the order of keys that are written
/// out with a length before each component, where a shorter buyer or
/// collection would come first: here "ab" comes before "b".
pub open spec fn key_lt(a: KeyView, b: KeyView) -> bool {
    ||| text_lt(a.0, b.0)
    ||| a.0 == b.0 && text_lt(a.1, b.1)
    ||| a.0 == b.0 && a.1 == b.1 && text_lt(a.2, b.2)
}

proof fn lemma_bytes_irreflexive(a: Seq<u8>, i: nat)
    ensures
        !bytes_lt_from(a, a, i),
    decreases a.len() - i,
{
    if i < a.len() {
        lemma_bytes_irreflexive(a, i + 1);
    }
}

proof fn lemma_bytes_transitive(a: Seq<u8>, b: Seq<u8>, c: Seq<u8>, i: nat)
    requires
        bytes_lt_from(a, b, i),
        bytes_lt_from(b, c, i),
    ensures
        bytes_lt_from(a, c, i),
    decreases a.len() - i,
{
    if i < a.len() && i < b.len() && i < c.len() && a[i as int] == b[i as int] && b[i as int]
        == c[i as int] {
        lemma_bytes_transitive(a, b, c, i + 1);
    }
}

proof fn lemma_bytes_total(a: Seq<u8>, b: Seq<u8>, i: nat)
    requires
        !bytes_lt_from(a, b, i),
        !bytes_lt_from(b, a, i),
        i <= a.len(),
        i <= b.len(),
    ensures
        a.len() == b.len(),
        forall|j: int| i <= j < a.len() ==> a[j] == b[j],
    decreases a.len() - i,
{
    if i < a.len() && i < b.len() {
        lemma_bytes_total(a, b, i + 1);
    }
}

/// No text sorts before itself.
pub proof fn lemma_text_irreflexive(a: Seq<char>)
    ensures
        !text_lt(a, a),
{
    lemma_bytes_irreflexive(encode_utf8(a), 0);
}

/// Before-ness of texts carries over a middle text.
pub proof fn lemma_text_transitive(a: Seq<char>, b: Seq<char>, c: Seq<char>)
    requires
        text_lt(a, b),
        text_lt(b, c),
    ensures
        text_lt(a, c),
{
    lemma_bytes_transitive(encode_utf8(a), encode_utf8(b), encode_utf8(c), 0);
}

/// Of two different texts one sorts before the other.
pub proof fn lemma_text_total(a: Seq<char>, b: Seq<char>)
    ensures
        text_lt(a, b) || a == b || text_lt(b, a),
{
    if !text_lt(a, b) && !text_lt(b, a) {
        lemma_bytes_total(encode_utf8(a), encode_utf8(b), 0);
        assert(encode_utf8(a) =~= encode_utf8(b));
        encode_utf8_decode_utf8(a);
        encode_utf8_decode_utf8(b);
    }
}

/// Two texts never sort before each other.
pub proof fn lemma_text_asymmetric(a: Seq<char>, b: Seq<char>)
    requires
        text_lt(a, b),
    ensures
        !text_lt(b, a),
        a != b,
{
    lemma_text_irreflexive(a);
    if text_lt(b, a) {
        lemma_text_transitive(a, b, a);
    }
}

/// No key sorts before itself.
pub proof fn lemma_key_irreflexive(a: KeyView)
    ensures
        !key_lt(a, a),
{
    lemma_text_irreflexive(a.0);
    lemma_text_irreflexive(a.1);
    lemma_text_irreflexive(a.2);
}

/// Before-ness of keys carries over a middle key.
pub proof fn lemma_key_transitive(a: KeyView, b: KeyView, c: KeyView)
    requires
        key_lt(a, b),
        key_lt(b, c),
    ensures
        key_lt(a, c),
{
    if text_lt(a.0, b.0) && text_lt(b.0, c.0) {
        lemma_text_transitive(a.0, b.0, c.0);
    }
    if text_lt(a.1, b.1) && text_lt(b.1, c.1) {
        lemma_text_transitive(a.1, b.1, c.1);
    }
    if text_lt(a.2, b.2) && text_lt(b.2, c.2) {
        lemma_text_transitive(a.2, b.2, c.2);
    }
}

/// Of two different keys one sorts before the other.
pub proof fn lemma_key_total(a: KeyView, b: KeyView)
    ensures
        key_lt(a, b) || a == b || key_lt(b, a),
{
    lemma_text_total(a.0, b.0);
    lemma_text_total(a.1, b.1);
    lemma_text_total(a.2, b.2);
}

/// Two keys never sort before each other.
pub proof fn lemma_key_asymmetric(a: KeyView, b: KeyView)
    requires
        key_lt(a, b),
    ensures
        !key_lt(b, a),
        a != b,
{
    lemma_key_irreflexive(a);
    if key_lt(b, a) {
        lemma_key_transitive(a, b, a);
    }
}

/// [`key_lt`] as a relation that can be handed to lemmas on sequences.
pub open spec fn key_order() -> spec_fn(KeyView, KeyView) -> bool {
    |a: KeyView, b: KeyView| key_lt(a, b)
}

/// The key order is a strict total order.
pub proof fn lemma_key_order_strict_total()
    ensures
        strict_total(key_order()),
{
    let lt = key_order();
    assert forall|a: KeyView| !#[trigger] lt(a, a) by {
        lemma_key_irreflexive(a);
    }
    assert forall|a: KeyView, b: KeyView, c: KeyView| #[trigger] lt(a, b) && #[trigger] lt(
        b,
        c,
    ) implies lt(a, c) by {
        lemma_key_transitive(a, b, c);
    }
    assert forall|a: KeyView, b: KeyView| #[trigger] lt(a, b) || a == b || lt(b, a) by {
        lemma_key_total(a, b);
    }
}

/// The empty text sorts before every other and after none.
pub proof fn lemma_empty_text_least(a: Seq<char>)
    ensures
        !text_lt(a, Seq::<char>::empty()),
{
    assert(encode_utf8(Seq::<char>::empty()).len() == 0);
}

/// Whether `a` sorts strictly before `b`.
pub fn text_before(a: &str, b: &str) -> (before: bool)
    ensures
        before == text_lt(a@, b@),
{
    let x = a.as_bytes();
    let y = b.as_bytes();
    let mut i: usize = 0;
    while i < x.len() && i < y.len()
        invariant
            x@ == encode_utf8(a@),
            y@ == encode_utf8(b@),
            i <= x.len(),
            i <= y.len(),
            text_lt(a@, b@) == bytes_lt_from(x@, y@, i as nat),
        decreases x.len() - i,
    {
        if x[i] != y[i] {
            return x[i] < y[i];
        }
        i += 1;
    }
    i < y.len()
}

/// Whether the key `(a0, a1, a2)` sorts strictly before `(b0, b1, b2)`.
pub fn key_before(a0: &str, a1: &str, a2: &str, b0: &str, b1: &str, b2: &str) -> (before: bool)
    ensures
        before == key_lt((a0@, a1@, a2@), (b0@, b1@, b2@)),
{
    proof {
        lemma_text_irreflexive(a0@);
        lemma_text_irreflexive(a1@);
    }
    if !text_eq(a0, b0) {
        text_before(a0, b0)
    } else if !text_eq(a1, b1) {
        text_before(a1, b1)
    } else {
        text_before(a2, b2)
    }
}

/// Whether two texts hold the same characters.
pub fn text_eq(a: &str, b: &str) -> (same: bool)
    ensures
        same == (a@ == b@),
{
    let x = a.as_bytes();
    let y = b.as_bytes();
    if x.len() != y.len() {
        return false;
    }
    let mut i: usize = 0;
    while i < x.len()
        invariant
            x@ == encode_utf8(a@),
            y@ == encode_utf8(b@),
            x.len() == y.len(),
            i <= x.len(),
            forall|j: int| 0 <= j < i ==> x@[j] == y@[j],
        decreases x.len() - i,
    {
        if x[i] != y[i] {
            return false;
        }
        i += 1;
    }
    proof {
        assert(x@ =~= y@);
        encode_utf8_decode_utf8(a@);
        encode_utf8_decode_utf8(b@);
    }
    true
}

} // verus!

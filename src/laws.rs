//! What holds of every filter across sequences of insertions.
use vstd::prelude::*;
use crate::bloom::{fresh_view, is_probe, probes_all_set, with_probes_set, BloomView};
use crate::hashing::probe_of;

verus! {

/// The state after inserting `items` in order into `v`.
pub open spec fn insert_all(v: BloomView, items: Seq<Seq<u8>>) -> BloomView
    decreases items.len(),
{
    if items.len() == 0 {
        v
    } else {
        insert_all(v, items.drop_last()).insert(items.last())
    }
}

/// Inserting keeps the sizing and the well-formedness of a filter, and
/// changes only its bits.
pub proof fn lemma_insert_all_keeps_sizing(v: BloomView, items: Seq<Seq<u8>>)
    requires
        v.wf(),
    ensures
        insert_all(v, items).wf(),
        insert_all(v, items) == (BloomView { bits: insert_all(v, items).bits, ..v }),
    decreases items.len(),
{
    if items.len() > 0 {
        lemma_insert_all_keeps_sizing(v, items.drop_last());
    }
}

/// One insertion never clears a bit.
pub proof fn lemma_insert_never_clears(v: BloomView, item: Seq<u8>)
    requires
        v.wf(),
    ensures
        v.insert(item).bits.len() == v.bits.len(),
        forall|j: int| 0 <= j < v.bits.len() && v.bits[j] ==> #[trigger] v.insert(item).bits[j],
{
}

/// Any sequence of insertions never clears a bit: the set bits only grow.
pub proof fn lemma_bits_only_grow(v: BloomView, items: Seq<Seq<u8>>)
    requires
        v.wf(),
    ensures
        insert_all(v, items).bits.len() == v.bits.len(),
        forall|j: int|
            0 <= j < v.bits.len() && v.bits[j] ==> #[trigger] insert_all(v, items).bits[j],
    decreases items.len(),
{
    if items.len() > 0 {
        let rest = items.drop_last();
        lemma_bits_only_grow(v, rest);
        lemma_insert_all_keeps_sizing(v, rest);
        lemma_insert_never_clears(insert_all(v, rest), items.last());
    }
}

/// Right after an insertion of `item`, a query for `item` answers "maybe
/// present".
pub proof fn lemma_inserted_item_is_found(v: BloomView, item: Seq<u8>)
    requires
        v.wf(),
    ensures
        v.insert(item).contains(item),
{
    let w = v.insert(item);
    assert forall|i: nat| i < w.hash_count implies w.bits[#[trigger] probe_of(
        item,
        i,
        w.bits.len(),
    ) as int] by {
        assert(is_probe(item, probe_of(item, i, v.bits.len()) as int, v.hash_count, v.bits.len()));
    }
}

/// No false negatives: an item inserted at any point of a sequence of
/// insertions is found afterwards, whatever was inserted before or after it.
pub proof fn lemma_no_false_negatives(v: BloomView, items: Seq<Seq<u8>>, at: int)
    requires
        v.wf(),
        0 <= at < items.len(),
    ensures
        insert_all(v, items).contains(items[at]),
    decreases items.len(),
{
    let rest = items.drop_last();
    lemma_insert_all_keeps_sizing(v, rest);
    let before = insert_all(v, rest);
    if at == items.len() - 1 {
        lemma_inserted_item_is_found(before, items[at]);
    } else {
        lemma_no_false_negatives(v, rest, at);
        assert(rest[at] == items[at]);
        lemma_insert_never_clears(before, items.last());
        let after = insert_all(v, items);
        assert forall|i: nat| i < after.hash_count implies after.bits[#[trigger] probe_of(
            items[at],
            i,
            after.bits.len(),
        ) as int] by {
            assert(before.bits[probe_of(items[at], i, before.bits.len()) as int]);
        }
    }
}

/// Inserting the same item twice leaves the same bitmap as inserting it once.
pub proof fn lemma_insert_idempotent(v: BloomView, item: Seq<u8>)
    requires
        v.wf(),
    ensures
        v.insert(item).insert(item) == v.insert(item),
{
    let once = v.insert(item);
    assert(once.insert(item).bits =~= once.bits);
}

/// A filter that was just built answers "not present" for every item.
pub proof fn lemma_fresh_filter_finds_nothing(
    expected: int,
    rate_bits: u64,
    bit_count: nat,
    item: Seq<u8>,
)
    requires
        expected >= 1,
        bit_count >= 1,
    ensures
        !fresh_view(expected, rate_bits, bit_count).contains(item),
{
    let v = fresh_view(expected, rate_bits, bit_count);
    assert(v.hash_count >= 1);
    assert(v.bits.len() == bit_count);
    let j = probe_of(item, 0, v.bits.len());
    assert(j < bit_count);
    assert(!v.bits[j as int]);
}

/// Determinism: two filters with the same sizing and the same bits, given the
/// same insertions, end with the same bits and answer every query alike.
pub proof fn lemma_same_insertions_same_state(
    v1: BloomView,
    v2: BloomView,
    items: Seq<Seq<u8>>,
    query: Seq<u8>,
)
    requires
        v1.wf(),
        v2.wf(),
        v1.bit_count == v2.bit_count,
        v1.hash_count == v2.hash_count,
        v1.bits == v2.bits,
    ensures
        insert_all(v1, items).bits == insert_all(v2, items).bits,
        insert_all(v1, items).contains(query) == insert_all(v2, items).contains(query),
    decreases items.len(),
{
    lemma_insert_all_keeps_sizing(v1, items);
    lemma_insert_all_keeps_sizing(v2, items);
    if items.len() > 0 {
        lemma_same_insertions_same_state(v1, v2, items.drop_last(), query);
    }
}

} // verus!

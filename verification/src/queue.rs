//! The ready queue: a bounded max-heap of `(priority, identity)` entries.
//!
//! The heap itself is `heapless::binary_heap::BinaryHeap`. Verus does not look
//! inside it: what it holds is named by [`heap_entries`], and every operation
//! the controller performs on it goes through one of the functions below,
//! whose contracts are taken on trust from the heap's documentation.

use heapless::binary_heap::{BinaryHeap, Max};
use vstd::multiset::Multiset;
use vstd::prelude::*;

verus! {

/// Number of entries the ready queue has room for. A controller cannot serve
/// more sources than this.
pub const QUEUE_CAPACITY: usize = 256;

/// `heapless::binary_heap::BinaryHeap`, carried through verified code as an opaque value.
#[verifier::external_type_specification]
#[verifier::external_body]
#[verifier::reject_recursive_types(T)]
#[verifier::reject_recursive_types(K)]
pub struct ExBinaryHeap<T, K, const N: usize>(BinaryHeap<T, K, N>);

/// `heapless::binary_heap::Max`, the marker that makes the heap a max-heap.
#[verifier::external_type_specification]
#[verifier::external_body]
pub struct ExMax(Max);

/// The entries a heap holds, each as often as it was pushed and not yet popped.
pub uninterp spec fn heap_entries(heap: BinaryHeap<(u8, u16), Max, QUEUE_CAPACITY>) -> Multiset<(u8, u16)>;

/// The order of queue entries: by priority first, by identity among equal priorities.
pub open spec fn entry_le(a: (u8, u16), b: (u8, u16)) -> bool {
    a.0 < b.0 || (a.0 == b.0 && a.1 <= b.1)
}

/// `e` occurs in `entries` and no entry of `entries` is greater.
pub open spec fn is_top(entries: Multiset<(u8, u16)>, e: (u8, u16)) -> bool {
    &&& entries.count(e) > 0
    &&& forall|x: (u8, u16)| #[trigger] entries.count(x) > 0 ==> entry_le(x, e)
}

/// A multiset of entries has at most one greatest entry.
pub proof fn lemma_top_unique(entries: Multiset<(u8, u16)>, a: (u8, u16), b: (u8, u16))
    requires
        is_top(entries, a),
        is_top(entries, b),
    ensures
        a == b,
{
    assert(entry_le(a, b));
    assert(entry_le(b, a));
}

/// `BinaryHeap::new`: the heap starts out empty.
#[verifier::external_body]
pub(crate) fn heap_new() -> (heap: BinaryHeap<(u8, u16), Max, QUEUE_CAPACITY>)
    ensures
        heap_entries(heap) == Multiset::<(u8, u16)>::empty(),
{
    BinaryHeap::new()
}

/// `BinaryHeap::len`: the number of entries held.
#[verifier::external_body]
pub(crate) fn heap_len(heap: &BinaryHeap<(u8, u16), Max, QUEUE_CAPACITY>) -> (len: usize)
    ensures
        len == heap_entries(*heap).len(),
{
    heap.len()
}

/// `BinaryHeap::peek`: nothing for an empty heap, else the greatest entry by
/// the order of tuples, which compares the priority first and then the identity.
#[verifier::external_body]
pub(crate) fn heap_peek(heap: &BinaryHeap<(u8, u16), Max, QUEUE_CAPACITY>) -> (top: Option<(u8, u16)>)
    ensures
        heap_entries(*heap).len() == 0 ==> top is None,
        heap_entries(*heap).len() > 0 ==> top is Some && is_top(heap_entries(*heap), top->0),
{
    heap.peek().copied()
}

/// `BinaryHeap::push`: a heap that already holds `QUEUE_CAPACITY` entries
/// hands the entry back and stays as it was; any other heap takes it in.
#[verifier::external_body]
pub(crate) fn heap_push(heap: &mut BinaryHeap<(u8, u16), Max, QUEUE_CAPACITY>, entry: (u8, u16)) -> (pushed:
    Result<(), (u8, u16)>)
    ensures
        heap_entries(*old(heap)).len() < QUEUE_CAPACITY ==> pushed is Ok && heap_entries(*final(heap))
            == heap_entries(*old(heap)).insert(entry),
        heap_entries(*old(heap)).len() == QUEUE_CAPACITY ==> pushed is Err && pushed->Err_0 == entry
            && heap_entries(*final(heap)) == heap_entries(*old(heap)),
{
    heap.push(entry)
}

/// `BinaryHeap::pop`: nothing for an empty heap, which stays empty; else the
/// greatest entry, of which one occurrence leaves the heap.
#[verifier::external_body]
pub(crate) fn heap_pop(heap: &mut BinaryHeap<(u8, u16), Max, QUEUE_CAPACITY>) -> (top: Option<(u8, u16)>)
    ensures
        heap_entries(*old(heap)).len() == 0 ==> top is None && heap_entries(*final(heap)) == heap_entries(
            *old(heap),
        ),
        heap_entries(*old(heap)).len() > 0 ==> top is Some && is_top(heap_entries(*old(heap)), top->0)
            && heap_entries(*final(heap)) == heap_entries(*old(heap)).remove(top->0),
{
    heap.pop()
}

} // verus!

//! A bounded min-heap of due times, backed by `heapless::BinaryHeap`.
//!
//! The heap itself is an outside fixed-capacity collection; Verus sees it only
//! through the contracts below, which speak of the multiset of values it
//! holds. (Declaring the collection's type to Verus directly is not possible:
//! its underlying struct `BinaryHeapInner` carries a sealed storage-trait
//! bound that cannot be restated here.)

use vstd::multiset::Multiset;
use vstd::prelude::*;

verus! {

/// Capacity of the due-time heap: at most this many distinct due times can be
/// pending at once.
pub const DUE_HEAP_CAP: usize = 8;

/// A fixed-capacity min-heap of raw due times (64-bit time values).
///
/// Holds a `heapless::binary_heap::BinaryHeap<u64, Min, 8>`; the wrappers
/// below are the only operations the crate performs on it.
#[verifier::external_body]
pub struct DueHeap {
    heap: heapless::binary_heap::BinaryHeap<u64, heapless::binary_heap::Min, 8>,
}

/// The multiset of due times the heap currently holds.
pub uninterp spec fn heap_contents(h: DueHeap) -> Multiset<u64>;

impl DueHeap {
    /// Relies on `heapless::BinaryHeap::new`: creates an empty heap.
    #[verifier::external_body]
    pub fn new() -> (h: DueHeap)
        ensures
            heap_contents(h) == Multiset::<u64>::empty(),
    {
        DueHeap { heap: heapless::binary_heap::BinaryHeap::new() }
    }

    /// Relies on `heapless::BinaryHeap::len`: the number of items held.
    #[verifier::external_body]
    pub fn len(&self) -> (n: usize)
        ensures
            n == heap_contents(*self).len(),
    {
        self.heap.len()
    }

    /// Relies on `heapless::BinaryHeap::push`: adds the item unless the heap
    /// is at capacity, in which case the item comes back in the error.
    #[verifier::external_body]
    pub fn push(&mut self, v: u64) -> (r: Result<(), u64>)
        ensures
            r is Ok <==> heap_contents(*old(self)).len() < DUE_HEAP_CAP,
            r is Ok ==> heap_contents(*final(self)) == heap_contents(*old(self)).insert(v),
            r matches Err(e) ==> *final(self) == *old(self) && e == v,
    {
        self.heap.push(v)
    }

    /// Relies on `heapless::BinaryHeap::pop` on a min-heap: removes and
    /// returns the smallest item, or `None` if the heap is empty.
    #[verifier::external_body]
    pub fn pop(&mut self) -> (r: Option<u64>)
        ensures
            heap_contents(*old(self)).len() == 0 ==> r is None,
            r is None ==> *final(self) == *old(self) && heap_contents(*old(self)).len() == 0,
            r matches Some(m) ==> heap_contents(*old(self)).count(m) > 0 && (forall|x: u64| heap_contents(*old(self)).count(x) > 0 ==> m <= x) && heap_contents(*final(self)) == heap_contents(*old(self)).remove(m),
    {
        self.heap.pop()
    }

    /// Relies on `heapless::BinaryHeap::peek` on a min-heap: returns the
    /// smallest item without removing it, or `None` if the heap is empty.
    #[verifier::external_body]
    pub fn peek(&self) -> (r: Option<u64>)
        ensures
            r is None ==> heap_contents(*self).len() == 0,
            r matches Some(m) ==> heap_contents(*self).count(m) > 0 && (forall|x: u64| heap_contents(*self).count(x) > 0 ==> m <= x),
    {
        self.heap.peek().copied()
    }
}

} // verus!

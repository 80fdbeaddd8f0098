//! The timer service: a bounded wait-queue of timeouts multiplexing one
//! hardware comparator, together with the monotonic clock it is driven by.
//!
//! All mutation happens through the event methods below; the surrounding
//! runtime calls them from its interrupt handlers (with the relevant
//! interrupt masked in task context) and applies the returned comparator
//! action to the hardware.

use vstd::multiset::Multiset;
use vstd::prelude::*;
use vstd::seq_lib::group_to_multiset_ensures;

use crate::heap::{heap_contents, DueHeap};
use crate::time::{overflows_of, ticks_of, Time, EPOCH_TICKS};

verus! {

broadcast use group_to_multiset_ensures;

/// Maximum number of distinct due times that can be pending at once.
pub const QUEUE_CAP: usize = 8;

/// Maximum number of wakers that can share one timeout entry.
pub const MAX_WAKERS: usize = 3;

/// Why a wait could not be scheduled.
#[derive(Debug, Copy, Clone, PartialEq, Eq, Structural)]
pub enum TimerError {
    /// The queue already holds `QUEUE_CAP` distinct due times.
    QueueFull,
    /// The entry for this due time already holds `MAX_WAKERS` wakers.
    WakerSlotsFull,
}

/// A pending timeout: a due time and the wakers to resume when it passes.
///
/// Two waits with the same due time share one entry (their wakers coalesce);
/// ordering among entries is by due time alone.
pub struct Timeout {
    due: Time,
    wakers: Vec<u64>,
}

impl Timeout {
    /// The raw 64-bit due time.
    pub closed spec fn spec_due(self) -> u64 {
        self.due.spec_bits()
    }

    /// The waker handles registered for this due time, oldest first.
    pub closed spec fn spec_wakers(self) -> Seq<u64> {
        self.wakers@
    }

    pub fn due(&self) -> (d: Time)
        ensures
            d.spec_bits() == self.spec_due(),
    {
        self.due
    }

    pub fn wakers(&self) -> (w: &Vec<u64>)
        ensures
            w@ == self.spec_wakers(),
    {
        &self.wakers
    }
}

/// The timer service: the current time and the queue of pending timeouts.
pub struct Timer {
    current_time: Time,
    heap: DueHeap,
    entries: Vec<Timeout>,
}

impl View for Timer {
    type V = Seq<Timeout>;

    /// The pending timeouts, in insertion order of their due times.
    closed spec fn view(&self) -> Seq<Timeout> {
        self.entries@
    }
}

/// What a successful `add_waker` call does to the queue: either the waker
/// joins the existing entry with the same due time, or a new entry with just
/// this waker is appended.
pub open spec fn schedule_ok(pre: Timer, post: Timer, d: u64, w: u64) -> bool {
    if pre.has_due(d) {
        &&& post@.len() == pre@.len()
        &&& (exists|i: int|
            0 <= i < pre@.len() && (#[trigger] pre@[i]).spec_due() == d && post@[i].spec_due()
                == d && post@[i].spec_wakers() == pre@[i].spec_wakers().push(w) && (forall|j: int|
                0 <= j < pre@.len() && j != i ==> post@[j] == pre@[j]))
    } else {
        &&& post@.len() == pre@.len() + 1
        &&& (forall|j: int| 0 <= j < pre@.len() ==> post@[j] == pre@[j])
        &&& post@[pre@.len() as int].spec_due() == d
        &&& post@[pre@.len() as int].spec_wakers() == seq![w]
    }
}

impl Timer {
    /// The current time, as the service last learned it from the hardware.
    pub closed spec fn spec_now(self) -> Time {
        self.current_time
    }

    /// The due times of the pending timeouts, in entry order.
    pub open spec fn dues(self) -> Seq<u64> {
        self@.map_values(|t: Timeout| t.spec_due())
    }

    /// Whether some entry is pending for the given due time.
    pub open spec fn has_due(self, d: u64) -> bool {
        exists|i: int| 0 <= i < self@.len() && (#[trigger] self@[i]).spec_due() == d
    }

    /// The entry index for a pending due time.
    pub open spec fn due_index(self, d: u64) -> int {
        choose|i: int| 0 <= i < self@.len() && (#[trigger] self@[i]).spec_due() == d
    }

    /// The wakers pending for a due time.
    pub open spec fn wakers_of(self, d: u64) -> Seq<u64> {
        self@[self.due_index(d)].spec_wakers()
    }

    /// Well-formedness: the queue is within capacity, due times are distinct
    /// (coalescing holds), every entry has one to `MAX_WAKERS` wakers, and
    /// the heap mirrors the entries' due times exactly.
    pub closed spec fn wf(self) -> bool {
        &&& self@.len() <= QUEUE_CAP
        &&& self.dues().no_duplicates()
        &&& (forall|i: int|
            0 <= i < self@.len() ==> 1 <= (#[trigger] self@[i]).spec_wakers().len() <= MAX_WAKERS)
        &&& heap_contents(self.heap) == self.dues().to_multiset()
    }

    /// A well-formed queue has distinct due times and bounded entries.
    pub proof fn lemma_wf_facts(self)
        requires
            self.wf(),
        ensures
            self@.len() <= QUEUE_CAP,
            forall|i: int, j: int|
                0 <= i < j < self@.len() ==> (#[trigger] self@[i]).spec_due() != (
                #[trigger] self@[j]).spec_due(),
            forall|i: int|
                0 <= i < self@.len() ==> 1 <= (#[trigger] self@[i]).spec_wakers().len()
                    <= MAX_WAKERS,
    {
        assert forall|i: int, j: int| 0 <= i < j < self@.len() implies (
        #[trigger] self@[i]).spec_due() != (#[trigger] self@[j]).spec_due() by {
            assert(self.dues()[i] == self@[i].spec_due());
            assert(self.dues()[j] == self@[j].spec_due());
        }
    }

    /// A fresh timer: time zero, no pending timeouts.
    pub fn new() -> (t: Timer)
        ensures
            t.wf(),
            t@.len() == 0,
            t.spec_now().spec_bits() == 0,
    {
        let t = Timer { current_time: Time::from_bits(0), heap: DueHeap::new(), entries: Vec::new() };
        proof {
            broadcast use group_to_multiset_ensures;

            assert(t.dues() =~= Seq::<u64>::empty());
            assert(t.dues().to_multiset() =~= Multiset::<u64>::empty());
        }
        t
    }

    /// The current time as last sampled.
    pub fn now(&self) -> (t: Time)
        ensures
            t == self.spec_now(),
    {
        self.current_time
    }

    /// The number of pending timeout entries (distinct due times).
    pub fn len(&self) -> (n: usize)
        ensures
            n == self@.len(),
    {
        self.entries.len()
    }

    /// The index of the entry with the given due time, if one is pending.
    fn find_due(entries: &Vec<Timeout>, d: u64) -> (r: Option<usize>)
        ensures
            match r {
                Some(i) => 0 <= i < entries@.len() && entries@[i as int].spec_due() == d,
                None => forall|j: int|
                    0 <= j < entries@.len() ==> (#[trigger] entries@[j]).spec_due() != d,
            },
    {
        let mut i: usize = 0;
        while i < entries.len()
            invariant
                0 <= i <= entries@.len(),
                forall|j: int| 0 <= j < i ==> (#[trigger] entries@[j]).spec_due() != d,
            decreases entries@.len() - i,
        {
            if entries[i].due.bits() == d {
                return Some(i);
            }
            i = i + 1;
        }
        None
    }

    /// Register a waker for a due time: coalesce onto the existing entry for
    /// that due time, or open a new entry. Fails — leaving the queue exactly
    /// as it was — when the shared entry's waker slots, or the queue itself,
    /// are full.
    pub fn add_waker(&mut self, due: Time, waker: u64) -> (r: Result<(), TimerError>)
        requires
            old(self).wf(),
        ensures
            final(self).wf(),
            final(self).spec_now() == old(self).spec_now(),
            r is Ok <==> (if old(self).has_due(due.spec_bits()) {
                old(self).wakers_of(due.spec_bits()).len() < MAX_WAKERS
            } else {
                old(self)@.len() < QUEUE_CAP
            }),
            r is Ok ==> schedule_ok(*old(self), *final(self), due.spec_bits(), waker),
            r is Err ==> *final(self) == *old(self),
            r == Result::<(), TimerError>::Err(TimerError::WakerSlotsFull) ==> old(self).has_due(
                due.spec_bits(),
            ),
            r == Result::<(), TimerError>::Err(TimerError::QueueFull) ==> !old(self).has_due(
                due.spec_bits(),
            ),
    {
        let due_bits = due.bits();
        match Self::find_due(&self.entries, due_bits) {
            Some(i) => {
                proof {
                    assert(self.has_due(due_bits));
                    assert(self.due_index(due_bits) == i) by {
                        self.lemma_wf_facts();
                        let k = self.due_index(due_bits);
                        assert(0 <= k < self@.len() && self@[k].spec_due() == due_bits);
                    }
                }
                if self.entries[i].wakers.len() < MAX_WAKERS {
                    let mut t = self.entries.remove(i);
                    t.wakers.push(waker);
                    self.entries.insert(i, t);
                    proof {
                        assert(self@ =~= old(self)@.update(
                            i as int,
                            Timeout {
                                due: old(self)@[i as int].due,
                                wakers: self@[i as int].wakers,
                            },
                        ));
                        assert(self.dues() =~= old(self).dues());
                        assert(schedule_ok(*old(self), *self, due_bits, waker));
                    }
                    Ok(())
                } else {
                    Err(TimerError::WakerSlotsFull)
                }
            },
            None => {
                if self.entries.len() < QUEUE_CAP {
                    proof {
                        assert(heap_contents(self.heap).len() == self.dues().len());
                        assert(self.dues().len() == self@.len());
                    }
                    if self.heap.push(due_bits).is_err() {
                        // cannot happen: the heap's capacity equals the queue's
                        return Err(TimerError::QueueFull);
                    }
                    let mut wakers: Vec<u64> = Vec::new();
                    wakers.push(waker);
                    self.entries.push(Timeout { due, wakers });
                    proof {
                        assert(self.dues() =~= old(self).dues().push(due_bits));
                        assert(heap_contents(self.heap) =~= self.dues().to_multiset());
                        assert(!old(self).has_due(due_bits));
                        assert(self.dues().no_duplicates()) by {
                            assert(forall|j: int|
                                0 <= j < old(self).dues().len() ==> old(self).dues()[j] == (
                                #[trigger] old(self)@[j]).spec_due());
                        }
                        assert(self@[old(self)@.len() as int].spec_wakers() =~= seq![waker]);
                        assert(schedule_ok(*old(self), *self, due_bits, waker));
                    }
                    Ok(())
                } else {
                    Err(TimerError::QueueFull)
                }
            },
        }
    }

    /// Whether `d` is pending and no pending due time is smaller.
    pub open spec fn is_min_due(self, d: u64) -> bool {
        self.has_due(d) && forall|j: int| 0 <= j < self@.len() ==> d <= (#[trigger] self@[j]).spec_due()
    }

    /// Fire every timeout whose due time has passed: repeatedly take the
    /// minimum pending due time while it is at or before the current time,
    /// and hand its entry back for waking. Entries come back in
    /// non-decreasing due order, none of them later than now, and exactly
    /// the entries due later than now stay queued.
    pub fn handle_cc0(&mut self) -> (fired: Vec<Timeout>)
        requires
            old(self).wf(),
        ensures
            final(self).wf(),
            final(self).spec_now() == old(self).spec_now(),
            old(self)@.to_multiset() == final(self)@.to_multiset().add(fired@.to_multiset()),
            forall|k: int|
                0 <= k < fired@.len() ==> (#[trigger] fired@[k]).spec_due() <= old(self).spec_now().spec_bits(),
            forall|k1: int, k2: int|
                0 <= k1 <= k2 < fired@.len() ==> fired@[k1].spec_due() <= fired@[k2].spec_due(),
            forall|j: int|
                0 <= j < final(self)@.len() ==> (#[trigger] final(self)@[j]).spec_due() > old(self).spec_now().spec_bits(),
    {
        let now_bits = self.current_time.bits();
        let mut fired: Vec<Timeout> = Vec::new();
        proof {
            assert(fired@.to_multiset() =~= Multiset::<Timeout>::empty());
            assert(old(self)@.to_multiset() =~= self@.to_multiset().add(fired@.to_multiset()));
        }
        loop
            invariant
                self.wf(),
                self.current_time == old(self).current_time,
                now_bits == old(self).spec_now().spec_bits(),
                old(self)@.to_multiset() == self@.to_multiset().add(fired@.to_multiset()),
                forall|k: int|
                    0 <= k < fired@.len() ==> (#[trigger] fired@[k]).spec_due() <= now_bits,
                forall|k1: int, k2: int|
                    0 <= k1 <= k2 < fired@.len() ==> fired@[k1].spec_due() <= fired@[k2].spec_due(),
                forall|k: int, j: int|
                    0 <= k < fired@.len() && 0 <= j < self@.len() ==> (
                    #[trigger] fired@[k]).spec_due() <= (#[trigger] self@[j]).spec_due(),
            ensures
                forall|j: int| 0 <= j < self@.len() ==> (#[trigger] self@[j]).spec_due() > now_bits,
            decreases self@.len(),
        {
            match self.heap.peek() {
                None => {
                    proof {
                        assert(heap_contents(self.heap).len() == 0);
                        assert(self.dues().to_multiset().len() == 0);
                        assert(self.dues().len() == self.dues().to_multiset().len());
                        assert(self@.len() == 0);
                    }
                    break ;
                },
                Some(m) => {
                    proof {
                        assert forall|j: int| 0 <= j < self@.len() implies m <= (
                        #[trigger] self@[j]).spec_due() by {
                            assert(self.dues()[j] == self@[j].spec_due());
                            assert(self.dues().contains(self@[j].spec_due()));
                            assert(self.dues().to_multiset().count(self@[j].spec_due()) > 0);
                            assert(heap_contents(self.heap).count(self@[j].spec_due()) > 0);
                        }
                    }
                    if m > now_bits {
                        break ;
                    }
                    let ghost prev = *self;
                    let ghost prev_fired = fired@;
                    match Self::find_due(&self.entries, m) {
                        None => {
                            proof {
                                assert(heap_contents(self.heap).count(m) > 0);
                                assert(self.dues().to_multiset().count(m) > 0);
                                assert(self.dues().contains(m));
                                let j = choose|j: int|
                                    0 <= j < self.dues().len() && self.dues()[j] == m;
                                assert(self@[j].spec_due() == m);
                                assert(false);
                            }
                            break ;
                        },
                        Some(idx) => {
                            let popped = self.heap.pop();
                            proof {
                                assert(popped matches Some(p) && p == m) by {
                                    let p = popped->Some_0;
                                    assert(heap_contents(prev.heap).count(p) > 0);
                                    assert(heap_contents(prev.heap).count(m) > 0);
                                }
                            }
                            let t = self.entries.remove(idx);
                            fired.push(t);
                            proof {
                                let d = prev.dues();
                                assert(self@ == prev@.remove(idx as int));
                                prev@.remove_ensures(idx as int);
                                assert(self.dues() =~= d.remove(idx as int)) by {
                                    d.remove_ensures(idx as int);
                                }
                                d.remove_ensures(idx as int);
                                // the heap and the entry list shed the same due
                                assert(heap_contents(self.heap) == self.dues().to_multiset());
                                // due times stay distinct
                                prev.dues().lemma_multiset_has_no_duplicates();
                                assert(forall|x: u64|
                                    self.dues().to_multiset().contains(x)
                                        ==> self.dues().to_multiset().count(x) == 1);
                                self.dues().lemma_multiset_has_no_duplicates_conv();
                                // conservation of entries between queue and fired list
                                assert(fired@ == prev_fired.push(t));
                                assert(self@.to_multiset() == prev@.to_multiset().remove(t));
                                assert(prev@.to_multiset().count(t) > 0) by {
                                    assert(prev@.contains(t));
                                }
                                assert(old(self)@.to_multiset() =~= self@.to_multiset().add(
                                    fired@.to_multiset(),
                                ));
                                // every remaining due is at least the one just fired
                                assert forall|j: int| 0 <= j < self@.len() implies t.spec_due()
                                    <= (#[trigger] self@[j]).spec_due() by {
                                    assert(self.dues()[j] == self@[j].spec_due());
                                    assert(self.dues().contains(self@[j].spec_due()));
                                    assert(heap_contents(self.heap).count(self@[j].spec_due())
                                        > 0);
                                    assert(heap_contents(prev.heap).count(self@[j].spec_due())
                                        > 0);
                                }
                            }
                        },
                    }
                },
            }
        }
        fired
    }

}

/// What to do with the hardware comparator: arm it at a tick value within the
/// current overflow epoch, or disable it until the next overflow.
#[derive(Debug, Copy, Clone, PartialEq, Eq, Structural)]
pub enum CompareAction {
    Arm(u32),
    Disarm,
}

/// The comparator action that fits a queue state: arm at the minimum pending
/// due time's ticks when that due time falls in the current overflow epoch,
/// disarm otherwise (nothing can fire before the next overflow).
pub open spec fn compare_action_ok(q: Timer, r: CompareAction) -> bool {
    match r {
        CompareAction::Arm(t) => exists|d: u64|
            #[trigger] q.is_min_due(d) && overflows_of(d) == overflows_of(q.spec_now().spec_bits())
                && t == ticks_of(d),
        CompareAction::Disarm => forall|d: u64|
            #[trigger] q.is_min_due(d) ==> overflows_of(d) != overflows_of(
                q.spec_now().spec_bits(),
            ),
    }
}

impl Timer {
    /// Decide how the hardware comparator should be set: arm it at the
    /// minimum pending due time if that falls within the current overflow
    /// epoch, else disarm it until the next overflow re-evaluates.
    pub fn compare_plan(&self) -> (r: CompareAction)
        requires
            self.wf(),
        ensures
            compare_action_ok(*self, r),
    {
        match self.heap.peek() {
            None => {
                proof {
                    assert(heap_contents(self.heap).len() == 0);
                    assert(self.dues().to_multiset().len() == 0);
                    assert(self.dues().len() == self.dues().to_multiset().len());
                    assert(self@.len() == 0);
                    assert(forall|d: u64| !self.has_due(d));
                }
                CompareAction::Disarm
            },
            Some(m) => {
                proof {
                    assert(heap_contents(self.heap).count(m) > 0);
                    assert(self.dues().to_multiset().count(m) > 0);
                    assert(self.dues().contains(m));
                    let j = choose|j: int| 0 <= j < self.dues().len() && self.dues()[j] == m;
                    assert(self@[j].spec_due() == m);
                    assert forall|j2: int| 0 <= j2 < self@.len() implies m <= (
                    #[trigger] self@[j2]).spec_due() by {
                        assert(self.dues()[j2] == self@[j2].spec_due());
                        assert(self.dues().contains(self@[j2].spec_due()));
                        assert(self.dues().to_multiset().count(self@[j2].spec_due()) > 0);
                        assert(heap_contents(self.heap).count(self@[j2].spec_due()) > 0);
                    }
                    assert(self.is_min_due(m));
                    assert forall|d: u64| #[trigger] self.is_min_due(d) implies d == m by {
                        let i = choose|i: int|
                            0 <= i < self@.len() && (#[trigger] self@[i]).spec_due() == d;
                        assert(self.dues().contains(d));
                    }
                }
                let md = Time::from_bits(m);
                if md.overflows() == self.current_time.overflows() {
                    CompareAction::Arm(md.ticks())
                } else {
                    CompareAction::Disarm
                }
            },
        }
    }

    /// The hardware counter wrapped around: advance the overflow count.
    /// The queue itself is untouched; re-evaluate the comparator afterwards.
    pub fn on_overflow_fired(&mut self)
        requires
            old(self).wf(),
            old(self).spec_now().spec_bits() + EPOCH_TICKS <= u64::MAX,
        ensures
            final(self).wf(),
            final(self)@ == old(self)@,
            final(self).spec_now().spec_bits() == old(self).spec_now().spec_bits() + EPOCH_TICKS,
    {
        self.current_time.increment_overflows();
    }

    /// Refresh the tick part of the current time from a live counter read.
    pub fn update_ticks(&mut self, counter: u32)
        requires
            old(self).wf(),
            counter < EPOCH_TICKS,
        ensures
            final(self).wf(),
            final(self)@ == old(self)@,
            final(self).spec_now().spec_bits() == overflows_of(old(self).spec_now().spec_bits())
                + counter,
    {
        self.current_time.set_ticks(counter);
    }
}

/// The current time after the pending hardware events are applied: an
/// overflow advances the epoch; a compare match re-samples the tick part
/// from the live counter.
pub open spec fn rtc_time_after(
    pre: u64,
    overflow_pending: bool,
    compare_pending: bool,
    counter: u32,
) -> u64 {
    let t1 = if overflow_pending {
        (pre + EPOCH_TICKS) as u64
    } else {
        pre
    };
    if compare_pending {
        (overflows_of(t1) + counter) as u64
    } else {
        t1
    }
}

impl Timer {
    /// Process one hardware interrupt: apply the pending overflow and/or
    /// compare-match events, fire whatever has become due, and decide how the
    /// comparator should be set afterwards.
    pub fn handle_rtc_event(
        &mut self,
        overflow_pending: bool,
        compare_pending: bool,
        counter: u32,
    ) -> (r: (Vec<Timeout>, CompareAction))
        requires
            old(self).wf(),
            counter < EPOCH_TICKS,
            overflow_pending ==> old(self).spec_now().spec_bits() + EPOCH_TICKS <= u64::MAX,
        ensures
            final(self).wf(),
            final(self).spec_now().spec_bits() == rtc_time_after(
                old(self).spec_now().spec_bits(),
                overflow_pending,
                compare_pending,
                counter,
            ),
            compare_action_ok(*final(self), r.1),
            !compare_pending ==> final(self)@ == old(self)@ && r.0@.len() == 0,
            compare_pending ==> old(self)@.to_multiset() == final(self)@.to_multiset().add(
                r.0@.to_multiset(),
            ),
            compare_pending ==> forall|k: int|
                0 <= k < r.0@.len() ==> (#[trigger] r.0@[k]).spec_due() <= final(self).spec_now().spec_bits(),
            forall|k1: int, k2: int|
                0 <= k1 <= k2 < r.0@.len() ==> r.0@[k1].spec_due() <= r.0@[k2].spec_due(),
            compare_pending ==> forall|j: int|
                0 <= j < final(self)@.len() ==> (#[trigger] final(self)@[j]).spec_due() > final(self).spec_now().spec_bits(),
    {
        if overflow_pending {
            self.on_overflow_fired();
        }
        let fired = if compare_pending {
            proof {
                crate::time::lemma_overflows_bound(self.spec_now().spec_bits());
            }
            self.update_ticks(counter);
            self.handle_cc0()
        } else {
            Vec::new()
        };
        let plan = self.compare_plan();
        (fired, plan)
    }
}

/// Poll result of a pending wait: complete, or suspended until woken.
#[derive(Debug, Copy, Clone, PartialEq, Eq, Structural)]
pub enum WaitPoll {
    Ready,
    Pending,
}

/// The suspension state of one `wait(duration)` call: the absolute time it
/// completes at, and whether its waker has been handed to the queue yet.
pub struct Wait {
    end: Time,
    installed_waker: bool,
}

impl Wait {
    /// The absolute time this wait completes at.
    pub closed spec fn spec_end(self) -> Time {
        self.end
    }

    /// Whether a waker for this wait is already registered with the queue.
    pub closed spec fn spec_installed(self) -> bool {
        self.installed_waker
    }

    pub fn end(&self) -> (t: Time)
        ensures
            t == self.spec_end(),
    {
        self.end
    }

    /// Begin a wait of the given duration from the given current time; the
    /// wait completes no earlier than `now + dur`.
    pub fn new(now: Time, dur: Time) -> (w: Wait)
        requires
            now.spec_bits() + dur.spec_bits() <= u64::MAX,
        ensures
            w.spec_end().spec_bits() == now.spec_bits() + dur.spec_bits(),
            !w.spec_installed(),
    {
        Wait { end: now.add(dur), installed_waker: false }
    }

    /// Poll the wait once. A wait whose end has passed completes at once and
    /// never touches the queue (a zero wait completes on its first poll). An
    /// unregistered pending wait registers its waker exactly once; later
    /// polls are spurious-safe and change nothing. A registration failure is
    /// handed back and the wait stays unregistered.
    pub fn poll(&mut self, timer: &mut Timer, waker: u64) -> (r: Result<WaitPoll, TimerError>)
        requires
            old(timer).wf(),
        ensures
            final(timer).wf(),
            final(timer).spec_now() == old(timer).spec_now(),
            final(self).spec_end() == old(self).spec_end(),
            old(self).spec_end().spec_bits() <= old(timer).spec_now().spec_bits() ==> r == Result::<WaitPoll, TimerError>::Ok(WaitPoll::Ready) && *final(timer) == *old(timer) && *final(self) == *old(self),
            old(self).spec_end().spec_bits() > old(timer).spec_now().spec_bits() && old(self).spec_installed() ==> r == Result::<WaitPoll, TimerError>::Ok(WaitPoll::Pending) && *final(timer) == *old(timer) && *final(self) == *old(self),
            old(self).spec_end().spec_bits() > old(timer).spec_now().spec_bits() && !old(self).spec_installed() && r is Ok ==> r == Result::<WaitPoll, TimerError>::Ok(WaitPoll::Pending) && final(self).spec_installed() && schedule_ok(
                *old(timer),
                *final(timer),
                old(self).spec_end().spec_bits(),
                waker,
            ),
            r is Err ==> *final(timer) == *old(timer) && *final(self) == *old(self) && old(self).spec_end().spec_bits() > old(timer).spec_now().spec_bits() && !old(self).spec_installed(),
            old(self).spec_end().spec_bits() > old(timer).spec_now().spec_bits() && !old(self).spec_installed() ==> (r is Ok <==> (if old(timer).has_due(
                old(self).spec_end().spec_bits(),
            ) {
                old(timer).wakers_of(old(self).spec_end().spec_bits()).len() < MAX_WAKERS
            } else {
                old(timer)@.len() < QUEUE_CAP
            })),
    {
        let now = timer.now();
        if self.end.bits() <= now.bits() {
            Ok(WaitPoll::Ready)
        } else if !self.installed_waker {
            match timer.add_waker(self.end, waker) {
                Ok(_u) => {
                    self.installed_waker = true;
                    Ok(WaitPoll::Pending)
                },
                Err(e) => Err(e),
            }
        } else {
            Ok(WaitPoll::Pending)
        }
    }
}

/// Coalescing: scheduling two wakers for the same, previously unqueued due
/// time yields exactly one new queue entry, holding both wakers in order —
/// they will fire together.
pub proof fn lemma_schedule_coalesces(q0: Timer, q1: Timer, q2: Timer, d: u64, w1: u64, w2: u64)
    requires
        q1.wf(),
        q2.wf(),
        !q0.has_due(d),
        schedule_ok(q0, q1, d, w1),
        schedule_ok(q1, q2, d, w2),
    ensures
        q2@.len() == q0@.len() + 1,
        q2.has_due(d),
        q2.wakers_of(d) == seq![w1, w2],
{
    let n0 = q0@.len() as int;
    assert(q1@[n0].spec_due() == d);
    assert(q1.has_due(d));
    q1.lemma_wf_facts();
    q2.lemma_wf_facts();
    let i = choose|i: int|
        0 <= i < q1@.len() && (#[trigger] q1@[i]).spec_due() == d && q2@[i].spec_due() == d
            && q2@[i].spec_wakers() == q1@[i].spec_wakers().push(w2) && (forall|j: int|
            0 <= j < q1@.len() && j != i ==> q2@[j] == q1@[j]);
    assert(i == n0);
    assert(q2@[n0].spec_wakers() =~= seq![w1, w2]);
    assert(q2.has_due(d));
    let k = q2.due_index(d);
    assert(0 <= k < q2@.len() && q2@[k].spec_due() == d);
    assert(k == n0);
}

} // verus!

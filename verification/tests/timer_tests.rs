use dodjtime::time::Time;
use dodjtime::timer::{CompareAction, Timer, TimerError, Wait, WaitPoll};

#[test]
fn schedule_and_fire_in_due_order() {
    let mut timer = Timer::new();
    // Schedule out of order; they must fire in non-decreasing due order.
    for (due, waker) in [(500u64, 5u64), (100, 1), (300, 3), (200, 2)] {
        assert!(timer.add_waker(Time::from_bits(due), waker).is_ok());
    }
    assert_eq!(timer.len(), 4);
    timer.update_ticks(400);
    let fired = timer.handle_cc0();
    let dues: Vec<u64> = fired.iter().map(|t| t.due().bits()).collect();
    assert_eq!(dues, vec![100, 200, 300]);
    for t in &fired {
        assert!(t.due().bits() <= 400);
    }
    // The 500 entry stays queued.
    assert_eq!(timer.len(), 1);
}

#[test]
fn coalescing_shares_one_entry() {
    let mut timer = Timer::new();
    let due = Time::from_bits(1000);
    assert!(timer.add_waker(due, 7).is_ok());
    assert!(timer.add_waker(due, 8).is_ok());
    // Exactly one queue entry for the shared due time.
    assert_eq!(timer.len(), 1);
    timer.update_ticks(1000);
    let fired = timer.handle_cc0();
    // Both wakers fire together, oldest first.
    assert_eq!(fired.len(), 1);
    assert_eq!(fired[0].wakers().clone(), vec![7, 8]);
}

#[test]
fn waker_slots_are_bounded() {
    let mut timer = Timer::new();
    let due = Time::from_bits(1000);
    assert!(timer.add_waker(due, 1).is_ok());
    assert!(timer.add_waker(due, 2).is_ok());
    assert!(timer.add_waker(due, 3).is_ok());
    assert_eq!(timer.add_waker(due, 4), Err(TimerError::WakerSlotsFull));
    assert_eq!(timer.len(), 1);
}

#[test]
fn ninth_distinct_due_is_rejected_and_first_eight_fire_in_order() {
    let mut timer = Timer::new();
    for i in 0..8u64 {
        // Distinct dues, deliberately scheduled in reverse order.
        let due = Time::from_bits(800 - i * 100);
        assert!(timer.add_waker(due, i).is_ok());
    }
    let ninth = timer.add_waker(Time::from_bits(4242), 8);
    assert_eq!(ninth, Err(TimerError::QueueFull));
    assert_eq!(timer.len(), 8);
    timer.update_ticks(10_000);
    let fired = timer.handle_cc0();
    let dues: Vec<u64> = fired.iter().map(|t| t.due().bits()).collect();
    assert_eq!(dues, vec![100, 200, 300, 400, 500, 600, 700, 800]);
    assert_eq!(timer.len(), 0);
}

#[test]
fn compare_plan_arms_within_epoch_and_disarms_across() {
    let mut timer = Timer::new();
    assert_eq!(timer.compare_plan(), CompareAction::Disarm);
    // A due in the current epoch arms the comparator at its ticks.
    assert!(timer.add_waker(Time::from_bits(0x1234), 1).is_ok());
    assert_eq!(timer.compare_plan(), CompareAction::Arm(0x1234));
    // A smaller due in a future epoch cannot exist; a minimum in a future
    // epoch disarms until the next overflow.
    let mut timer2 = Timer::new();
    assert!(timer2.add_waker(Time::from_bits(0x0100_0022), 1).is_ok());
    assert_eq!(timer2.compare_plan(), CompareAction::Disarm);
    // After the overflow fires, the same due is in the current epoch.
    timer2.on_overflow_fired();
    assert_eq!(timer2.compare_plan(), CompareAction::Arm(0x22));
}

#[test]
fn handle_rtc_event_applies_overflow_then_compare() {
    let mut timer = Timer::new();
    assert!(timer.add_waker(Time::from_bits(0x0100_0010), 9).is_ok());
    // Counter wrapped and the comparator matched at counter value 0x20.
    let (fired, plan) = timer.handle_rtc_event(true, true, 0x20);
    assert_eq!(timer.now().bits(), 0x0100_0020);
    assert_eq!(fired.len(), 1);
    assert_eq!(fired[0].due().bits(), 0x0100_0010);
    assert_eq!(fired[0].wakers().clone(), vec![9]);
    assert_eq!(plan, CompareAction::Disarm);
}

#[test]
fn zero_wait_completes_on_first_poll_without_registering() {
    let mut timer = Timer::new();
    timer.update_ticks(500);
    let before = timer.len();
    let mut wait = Wait::new(timer.now(), Time::from_bits(0));
    let polled = wait.poll(&mut timer, 1);
    assert_eq!(polled, Ok(WaitPoll::Ready));
    assert_eq!(timer.len(), before);
}

#[test]
fn pending_wait_registers_once_and_later_polls_are_spurious_safe() {
    let mut timer = Timer::new();
    let mut wait = Wait::new(timer.now(), Time::from_bits(100));
    assert_eq!(wait.poll(&mut timer, 1), Ok(WaitPoll::Pending));
    assert_eq!(timer.len(), 1);
    // A spurious poll must not register a second waker.
    assert_eq!(wait.poll(&mut timer, 1), Ok(WaitPoll::Pending));
    assert_eq!(timer.len(), 1);
    let fired = timer.handle_cc0();
    assert!(fired.is_empty());
    timer.update_ticks(100);
    let fired = timer.handle_cc0();
    assert_eq!(fired.len(), 1);
    assert_eq!(fired[0].wakers().clone(), vec![1]);
    // The wait is due now.
    assert_eq!(wait.poll(&mut timer, 1), Ok(WaitPoll::Ready));
}

#[test]
fn failed_registration_is_reported_to_the_waiter() {
    let mut timer = Timer::new();
    for i in 0..8u64 {
        assert!(timer.add_waker(Time::from_bits(100 + i), i).is_ok());
    }
    let mut wait = Wait::new(timer.now(), Time::from_bits(4000));
    assert_eq!(wait.poll(&mut timer, 99), Err(TimerError::QueueFull));
    assert_eq!(timer.len(), 8);
}

use riscv_slic::queue::QUEUE_CAPACITY;
use riscv_slic::SLIC;

fn pending_count<const N: usize>(slic: &SLIC<N>) -> usize {
    (0..N as u16).filter(|&id| slic.is_pending(id)).count()
}

#[test]
fn new_controller_is_zeroed() {
    let slic = SLIC::<4>::new();
    assert_eq!(slic.get_threshold(), 0);
    for id in 0..4 {
        assert_eq!(slic.get_priority(id), 0);
        assert!(!slic.is_pending(id));
    }
    assert_eq!(slic.queued(), 0);
    assert!(!slic.is_ready());
}

#[test]
fn controller_of_full_capacity() {
    let mut slic = SLIC::<QUEUE_CAPACITY>::new();
    for id in 0..QUEUE_CAPACITY as u16 {
        slic.set_priority(id, 1 + (id % 7) as u8);
        slic.pend(id);
    }
    assert_eq!(slic.queued(), QUEUE_CAPACITY);
    assert_eq!(pending_count(&slic), QUEUE_CAPACITY);
    let mut last = (u8::MAX, u16::MAX);
    let mut taken = 0;
    while let Some(entry) = slic.pop() {
        assert!(entry < last);
        last = entry;
        taken += 1;
    }
    assert_eq!(taken, QUEUE_CAPACITY);
    assert_eq!(slic.queued(), 0);
}

#[test]
fn priorities_are_kept_per_source() {
    let mut slic = SLIC::<3>::new();
    slic.set_priority(0, 7);
    slic.set_priority(2, 255);
    assert_eq!(slic.get_priority(0), 7);
    assert_eq!(slic.get_priority(1), 0);
    assert_eq!(slic.get_priority(2), 255);
    slic.set_priority(0, 0);
    assert_eq!(slic.get_priority(0), 0);
}

#[test]
fn threshold_is_written_unchecked() {
    let mut slic = SLIC::<1>::new();
    slic.set_threshold(9);
    assert_eq!(slic.get_threshold(), 9);
    slic.set_threshold(3);
    assert_eq!(slic.get_threshold(), 3);
}

#[test]
fn raise_threshold_succeeds_only_upwards() {
    let mut slic = SLIC::<1>::new();
    assert_eq!(slic.raise_threshold(0), Err(()));
    assert_eq!(slic.get_threshold(), 0);
    assert_eq!(slic.raise_threshold(4), Ok(0));
    assert_eq!(slic.get_threshold(), 4);
    assert_eq!(slic.raise_threshold(4), Err(()));
    assert_eq!(slic.raise_threshold(3), Err(()));
    assert_eq!(slic.get_threshold(), 4);
    assert_eq!(slic.raise_threshold(255), Ok(4));
    assert_eq!(slic.get_threshold(), 255);
    assert_eq!(slic.raise_threshold(255), Err(()));
}

#[test]
fn refused_raise_leaves_state_unchanged() {
    let mut slic = SLIC::<2>::new();
    slic.set_priority(0, 5);
    slic.pend(0);
    slic.set_threshold(6);
    assert_eq!(slic.raise_threshold(6), Err(()));
    assert_eq!(slic.get_threshold(), 6);
    assert_eq!(slic.get_priority(0), 5);
    assert!(slic.is_pending(0));
    assert_eq!(slic.queued(), 1);
}

#[test]
fn pend_of_disabled_source_is_ignored() {
    let mut slic = SLIC::<3>::new();
    slic.set_priority(1, 2);
    slic.pend(1);
    for id in [0u16, 2] {
        slic.pend(id);
        assert!(!slic.is_pending(id));
        assert_eq!(slic.queued(), 1);
        assert_eq!(pending_count(&slic), 1);
    }
    assert!(slic.is_pending(1));
}

#[test]
fn pend_twice_is_pend_once() {
    let mut slic = SLIC::<2>::new();
    slic.set_priority(0, 3);
    slic.pend(0);
    assert!(slic.is_pending(0));
    assert_eq!(slic.queued(), 1);
    slic.pend(0);
    assert!(slic.is_pending(0));
    assert_eq!(slic.queued(), 1);
    assert_eq!(slic.pop(), Some((3, 0)));
    assert_eq!(slic.pop(), None);
    assert!(!slic.is_pending(0));
}

#[test]
fn pend_after_pop_queues_again() {
    let mut slic = SLIC::<1>::new();
    slic.set_priority(0, 1);
    slic.pend(0);
    assert_eq!(slic.pop(), Some((1, 0)));
    slic.pend(0);
    assert_eq!(slic.queued(), 1);
    assert_eq!(slic.pop(), Some((1, 0)));
}

#[test]
fn ready_needs_priority_above_threshold() {
    let mut slic = SLIC::<2>::new();
    assert!(!slic.is_ready());
    slic.set_priority(0, 2);
    slic.pend(0);
    assert!(slic.is_ready());
    slic.set_threshold(1);
    assert!(slic.is_ready());
    slic.set_threshold(2);
    assert!(!slic.is_ready());
    assert_eq!(slic.pop(), None);
    assert!(slic.is_pending(0));
    slic.set_threshold(3);
    assert!(!slic.is_ready());
}

#[test]
fn pop_takes_descending_priorities() {
    for order in [[0u16, 1, 2], [0, 2, 1], [1, 0, 2], [1, 2, 0], [2, 0, 1], [2, 1, 0]] {
        let mut slic = SLIC::<3>::new();
        slic.set_priority(0, 10);
        slic.set_priority(1, 30);
        slic.set_priority(2, 20);
        for id in order {
            slic.pend(id);
        }
        assert_eq!(slic.pop(), Some((30, 1)));
        assert_eq!(slic.pop(), Some((20, 2)));
        assert_eq!(slic.pop(), Some((10, 0)));
        assert_eq!(slic.pop(), None);
        assert_eq!(slic.queued(), 0);
    }
}

#[test]
fn equal_priorities_go_by_identity() {
    let mut slic = SLIC::<4>::new();
    for id in 0..4 {
        slic.set_priority(id, 5);
    }
    for id in [2u16, 0, 3, 1] {
        slic.pend(id);
    }
    assert_eq!(slic.pop(), Some((5, 3)));
    assert_eq!(slic.pop(), Some((5, 2)));
    assert_eq!(slic.pop(), Some((5, 1)));
    assert_eq!(slic.pop(), Some((5, 0)));
    assert_eq!(slic.pop(), None);
}

#[test]
fn pending_sources_match_queue_length() {
    let mut slic = SLIC::<5>::new();
    let check = |slic: &SLIC<5>| assert_eq!(pending_count(slic), slic.queued());
    check(&slic);
    for (id, priority) in [(0u16, 2u8), (1, 0), (2, 9), (3, 2), (4, 1)] {
        slic.set_priority(id, priority);
        check(&slic);
    }
    for id in [0u16, 1, 2, 2, 4, 0, 3] {
        slic.pend(id);
        check(&slic);
    }
    assert_eq!(slic.queued(), 4);
    slic.set_threshold(1);
    check(&slic);
    slic.set_priority(2, 0);
    check(&slic);
    let mut popped = Vec::new();
    while let Some(entry) = slic.pop() {
        check(&slic);
        popped.push(entry);
    }
    assert_eq!(popped, vec![(9, 2), (2, 3), (2, 0)]);
    assert_eq!(slic.queued(), 1);
    assert!(slic.is_pending(4));
    assert_eq!(slic.raise_threshold(3), Ok(1));
    check(&slic);
    slic.pend(2);
    check(&slic);
    assert_eq!(slic.queued(), 1);
}

#[test]
fn low_and_high_leave_in_priority_order() {
    let low = 0u16;
    let high = 1u16;
    let mut slic = SLIC::<2>::new();
    slic.set_priority(low, 1);
    slic.set_priority(high, 3);
    slic.pend(low);
    slic.pend(high);
    assert_eq!(slic.pop(), Some((3, high)));
    assert_eq!(slic.pop(), Some((1, low)));
    assert_eq!(slic.pop(), None);
}

#[test]
fn masked_sources_stay_pending() {
    let (a, b, c) = (0u16, 1u16, 2u16);
    let mut slic = SLIC::<3>::new();
    slic.set_threshold(2);
    slic.set_priority(a, 1);
    slic.set_priority(b, 2);
    slic.set_priority(c, 3);
    slic.pend(a);
    slic.pend(b);
    slic.pend(c);
    assert!(slic.is_ready());
    assert_eq!(slic.pop(), Some((3, c)));
    assert!(!slic.is_ready());
    assert_eq!(slic.pop(), None);
    assert!(slic.is_pending(a));
    assert!(slic.is_pending(b));
    assert!(!slic.is_pending(c));
    assert_eq!(slic.queued(), 2);
    slic.set_threshold(1);
    assert!(slic.is_ready());
    assert_eq!(slic.pop(), Some((2, b)));
    assert!(!slic.is_ready());
    assert!(slic.is_pending(a));
    slic.set_threshold(0);
    assert_eq!(slic.pop(), Some((1, a)));
    assert_eq!(slic.pop(), None);
}

#[test]
fn disabling_a_queued_source_keeps_its_entry() {
    let x = 1u16;
    let mut slic = SLIC::<2>::new();
    slic.set_priority(x, 4);
    slic.pend(x);
    slic.set_priority(x, 0);
    assert_eq!(slic.get_priority(x), 0);
    assert!(slic.is_pending(x));
    assert_eq!(slic.queued(), 1);
    assert!(slic.is_ready());
    assert_eq!(slic.pop(), Some((4, x)));
    assert!(!slic.is_pending(x));
    slic.pend(x);
    assert!(!slic.is_pending(x));
    assert_eq!(slic.pop(), None);
}

#[test]
fn priority_change_does_not_retag_queued_entry() {
    let mut slic = SLIC::<2>::new();
    slic.set_priority(0, 2);
    slic.set_priority(1, 3);
    slic.pend(0);
    slic.pend(1);
    slic.set_priority(0, 9);
    assert_eq!(slic.pop(), Some((3, 1)));
    assert_eq!(slic.pop(), Some((2, 0)));
    slic.pend(0);
    assert_eq!(slic.pop(), Some((9, 0)));
}

#[test]
fn controller_without_sources_is_never_ready() {
    let mut slic = SLIC::<0>::new();
    assert_eq!(slic.queued(), 0);
    assert!(!slic.is_ready());
    assert_eq!(slic.pop(), None);
    assert_eq!(slic.raise_threshold(1), Ok(0));
    assert_eq!(slic.pop(), None);
}

#[test]
fn lowest_of_three_disabled_leaves_only_two() {
    let mut slic = SLIC::<3>::new();
    slic.set_priority(0, 2);
    slic.set_priority(1, 1);
    slic.set_priority(2, 0);
    slic.pend(0);
    slic.pend(1);
    slic.pend(2);
    assert_eq!(slic.pop(), Some((2, 0)));
    assert_eq!(slic.pop(), Some((1, 1)));
    assert_eq!(slic.pop(), None);
}

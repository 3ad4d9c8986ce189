use riscv_slic::example::Interrupt;
use riscv_slic::{
    disable, dispatch, enable, get_priority, get_threshold, lock, next_dispatch, pend,
    pend_number, raise_threshold, restore_threshold, run, set_priority, set_priority_of,
    set_threshold, PendingBit, Runtime, TrapBridge,
};

type Rt = Runtime<PendingBit, 3>;

fn runtime(low: u8, mid: u8, high: u8) -> Rt {
    let mut rt = Rt::new(PendingBit::new());
    set_priority(&mut rt, Interrupt::GPIO0, low);
    set_priority(&mut rt, Interrupt::GPIO1, mid);
    set_priority(&mut rt, Interrupt::SPI5, high);
    rt
}

#[test]
fn pending_bit_sets_and_clears() {
    let mut bit = PendingBit::new();
    assert!(!bit.is_set());
    bit.request_trap();
    assert!(bit.is_set());
    bit.request_trap();
    assert!(bit.is_set());
    assert_eq!(bit, PendingBit { set: true });
    bit.acknowledge_trap();
    assert!(!bit.is_set());
    bit.acknowledge_trap();
    assert!(!bit.is_set());
}

#[test]
fn resume_address_is_behind_the_trap_instruction() {
    assert_eq!(riscv_slic::bridge::TRAP_INSTRUCTION_BYTES, 4);
    assert_eq!(riscv_slic::bridge::resume_after_trap(0), 4);
    assert_eq!(riscv_slic::bridge::resume_after_trap(0x8000_0010), 0x8000_0014);
    assert_eq!(riscv_slic::bridge::resume_after_trap(usize::MAX - 4), usize::MAX);
}

#[test]
fn fresh_runtime_requests_nothing() {
    let rt = Rt::new(PendingBit::new());
    assert!(!rt.bridge().is_set());
    assert_eq!(get_threshold(&rt), 0);
    assert_eq!(get_priority(&rt, Interrupt::GPIO0), 0);
    assert_eq!(rt.slic().queued(), 0);
}

#[test]
fn api_priorities_reach_the_controller() {
    let rt = runtime(1, 2, 3);
    assert_eq!(get_priority(&rt, Interrupt::GPIO0), 1);
    assert_eq!(get_priority(&rt, Interrupt::GPIO1), 2);
    assert_eq!(get_priority(&rt, Interrupt::SPI5), 3);
    assert_eq!(rt.slic().get_priority(2), 3);
    assert!(!rt.bridge().is_set());
}

#[test]
fn sources_are_reached_by_number_too() {
    let mut rt = Rt::new(PendingBit::new());
    set_priority_of(&mut rt, 2, 6);
    assert_eq!(get_priority(&rt, Interrupt::SPI5), 6);
    assert!(!rt.bridge().is_set());
    pend_number(&mut rt, 2);
    assert!(rt.slic().is_pending(2));
    assert!(rt.bridge().is_set());
    pend_number(&mut rt, 0);
    assert!(!rt.slic().is_pending(0));
    assert_eq!(next_dispatch(&mut rt), Some((0, 2)));
}

#[test]
fn pend_requests_trap_when_dispatchable() {
    let mut rt = runtime(1, 2, 3);
    pend(&mut rt, Interrupt::GPIO1);
    assert!(rt.slic().is_pending(1));
    assert!(rt.bridge().is_set());
}

#[test]
fn pend_below_threshold_requests_nothing() {
    let mut rt = runtime(1, 2, 3);
    set_threshold(&mut rt, 2);
    pend(&mut rt, Interrupt::GPIO0);
    pend(&mut rt, Interrupt::GPIO1);
    assert!(rt.slic().is_pending(0));
    assert!(rt.slic().is_pending(1));
    assert!(!rt.bridge().is_set());
    pend(&mut rt, Interrupt::SPI5);
    assert!(rt.bridge().is_set());
}

#[test]
fn pend_of_disabled_source_requests_nothing() {
    let mut rt = runtime(0, 0, 0);
    pend(&mut rt, Interrupt::GPIO0);
    assert!(!rt.slic().is_pending(0));
    assert_eq!(rt.slic().queued(), 0);
    assert!(!rt.bridge().is_set());
}

#[test]
fn lowering_threshold_requests_trap_for_waiting_source() {
    let mut rt = runtime(1, 2, 3);
    set_threshold(&mut rt, 5);
    pend(&mut rt, Interrupt::GPIO1);
    assert!(!rt.bridge().is_set());
    set_threshold(&mut rt, 2);
    assert!(!rt.bridge().is_set());
    set_threshold(&mut rt, 1);
    assert!(rt.bridge().is_set());
    assert_eq!(get_threshold(&rt), 1);
}

#[test]
fn api_raise_threshold_reports_previous_level() {
    let mut rt = runtime(1, 2, 3);
    assert_eq!(raise_threshold(&mut rt, 0), Err(()));
    assert_eq!(raise_threshold(&mut rt, 2), Ok(0));
    assert_eq!(raise_threshold(&mut rt, 2), Err(()));
    assert_eq!(raise_threshold(&mut rt, 1), Err(()));
    assert_eq!(get_threshold(&rt), 2);
    assert_eq!(raise_threshold(&mut rt, 7), Ok(2));
    assert_eq!(get_threshold(&rt), 7);
}

#[test]
fn disable_withdraws_and_enable_renews_the_request() {
    let mut rt = runtime(1, 2, 3);
    pend(&mut rt, Interrupt::GPIO0);
    assert!(rt.bridge().is_set());
    disable(&mut rt);
    assert!(!rt.bridge().is_set());
    assert!(rt.slic().is_pending(0));
    enable(&mut rt);
    assert!(rt.bridge().is_set());
}

#[test]
fn enable_with_nothing_dispatchable_requests_nothing() {
    let mut rt = runtime(1, 2, 3);
    set_threshold(&mut rt, 1);
    pend(&mut rt, Interrupt::GPIO0);
    enable(&mut rt);
    assert!(!rt.bridge().is_set());
}

#[test]
fn run_raises_and_restores_threshold() {
    let mut rt = runtime(1, 2, 3);
    set_threshold(&mut rt, 1);
    let mut inside = None;
    run(&mut rt, 4, |rt: &mut Rt| inside = Some(get_threshold(rt)));
    assert_eq!(inside, Some(4));
    assert_eq!(get_threshold(&rt), 1);
}

#[test]
fn run_below_threshold_keeps_threshold() {
    let mut rt = runtime(1, 2, 3);
    set_threshold(&mut rt, 5);
    let mut inside = None;
    run(&mut rt, 3, |rt: &mut Rt| inside = Some(get_threshold(rt)));
    assert_eq!(inside, Some(5));
    assert_eq!(get_threshold(&rt), 5);
    run(&mut rt, 5, |rt: &mut Rt| inside = Some(get_threshold(rt)));
    assert_eq!(inside, Some(5));
    assert_eq!(get_threshold(&rt), 5);
}

#[test]
fn run_restores_even_if_body_moves_threshold() {
    let mut rt = runtime(1, 2, 3);
    run(&mut rt, 4, |rt: &mut Rt| set_threshold(rt, 9));
    assert_eq!(get_threshold(&rt), 0);
}

#[test]
fn nested_runs_restore_outermost_threshold() {
    let mut rt = runtime(1, 2, 3);
    set_threshold(&mut rt, 1);
    let mut seen = Vec::new();
    run(&mut rt, 2, |rt: &mut Rt| {
        seen.push(get_threshold(rt));
        pend(rt, Interrupt::GPIO0);
        run(rt, 6, |rt: &mut Rt| {
            seen.push(get_threshold(rt));
            pend(rt, Interrupt::GPIO1);
            run(rt, 4, |rt: &mut Rt| {
                seen.push(get_threshold(rt));
                pend(rt, Interrupt::SPI5);
                run(rt, 200, |rt: &mut Rt| {
                    seen.push(get_threshold(rt));
                    pend(rt, Interrupt::SPI5);
                });
                seen.push(get_threshold(rt));
            });
            seen.push(get_threshold(rt));
        });
        seen.push(get_threshold(rt));
    });
    assert_eq!(seen, vec![2, 6, 6, 200, 6, 6, 2]);
    assert_eq!(get_threshold(&rt), 1);
    assert_eq!(rt.slic().queued(), 3);
    assert!(rt.bridge().is_set());
}

#[test]
fn run_requests_trap_for_source_signalled_under_the_mask() {
    let mut rt = runtime(1, 2, 3);
    let mut requested_inside = None;
    run(&mut rt, 3, |rt: &mut Rt| {
        pend(rt, Interrupt::GPIO1);
        requested_inside = Some(rt.bridge().is_set());
    });
    assert_eq!(requested_inside, Some(false));
    assert!(rt.bridge().is_set());
    assert_eq!(next_dispatch(&mut rt), Some((0, 1)));
}

#[test]
fn lock_runs_body_on_resource_and_returns_its_value() {
    let mut rt = runtime(1, 2, 3);
    set_threshold(&mut rt, 1);
    let mut counter = 41u32;
    let mut inside = None;
    let doubled = lock(&mut rt, &mut counter, 3, |rt: &mut Rt, c: &mut u32| {
        inside = Some(get_threshold(rt));
        *c += 1;
        *c * 2
    });
    assert_eq!(inside, Some(3));
    assert_eq!(counter, 42);
    assert_eq!(doubled, 84);
    assert_eq!(get_threshold(&rt), 1);
}

#[test]
fn lock_below_threshold_keeps_threshold() {
    let mut rt = runtime(1, 2, 3);
    set_threshold(&mut rt, 8);
    let mut resource = vec![1u8];
    let mut inside = None;
    let len = lock(&mut rt, &mut resource, 3, |rt: &mut Rt, r: &mut Vec<u8>| {
        inside = Some(get_threshold(rt));
        r.push(2);
        r.len()
    });
    assert_eq!(inside, Some(8));
    assert_eq!(len, 2);
    assert_eq!(resource, vec![1, 2]);
    assert_eq!(get_threshold(&rt), 8);
}

#[test]
fn lock_requests_trap_for_source_waiting_behind_the_ceiling() {
    let mut rt = runtime(1, 2, 3);
    set_threshold(&mut rt, 3);
    pend(&mut rt, Interrupt::SPI5);
    assert!(!rt.bridge().is_set());
    set_threshold(&mut rt, 0);
    disable(&mut rt);
    let mut resource = 0u8;
    lock(&mut rt, &mut resource, 3, |_: &mut Rt, r: &mut u8| *r = 1);
    assert_eq!(resource, 1);
    assert!(rt.bridge().is_set());
}

#[test]
fn next_dispatch_takes_highest_and_masks_at_its_priority() {
    let mut rt = runtime(1, 2, 3);
    pend(&mut rt, Interrupt::GPIO0);
    pend(&mut rt, Interrupt::SPI5);
    assert!(rt.bridge().is_set());
    assert_eq!(next_dispatch(&mut rt), Some((0, 2)));
    assert!(!rt.bridge().is_set());
    assert_eq!(get_threshold(&rt), 3);
    assert!(!rt.slic().is_pending(2));
    assert!(rt.slic().is_pending(0));
    assert_eq!(next_dispatch(&mut rt), None);
    assert_eq!(get_threshold(&rt), 3);
    set_threshold(&mut rt, 0);
    assert!(rt.bridge().is_set());
    assert_eq!(next_dispatch(&mut rt), Some((0, 0)));
    assert_eq!(get_threshold(&rt), 1);
    set_threshold(&mut rt, 0);
    assert!(!rt.bridge().is_set());
    assert_eq!(next_dispatch(&mut rt), None);
}

#[test]
fn next_dispatch_acknowledges_even_with_nothing_to_run() {
    let mut bit = PendingBit::new();
    bit.request_trap();
    let mut rt = Rt::new(bit);
    assert!(rt.bridge().is_set());
    assert_eq!(next_dispatch(&mut rt), None);
    assert!(!rt.bridge().is_set());
    assert_eq!(get_threshold(&rt), 0);
}

#[test]
fn dispatch_runs_handler_at_its_priority() {
    let mut rt = runtime(1, 2, 3);
    pend(&mut rt, Interrupt::GPIO1);
    let mut seen = Vec::new();
    let ran = dispatch(&mut rt, |id, rt: &mut Rt| {
        seen.push((id, get_threshold(rt), rt.slic().is_pending(id), rt.bridge().is_set()));
    });
    assert!(ran);
    assert_eq!(seen, vec![(1, 2, false, false)]);
    assert_eq!(get_threshold(&rt), 0);
    assert!(!rt.bridge().is_set());
    assert!(!dispatch(&mut rt, |_, _: &mut Rt| panic!("nothing to dispatch")));
}

#[test]
fn dispatch_loop_drains_in_priority_order() {
    let mut rt = runtime(1, 2, 3);
    pend(&mut rt, Interrupt::GPIO1);
    let mut log = Vec::new();
    while dispatch(&mut rt, |id, rt: &mut Rt| {
        log.push((id, get_threshold(rt)));
        if id == 1 {
            pend(rt, Interrupt::GPIO0);
            pend(rt, Interrupt::SPI5);
        }
    }) {
        assert_eq!(get_threshold(&rt), 0);
    }
    assert_eq!(log, vec![(1, 2), (2, 3), (0, 1)]);
    assert_eq!(rt.slic().queued(), 0);
    assert!(!rt.bridge().is_set());
}

#[test]
fn dispatch_rearms_for_what_the_handler_signalled() {
    let mut rt = runtime(1, 2, 3);
    pend(&mut rt, Interrupt::GPIO1);
    assert!(dispatch(&mut rt, |_, rt: &mut Rt| {
        pend(rt, Interrupt::SPI5);
        assert!(rt.bridge().is_set());
        pend(rt, Interrupt::GPIO0);
    }));
    assert!(rt.bridge().is_set());
    assert_eq!(rt.slic().queued(), 2);
}

#[test]
fn dispatch_respects_threshold_at_entry() {
    let mut rt = runtime(1, 2, 3);
    set_threshold(&mut rt, 2);
    pend(&mut rt, Interrupt::GPIO0);
    pend(&mut rt, Interrupt::GPIO1);
    assert!(!dispatch(&mut rt, |_, _: &mut Rt| panic!("masked")));
    pend(&mut rt, Interrupt::SPI5);
    let mut ran = Vec::new();
    assert!(dispatch(&mut rt, |id, _: &mut Rt| ran.push(id)));
    assert_eq!(ran, vec![2]);
    assert_eq!(get_threshold(&rt), 2);
    assert!(!dispatch(&mut rt, |_, _: &mut Rt| panic!("masked")));
    assert_eq!(rt.slic().queued(), 2);
}

#[test]
fn dispatch_invokes_handler_of_source_disabled_while_queued() {
    let mut rt = runtime(1, 2, 3);
    pend(&mut rt, Interrupt::GPIO1);
    set_priority(&mut rt, Interrupt::GPIO1, 0);
    let mut seen = Vec::new();
    assert!(dispatch(&mut rt, |id, rt: &mut Rt| seen.push((id, get_threshold(rt)))));
    assert_eq!(seen, vec![(1, 2)]);
}

#[test]
fn lock_holds_back_sources_up_to_its_ceiling() {
    let mut rt = runtime(1, 2, 3);
    let mut log = Vec::new();
    lock(&mut rt, &mut log, 2, |rt: &mut Rt, log: &mut Vec<(u16, u8)>| {
        pend(rt, Interrupt::GPIO0);
        pend(rt, Interrupt::GPIO1);
        assert!(!rt.bridge().is_set());
        assert!(!dispatch(rt, |_, _: &mut Rt| panic!("held back by the ceiling")));
        pend(rt, Interrupt::SPI5);
        assert!(rt.bridge().is_set());
        assert!(dispatch(rt, |id, rt: &mut Rt| log.push((id, get_threshold(rt)))));
        assert_eq!(get_threshold(rt), 2);
    });
    assert_eq!(log, vec![(2, 3)]);
    assert_eq!(get_threshold(&rt), 0);
    assert!(rt.bridge().is_set());
    assert_eq!(rt.slic().queued(), 2);
}

#[test]
fn nested_locks_restore_outermost_threshold() {
    let mut rt = runtime(1, 2, 3);
    let mut outer = 0u8;
    let mut seen = Vec::new();
    lock(&mut rt, &mut outer, 2, |rt: &mut Rt, outer: &mut u8| {
        seen.push(get_threshold(rt));
        let mut inner = 0u8;
        *outer = lock(rt, &mut inner, 5, |rt: &mut Rt, inner: &mut u8| {
            seen.push(get_threshold(rt));
            *inner = 9;
            get_threshold(rt)
        });
        seen.push(get_threshold(rt));
        *outer += inner;
    });
    assert_eq!(seen, vec![2, 5, 2]);
    assert_eq!(outer, 14);
    assert_eq!(get_threshold(&rt), 0);
}

#[test]
fn restore_writes_back_only_after_a_raise() {
    let mut rt = runtime(1, 2, 3);
    set_threshold(&mut rt, 4);
    let refused = raise_threshold(&mut rt, 3);
    assert_eq!(refused, Err(()));
    set_threshold(&mut rt, 6);
    restore_threshold(&mut rt, refused);
    assert_eq!(get_threshold(&rt), 6);
    let raised = raise_threshold(&mut rt, 9);
    assert_eq!(raised, Ok(6));
    pend(&mut rt, Interrupt::SPI5);
    assert!(!rt.bridge().is_set());
    set_threshold(&mut rt, 200);
    restore_threshold(&mut rt, raised);
    assert_eq!(get_threshold(&rt), 6);
    assert!(!rt.bridge().is_set());
    let raised = raise_threshold(&mut rt, 7);
    restore_threshold(&mut rt, Ok(2));
    assert_eq!(raised, Ok(6));
    assert_eq!(get_threshold(&rt), 2);
    assert!(rt.bridge().is_set());
}

#[test]
fn disabled_source_behind_a_greater_entry_still_runs_at_its_old_priority() {
    let mut rt = runtime(1, 2, 3);
    pend(&mut rt, Interrupt::GPIO1);
    pend(&mut rt, Interrupt::SPI5);
    set_priority(&mut rt, Interrupt::GPIO1, 0);
    let mut log = Vec::new();
    while dispatch(&mut rt, |id, rt: &mut Rt| log.push((id, get_threshold(rt)))) {}
    assert_eq!(log, vec![(2, 3), (1, 2)]);
    pend(&mut rt, Interrupt::GPIO1);
    assert!(!dispatch(&mut rt, |_, _: &mut Rt| panic!("source is disabled")));
}

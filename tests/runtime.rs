use leydi_stacks::{
    finish_and_next_stack, get_current_stack_id, goto_main, next_stack, stack_to,
    trigger_stack_to, Event, LeydiStacks, State, Switch, MAX_STACKS, STACK_BUFFER_SIZE,
};

const BODY: u64 = 0x1111_2222_3333_4444;
const TRIG: u64 = 0x5555_6666_7777_8888;
const FIN: u64 = 0x0102_0304_0506_0708;
const RET: u64 = 0x0a0b_0c0d_0e0f_1011;

fn word_at(buf: &[u8], off: usize) -> u64 {
    let mut b = [0u8; 8];
    b.copy_from_slice(&buf[off..off + 8]);
    u64::from_le_bytes(b)
}

fn states(rt: &LeydiStacks) -> Vec<State> {
    (0..=MAX_STACKS).map(|i| rt.stack_state(i)).collect()
}

fn assert_one_running(rt: &LeydiStacks) {
    let running: Vec<usize> = (0..=MAX_STACKS)
        .filter(|&i| rt.stack_state(i) == State::Running)
        .collect();
    assert_eq!(running, vec![get_current_stack_id(rt)]);
}

#[test]
fn new_runtime_has_main_running_and_workers_available() {
    let rt = LeydiStacks::new();
    assert_eq!(get_current_stack_id(&rt), 0);
    assert_eq!(rt.stack_state(0), State::Running);
    for i in 1..=MAX_STACKS {
        assert_eq!(rt.stack_state(i), State::Available);
    }
    assert_eq!(rt.event_count(), 0);
    assert!(rt.has_available_stack());
}

#[test]
fn spawn_writes_call_chain() {
    let mut rt = LeydiStacks::new();
    let id = rt.new_stack(BODY, TRIG, FIN, RET);
    assert_eq!(id, 1);
    assert_eq!(rt.stack_state(1), State::Ready);
    let top = STACK_BUFFER_SIZE;
    let buf = rt.stack_buffer(1);
    assert_eq!(word_at(buf, top - 16), FIN);
    assert_eq!(word_at(buf, top - 24), RET);
    assert_eq!(word_at(buf, top - 32), TRIG);
    assert_eq!(word_at(buf, top - 40), RET);
    assert_eq!(word_at(buf, top - 48), FIN);
    assert_eq!(word_at(buf, top - 56), RET);
    assert_eq!(word_at(buf, top - 64), BODY);
    assert_eq!(word_at(buf, top - 8), 0);
    assert_eq!(word_at(buf, top - 72), 0);
    assert_eq!(rt.stack_context(1).rsp, (top - 64) as u64);
}

#[test]
fn saved_stack_pointers_stay_in_own_buffer() {
    let mut rt = LeydiStacks::new();
    for _ in 0..3 {
        rt.new_stack(BODY, TRIG, FIN, RET);
    }
    trigger_stack_to(&mut rt, 2, Event::new((0, 0), 7));
    for i in 0..=MAX_STACKS {
        let rsp = rt.stack_context(i).rsp;
        assert!((rsp as usize) < rt.stack_buffer(i).len());
        assert_eq!(rsp % 16, 0);
    }
    assert_eq!(rt.stack_context(2).rsp, (STACK_BUFFER_SIZE - 32) as u64);
}

#[test]
fn four_bodies_run_in_id_order() {
    let mut rt = LeydiStacks::new();
    for _ in 0..4 {
        rt.new_stack(BODY, TRIG, FIN, RET);
    }
    let mut log = Vec::new();
    while let Some(sw) = next_stack(&mut rt) {
        assert_eq!(sw.paused, 0);
        assert_one_running(&rt);
        log.push(get_current_stack_id(&rt));
        let back = finish_and_next_stack(&mut rt).unwrap();
        assert_eq!(back, Switch { paused: sw.resumed, resumed: 0 });
        assert_one_running(&rt);
    }
    assert_eq!(log, vec![1, 2, 3, 4]);
    assert_eq!(get_current_stack_id(&rt), 0);
    for i in 1..=MAX_STACKS {
        assert_eq!(rt.stack_state(i), State::Available);
    }
}

#[test]
fn yield_goes_back_to_lowest_ready_fiber() {
    let mut rt = LeydiStacks::new();
    rt.new_stack(BODY, TRIG, FIN, RET);
    rt.new_stack(BODY, TRIG, FIN, RET);
    let mut log: Vec<&str> = Vec::new();
    let mut a_yielded = false;
    let mut b_yielded = false;
    while let Some(_) = next_stack(&mut rt) {
        match get_current_stack_id(&rt) {
            1 if !a_yielded => {
                log.push("A1");
                a_yielded = true;
                assert_eq!(next_stack(&mut rt), Some(Switch { paused: 1, resumed: 0 }));
            }
            1 => {
                log.push("A2");
                finish_and_next_stack(&mut rt);
            }
            2 if !b_yielded => {
                log.push("B1");
                b_yielded = true;
                assert_eq!(next_stack(&mut rt), Some(Switch { paused: 2, resumed: 0 }));
            }
            2 => {
                log.push("B2");
                finish_and_next_stack(&mut rt);
            }
            other => panic!("unexpected fiber {}", other),
        }
        assert_eq!(get_current_stack_id(&rt), 0);
    }
    assert_eq!(log, vec!["A1", "A2", "B1", "B2"]);
}

#[test]
fn trigger_before_body_runs_enters_trigger_entry() {
    let mut rt = LeydiStacks::new();
    rt.new_stack(BODY, TRIG, FIN, RET);
    let sw = trigger_stack_to(&mut rt, 1, Event::new((0, 0), 42));
    assert_eq!(sw, Some(Switch { paused: 0, resumed: 1 }));
    let ctx = rt.stack_context(1);
    assert_eq!(ctx.rsp, (STACK_BUFFER_SIZE - 32) as u64);
    assert_eq!(word_at(rt.stack_buffer(1), ctx.rsp as usize), TRIG);
    assert_eq!(ctx.edi, 0);
    assert_eq!(ctx.esi, 0);
    assert_eq!(rt.event_at(0).data, 42);
    let back = finish_and_next_stack(&mut rt);
    assert_eq!(back, Some(Switch { paused: 1, resumed: 0 }));
    assert_eq!(rt.stack_state(1), State::Available);
    assert_eq!(next_stack(&mut rt), None);
}

#[test]
fn goto_main_releases_every_worker() {
    let mut rt = LeydiStacks::new();
    for _ in 0..3 {
        rt.new_stack(BODY, TRIG, FIN, RET);
    }
    let mut log = Vec::new();
    while let Some(sw) = next_stack(&mut rt) {
        let id = sw.resumed;
        log.push(id);
        if id == 2 {
            let back = goto_main(&mut rt);
            assert_eq!(back, Switch { paused: 2, resumed: 0 });
        } else {
            finish_and_next_stack(&mut rt);
        }
    }
    assert_eq!(log, vec![1, 2]);
    assert_eq!(get_current_stack_id(&rt), 0);
    assert_eq!(rt.stack_state(0), State::Running);
    for i in 1..=MAX_STACKS {
        assert_eq!(rt.stack_state(i), State::Available);
    }
}

#[test]
fn goto_main_from_main_keeps_main_running() {
    let mut rt = LeydiStacks::new();
    rt.new_stack(BODY, TRIG, FIN, RET);
    let sw = goto_main(&mut rt);
    assert_eq!(sw, Switch { paused: 0, resumed: 0 });
    assert_one_running(&rt);
    assert_eq!(rt.stack_state(1), State::Available);
}

#[test]
fn pool_exhaustion_is_reported_before_spawn() {
    let mut rt = LeydiStacks::new();
    for i in 1..=MAX_STACKS {
        assert!(rt.has_available_stack());
        assert_eq!(rt.new_stack(BODY, TRIG, FIN, RET), i);
    }
    assert!(!rt.has_available_stack());
}

#[test]
fn event_indices_follow_trigger_order() {
    let mut rt = LeydiStacks::new();
    for _ in 0..3 {
        rt.new_stack(BODY, TRIG, FIN, RET);
    }
    let mut received = Vec::new();
    for (t, d) in [(1usize, 10usize), (2, 20), (3, 30)] {
        let sw = trigger_stack_to(&mut rt, t, Event::new((t, 0), d)).unwrap();
        assert_eq!(sw, Switch { paused: 0, resumed: t });
        let ctx = rt.stack_context(t);
        assert_eq!(ctx.edi, 0);
        received.push(ctx.esi);
        assert_eq!(rt.event_at(ctx.esi as usize).data, d);
        finish_and_next_stack(&mut rt);
    }
    assert_eq!(received, vec![0, 1, 2]);
    assert_eq!(rt.event_count(), 3);
}

#[test]
fn trigger_from_worker_passes_its_id() {
    let mut rt = LeydiStacks::new();
    rt.new_stack(BODY, TRIG, FIN, RET);
    rt.new_stack(BODY, TRIG, FIN, RET);
    next_stack(&mut rt);
    assert_eq!(get_current_stack_id(&rt), 1);
    let sw = trigger_stack_to(&mut rt, 2, Event::new((1, 2), 5));
    assert_eq!(sw, Some(Switch { paused: 1, resumed: 2 }));
    assert_eq!(rt.stack_context(2).edi, 1);
    assert_eq!(rt.stack_state(1), State::Ready);
}

#[test]
fn trigger_of_self_primes_without_switch() {
    let mut rt = LeydiStacks::new();
    rt.new_stack(BODY, TRIG, FIN, RET);
    next_stack(&mut rt);
    assert_eq!(trigger_stack_to(&mut rt, 1, Event::new((0, 0), 1)), None);
    assert_eq!(get_current_stack_id(&rt), 1);
    assert_eq!(rt.stack_context(1).rsp, (STACK_BUFFER_SIZE - 32) as u64);
    assert_eq!(rt.event_count(), 1);
}

#[test]
fn trigger_main_is_refused() {
    let mut rt = LeydiStacks::new();
    rt.new_stack(BODY, TRIG, FIN, RET);
    let before = states(&rt);
    let ctx = rt.stack_context(0);
    assert_eq!(trigger_stack_to(&mut rt, 0, Event::new((0, 0), 1)), None);
    assert_eq!(states(&rt), before);
    assert_eq!(rt.stack_context(0), ctx);
    assert_eq!(rt.event_count(), 0);
    assert_eq!(get_current_stack_id(&rt), 0);
}

#[test]
fn trigger_past_last_id_is_refused() {
    let mut rt = LeydiStacks::new();
    rt.new_stack(BODY, TRIG, FIN, RET);
    let before = states(&rt);
    assert_eq!(trigger_stack_to(&mut rt, MAX_STACKS + 1, Event::new((0, 0), 1)), None);
    assert_eq!(states(&rt), before);
    assert_eq!(rt.event_count(), 0);
    assert_eq!(get_current_stack_id(&rt), 0);
}

#[test]
fn switch_to_running_fiber_is_refused() {
    let mut rt = LeydiStacks::new();
    rt.new_stack(BODY, TRIG, FIN, RET);
    let before = states(&rt);
    let current = get_current_stack_id(&rt);
    assert_eq!(stack_to(&mut rt, current), None);
    assert_eq!(states(&rt), before);
    assert_eq!(get_current_stack_id(&rt), 0);
}

#[test]
fn switch_there_and_back_restores_caller() {
    let mut rt = LeydiStacks::new();
    rt.new_stack(BODY, TRIG, FIN, RET);
    rt.new_stack(BODY, TRIG, FIN, RET);
    let contexts: Vec<_> = (0..=MAX_STACKS).map(|i| rt.stack_context(i)).collect();
    assert_eq!(stack_to(&mut rt, 2), Some(Switch { paused: 0, resumed: 2 }));
    assert_eq!(rt.stack_state(0), State::Ready);
    assert_eq!(stack_to(&mut rt, 0), Some(Switch { paused: 2, resumed: 0 }));
    assert_eq!(get_current_stack_id(&rt), 0);
    assert_eq!(rt.stack_state(0), State::Running);
    assert_eq!(rt.stack_state(2), State::Ready);
    let after: Vec<_> = (0..=MAX_STACKS).map(|i| rt.stack_context(i)).collect();
    assert_eq!(after, contexts);
}

#[test]
fn yield_with_nothing_ready_keeps_current() {
    let mut rt = LeydiStacks::new();
    let before = get_current_stack_id(&rt);
    assert_eq!(next_stack(&mut rt), None);
    assert_eq!(get_current_stack_id(&rt), before);
    assert_eq!(rt.stack_state(0), State::Running);
}

#[test]
fn finish_on_main_does_nothing() {
    let mut rt = LeydiStacks::new();
    rt.new_stack(BODY, TRIG, FIN, RET);
    let before = states(&rt);
    assert_eq!(finish_and_next_stack(&mut rt), None);
    assert_eq!(states(&rt), before);
}

#[test]
fn fifth_worker_is_reached_by_round_robin() {
    let mut rt = LeydiStacks::new();
    for _ in 0..MAX_STACKS {
        rt.new_stack(BODY, TRIG, FIN, RET);
    }
    let mut log = Vec::new();
    while let Some(sw) = next_stack(&mut rt) {
        log.push(sw.resumed);
        finish_and_next_stack(&mut rt);
    }
    assert_eq!(log, vec![1, 2, 3, 4, 5]);
}

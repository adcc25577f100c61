//! Properties that relate several operations of the runtime, stated over
//! the view that the operations' contracts use.
use vstd::prelude::*;
use crate::context::{Event, State};
use crate::runtime::{lemma_first_in, RuntimeView};
use crate::{MAX_STACKS, PROCESS_MAIN_STACK_ID};

verus! {

/// Exactly one fiber is RUNNING, and it is the current one.
pub proof fn law_one_running(v: RuntimeView)
    requires
        v.wf(),
    ensures
        Set::new(|i: int| 0 <= i < v.states.len() && v.states[i] == State::Running) == set![v.curr],
{
    assert(Set::new(|i: int| 0 <= i < v.states.len() && v.states[i] == State::Running) =~= set![v.curr]);
}

/// The main fiber RUNNING, fibers `1..=j` finished, `j+1..=k` spawned and
/// READY, and the rest never used.
pub open spec fn spawned_run(v: RuntimeView, j: int, k: int) -> bool {
    &&& v.wf()
    &&& 0 <= j <= k <= MAX_STACKS
    &&& v.curr == PROCESS_MAIN_STACK_ID
    &&& forall|i: int| 1 <= i <= j ==> #[trigger] v.states[i] == State::Available
    &&& forall|i: int| j < i <= k ==> #[trigger] v.states[i] == State::Ready
    &&& forall|i: int| k < i <= MAX_STACKS ==> #[trigger] v.states[i] == State::Available
}

/// Spawning into a fresh runtime fills the slots in id order: after `k`
/// spawns the next one takes id `k + 1`.
pub proof fn law_spawn_in_id_order(v: RuntimeView, k: int, body: u64, trigger: u64, finish: u64, ret_thunk: u64)
    requires
        spawned_run(v, 0, k),
        k < MAX_STACKS,
    ensures
        spawned_run(RuntimeView::initial(), 0, 0),
        v.free_slot() == Some(k + 1),
        spawned_run(v.spawned(k + 1, body, trigger, finish, ret_thunk), 0, k + 1),
{
    let s0 = RuntimeView::initial();
    assert(s0.wf());
    lemma_first_in(v.states, State::Available, 0);
    assert(v.states[k + 1] == State::Available);
    let f = v.free_slot()->0;
    assert(f == k + 1) by {
        if f < k + 1 {
            assert(v.states[f] == State::Available);
        }
    }
}

/// Running the bodies spawned into a fresh runtime executes each once, in
/// id order, and then returns: with `1..=j` done and `j+1..=k` READY,
/// round robin picks `j + 1`; when that body returns, control comes back to
/// the main fiber with `1..=j+1` done; with all `k` done round robin finds
/// nothing.
pub proof fn law_run_in_id_order(v: RuntimeView, j: int, k: int)
    requires
        spawned_run(v, j, k),
    ensures
        j == k ==> v.rr_pick() is None,
        j < k ==> {
            let w = v.switched(j + 1);
            &&& v.rr_pick() == Some(j + 1)
            &&& w.curr == j + 1
            &&& w.finished().rr_pick() == Some(PROCESS_MAIN_STACK_ID as int)
            &&& spawned_run(w.finished().switched(PROCESS_MAIN_STACK_ID as int), j + 1, k)
        },
{
    lemma_first_in(v.states, State::Ready, 0);
    if j < k {
        let p = v.rr_pick()->0;
        assert(v.states[j + 1] == State::Ready);
        assert(p == j + 1) by {
            if p < j + 1 {
                assert(v.states[p] == State::Ready);
            }
        }
        let w = v.switched(j + 1);
        lemma_first_in(w.finished().states, State::Ready, 0);
        assert(w.finished().states[0] == State::Ready);
        let u = w.finished().switched(0);
        assert(u.wf());
    } else {
        assert(v.rr_pick() is None) by {
            if v.rr_pick() is Some {
                let p = v.rr_pick()->0;
                assert(v.states[p] == State::Ready);
            }
        }
    }
}

/// A switch from the current fiber to `i`, then from `i` back, restores
/// the caller: it is current and RUNNING again, every saved record, stack
/// and event is as before, and `i` is left READY.
pub proof fn law_switch_round_trip(v: RuntimeView, i: int)
    requires
        v.wf(),
        0 <= i <= MAX_STACKS,
        i != v.curr,
    ensures
        v.switched(i).switched(v.curr).curr == v.curr,
        v.switched(i).switched(v.curr).states == v.states.update(i, State::Ready),
        v.switched(i).switched(v.curr).contexts == v.contexts,
        v.switched(i).switched(v.curr).buffers == v.buffers,
        v.switched(i).switched(v.curr).events == v.events,
{
    let w = v.switched(i);
    assert(w.states[i] == State::Running);
    assert(w.switched(v.curr).states =~= v.states.update(i, State::Ready));
}

/// Event indices follow the order of triggers without gaps: whatever
/// switches happen in between, a trigger hands its entry the index after
/// the one the previous trigger handed out.
pub proof fn law_event_indices_consecutive(v: RuntimeView, a: int, e1: Event, s: int, b: int, e2: Event)
    requires
        v.wf(),
        1 <= a <= MAX_STACKS,
        1 <= b <= MAX_STACKS,
        0 <= s <= MAX_STACKS,
        v.events.len() + 1 < usize::MAX,
    ensures
        v.triggered(a, e1).switched(s).triggered(b, e2).contexts[b].esi == v.triggered(a, e1).contexts[a].esi + 1,
        v.triggered(a, e1).switched(s).triggered(b, e2).events == v.events.push(e1).push(e2),
{
}

} // verus!

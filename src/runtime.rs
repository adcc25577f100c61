//! The fiber table, the scheduler and the operations fibers call.
use vstd::prelude::*;
use crate::context::{Event, StackContext, State};
use crate::events::ShareBuffer;
use crate::frame::{frame_words, primed_buffer, write_frame};
use crate::{BODY_OFFSET, MAX_STACKS, PROCESS_MAIN_STACK_ID, STACK_BUFFER_SIZE, TRIGGER_OFFSET};

verus! {

/// How the scheduler picks the next fiber.
pub enum ScheduleType {
    /// The lowest-numbered READY fiber.
    RR,
    /// The given fiber.
    O1(usize),
}

/// A context switch decided by the runtime: the host saves the registers
/// into `paused`'s record and loads them from `resumed`'s.
#[derive(Clone, Copy, Debug, PartialEq, Eq, Structural)]
pub struct Switch {
    pub paused: usize,
    pub resumed: usize,
}

/// One fiber.
pub struct Stack {
    stack_id: usize,
    state: State,
    stack_buffer: Vec<u8>,
    stack_context: StackContext,
}

impl Stack {
    pub closed spec fn spec_id(&self) -> usize {
        self.stack_id
    }

    pub closed spec fn spec_state(&self) -> State {
        self.state
    }

    pub closed spec fn spec_buffer(&self) -> Seq<u8> {
        self.stack_buffer@
    }

    pub closed spec fn spec_context(&self) -> StackContext {
        self.stack_context
    }

    /// A fiber with a zeroed stack buffer and a zeroed register record.
    pub fn new(stack_id: usize, state: State) -> (r: Stack)
        ensures
            r.spec_id() == stack_id,
            r.spec_state() == state,
            r.spec_buffer() == Seq::new(STACK_BUFFER_SIZE as nat, |i: int| 0u8),
            r.spec_context() == StackContext::spec_zeroed(),
    {
        let stack_buffer = vec![0u8; STACK_BUFFER_SIZE];
        assert(stack_buffer@ =~= Seq::new(STACK_BUFFER_SIZE as nat, |i: int| 0u8));
        Stack { stack_id, stack_buffer, stack_context: StackContext::zeroed(), state }
    }
}

/// The runtime as a mathematical value.
pub struct RuntimeView {
    /// State of each fiber, by id.
    pub states: Seq<State>,
    /// Saved register record of each fiber, by id.
    pub contexts: Seq<StackContext>,
    /// Stack buffer of each fiber, by id.
    pub buffers: Seq<Seq<u8>>,
    /// Id of the running fiber.
    pub curr: int,
    /// The events appended so far; an event's index is its position.
    pub events: Seq<Event>,
}

/// Stack pointer, as an offset in the buffer, of a freshly spawned fiber.
pub open spec fn body_rsp() -> u64 {
    (STACK_BUFFER_SIZE - BODY_OFFSET) as u64
}

/// Stack pointer, as an offset in the buffer, of a triggered fiber.
pub open spec fn trigger_rsp() -> u64 {
    (STACK_BUFFER_SIZE - TRIGGER_OFFSET) as u64
}

/// The lowest index at or above `from` whose state is `st`.
pub open spec fn first_in(s: Seq<State>, st: State, from: int) -> Option<int>
    decreases s.len() - from,
{
    if from >= s.len() {
        None
    } else if from >= 0 && s[from] == st {
        Some(from)
    } else {
        first_in(s, st, from + 1)
    }
}

pub proof fn lemma_first_in(s: Seq<State>, st: State, from: int)
    requires
        0 <= from <= s.len(),
    ensures
        first_in(s, st, from) matches Some(i) ==> from <= i < s.len() && s[i] == st
            && forall|j: int| from <= j < i ==> s[j] != st,
        first_in(s, st, from) is None ==> forall|j: int| from <= j < s.len() ==> s[j] != st,
    decreases s.len() - from,
{
    if from < s.len() {
        lemma_first_in(s, st, from + 1);
    }
}

impl RuntimeView {
    /// The table's shape and the runtime's invariants: exactly one fiber
    /// is RUNNING and it is `curr`; the main fiber is never AVAILABLE; each
    /// saved stack pointer lies inside its own buffer, on a 16-byte boundary.
    pub open spec fn wf(self) -> bool {
        &&& self.shape()
        &&& forall|i: int| 0 <= i < self.states.len() ==> (#[trigger] self.states[i] == State::Running <==> i == self.curr)
        &&& self.states[PROCESS_MAIN_STACK_ID as int] != State::Available
    }

    /// Sizes, ranges and stack pointers, without the state invariants.
    pub open spec fn shape(self) -> bool {
        &&& self.states.len() == MAX_STACKS + 1
        &&& self.contexts.len() == MAX_STACKS + 1
        &&& self.buffers.len() == MAX_STACKS + 1
        &&& 0 <= self.curr <= MAX_STACKS
        &&& forall|i: int| 0 <= i < self.buffers.len() ==> (#[trigger] self.buffers[i]).len() == STACK_BUFFER_SIZE
        &&& forall|i: int| 0 <= i < self.contexts.len() ==> (#[trigger] self.contexts[i]).rsp < STACK_BUFFER_SIZE
        &&& forall|i: int| 0 <= i < self.contexts.len() ==> (#[trigger] self.contexts[i]).rsp % 16 == 0
    }

    /// What a switch to `t` does: `t` becomes RUNNING and current; the
    /// outgoing fiber becomes READY unless it is AVAILABLE (it finished) or
    /// is `t` itself.
    pub open spec fn switched(self, t: int) -> RuntimeView {
        let out = if self.states[self.curr] == State::Available || self.curr == t {
            self.states
        } else {
            self.states.update(self.curr, State::Ready)
        };
        RuntimeView { states: out.update(t, State::Running), curr: t, ..self }
    }

    /// The fiber round-robin selection picks: the lowest READY id.
    pub open spec fn rr_pick(self) -> Option<int> {
        first_in(self.states, State::Ready, 0)
    }

    /// The lowest AVAILABLE id, where `spawn` primes.
    pub open spec fn free_slot(self) -> Option<int> {
        first_in(self.states, State::Available, 0)
    }

    /// Fiber `t` made READY with the chain of the given entries on its
    /// stack and its stack pointer at the body.
    pub open spec fn spawned(self, t: int, body: u64, trigger: u64, finish: u64, ret_thunk: u64) -> RuntimeView {
        RuntimeView {
            states: self.states.update(t, State::Ready),
            contexts: self.contexts.update(t, StackContext { rsp: body_rsp(), ..self.contexts[t] }),
            buffers: self.buffers.update(
                t,
                primed_buffer(self.buffers[t], frame_words(body, trigger, finish, ret_thunk)),
            ),
            ..self
        }
    }

    /// Fiber `t` set to resume at its trigger entry with the caller's id and
    /// the new event's index as arguments, and `e` appended.
    pub open spec fn triggered(self, t: int, e: Event) -> RuntimeView {
        RuntimeView {
            contexts: self.contexts.update(
                t,
                StackContext {
                    rsp: trigger_rsp(),
                    edi: self.curr as u64,
                    esi: self.events.len() as u64,
                    ..self.contexts[t]
                },
            ),
            events: self.events.push(e),
            ..self
        }
    }

    /// Every worker AVAILABLE and the main fiber READY.
    pub open spec fn terminated(self) -> RuntimeView {
        RuntimeView {
            states: Seq::new(
                (MAX_STACKS + 1) as nat,
                |i: int| if i == PROCESS_MAIN_STACK_ID { State::Ready } else { State::Available },
            ),
            ..self
        }
    }

    /// The current fiber released.
    pub open spec fn finished(self) -> RuntimeView {
        RuntimeView { states: self.states.update(self.curr, State::Available), ..self }
    }

    /// A runtime just built: main RUNNING, every worker AVAILABLE, zeroed
    /// stacks and records, no events.
    pub open spec fn initial() -> RuntimeView {
        RuntimeView {
            states: Seq::new(
                (MAX_STACKS + 1) as nat,
                |i: int| if i == PROCESS_MAIN_STACK_ID { State::Running } else { State::Available },
            ),
            contexts: Seq::new((MAX_STACKS + 1) as nat, |i: int| StackContext::spec_zeroed()),
            buffers: Seq::new(
                (MAX_STACKS + 1) as nat,
                |i: int| Seq::new(STACK_BUFFER_SIZE as nat, |j: int| 0u8),
            ),
            curr: PROCESS_MAIN_STACK_ID as int,
            events: Seq::empty(),
        }
    }
}

/// The runtime: the fiber pool, the running fiber's id and the event buffer.
pub struct LeydiStacks {
    stack_pool: Vec<Stack>,
    curr_stack_id: usize,
    data_buffer: ShareBuffer,
}

impl View for LeydiStacks {
    type V = RuntimeView;

    closed spec fn view(&self) -> RuntimeView {
        RuntimeView {
            states: self.stack_pool@.map_values(|s: Stack| s.state),
            contexts: self.stack_pool@.map_values(|s: Stack| s.stack_context),
            buffers: self.stack_pool@.map_values(|s: Stack| s.stack_buffer@),
            curr: self.curr_stack_id as int,
            events: self.data_buffer@,
        }
    }
}

impl LeydiStacks {
    /// Each slot holds the fiber of its own id and the event buffer is
    /// consistent.
    pub closed spec fn slots_ok(&self) -> bool {
        &&& self.stack_pool@.len() == MAX_STACKS + 1
        &&& forall|i: int| 0 <= i < self.stack_pool@.len() ==> (#[trigger] self.stack_pool@[i]).stack_id == i
        &&& self.data_buffer.wf()
    }

    /// The runtime's invariant.
    pub open spec fn wf(&self) -> bool {
        self.slots_ok() && self@.wf()
    }

    /// What a switch needs: no fiber but `curr` is RUNNING and main is not
    /// AVAILABLE; `curr` itself may be in any state.
    pub open spec fn switchable(&self) -> bool {
        &&& self.slots_ok()
        &&& self@.shape()
        &&& forall|i: int| 0 <= i < self@.states.len() && i != self@.curr ==> #[trigger] self@.states[i] != State::Running
        &&& self@.states[PROCESS_MAIN_STACK_ID as int] != State::Available
    }

    /// A runtime with the main fiber RUNNING and every worker AVAILABLE.
    pub fn new() -> (r: LeydiStacks)
        ensures
            r.wf(),
            r@ == RuntimeView::initial(),
    {
        let mut stack_pool: Vec<Stack> = Vec::with_capacity(MAX_STACKS + 1);
        stack_pool.push(Stack::new(PROCESS_MAIN_STACK_ID, State::Running));
        let mut i: usize = 1;
        while i <= MAX_STACKS
            invariant
                1 <= i <= MAX_STACKS + 1,
                stack_pool@.len() == i,
                forall|j: int| 0 <= j < i ==> (#[trigger] stack_pool@[j]).stack_id == j,
                forall|j: int| 0 <= j < i ==> (#[trigger] stack_pool@[j]).state == RuntimeView::initial().states[j],
                forall|j: int| 0 <= j < i ==> (#[trigger] stack_pool@[j]).stack_context == StackContext::spec_zeroed(),
                forall|j: int| 0 <= j < i ==> (#[trigger] stack_pool@[j]).stack_buffer@ == Seq::new(STACK_BUFFER_SIZE as nat, |k: int| 0u8),
            decreases MAX_STACKS + 1 - i,
        {
            stack_pool.push(Stack::new(i, State::Available));
            i = i + 1;
        }
        let r = LeydiStacks {
            stack_pool,
            curr_stack_id: PROCESS_MAIN_STACK_ID,
            data_buffer: ShareBuffer::new(),
        };
        assert(r@.states =~= RuntimeView::initial().states);
        assert(r@.contexts =~= RuntimeView::initial().contexts);
        assert(r@.buffers =~= RuntimeView::initial().buffers);
        r
    }

    /// Whether some fiber is AVAILABLE, so that `new_stack` may be called.
    pub fn has_available_stack(&self) -> (r: bool)
        requires
            self.wf(),
        ensures
            r == (self@.free_slot() is Some),
    {
        self.find_state(State::Available).is_some()
    }

    /// The lowest id whose state is `st`.
    fn find_state(&self, st: State) -> (r: Option<usize>)
        requires
            self.slots_ok(),
            self@.states.len() == MAX_STACKS + 1,
        ensures
            r matches Some(i) ==> first_in(self@.states, st, 0) == Some(i as int),
            r is None ==> first_in(self@.states, st, 0) is None,
    {
        let mut i: usize = 0;
        while i < self.stack_pool.len() && self.stack_pool[i].state != st
            invariant
                0 <= i <= self.stack_pool@.len(),
                self.stack_pool@.len() == MAX_STACKS + 1,
                self@.states.len() == MAX_STACKS + 1,
                first_in(self@.states, st, 0) == first_in(self@.states, st, i as int),
            decreases self.stack_pool@.len() - i,
        {
            assert(self@.states[i as int] == self.stack_pool@[i as int].state);
            i = i + 1;
        }
        if i < self.stack_pool.len() {
            assert(self@.states[i as int] == self.stack_pool@[i as int].state);
            Some(i)
        } else {
            None
        }
    }

    /// Performs the bookkeeping of a switch to `t`.
    fn switch_to_id(&mut self, t: usize) -> (sw: Switch)
        requires
            old(self).switchable(),
            t <= MAX_STACKS,
        ensures
            final(self).wf(),
            final(self)@ == old(self)@.switched(t as int),
            sw == (Switch { paused: old(self)@.curr as usize, resumed: t }),
    {
        let ghost v0 = self@;
        let paused = self.curr_stack_id;
        if self.stack_pool[paused].state != State::Available && paused != t {
            self.stack_pool[paused].state = State::Ready;
        }
        self.stack_pool[t].state = State::Running;
        self.curr_stack_id = t;
        assert(self@.states =~= v0.switched(t as int).states);
        assert(self@.contexts =~= v0.contexts);
        assert(self@.buffers =~= v0.buffers);
        Switch { paused, resumed: t }
    }

    /// Selects the next fiber by `schedule_type` and switches to it. Round
    /// robin returns `None`, changing nothing, when no fiber is READY; a
    /// targeted switch always happens.
    fn switch_stack(&mut self, schedule_type: ScheduleType) -> (r: Option<Switch>)
        requires
            old(self).switchable(),
            schedule_type matches ScheduleType::O1(id) ==> id <= MAX_STACKS,
        ensures
            ({
                let t = match schedule_type {
                    ScheduleType::RR => old(self)@.rr_pick(),
                    ScheduleType::O1(id) => Some(id as int),
                };
                match t {
                    None => r is None && *final(self) == *old(self),
                    Some(t) => {
                        &&& final(self).wf()
                        &&& final(self)@ == old(self)@.switched(t)
                        &&& r == Some(Switch { paused: old(self)@.curr as usize, resumed: t as usize })
                    },
                }
            }),
    {
        let ready_stack_id = match schedule_type {
            ScheduleType::RR => match self.find_state(State::Ready) {
                Some(i) => i,
                None => {
                    return None;
                },
            },
            ScheduleType::O1(id) => id,
        };
        proof {
            lemma_first_in(self@.states, State::Ready, 0);
        }
        Some(self.switch_to_id(ready_stack_id))
    }

    /// Primes the lowest AVAILABLE fiber: it becomes READY, its stack holds
    /// the call chain of the given entry addresses, and its stack pointer
    /// points at the body. Returns its id.
    ///
    /// `finish` is the address of the step that releases a fiber whose entry
    /// returned, and `ret_thunk` that of a bare `ret`.
    pub fn new_stack(
        &mut self,
        base_function: u64,
        trigger_function: u64,
        finish: u64,
        ret_thunk: u64,
    ) -> (id: usize)
        requires
            old(self).wf(),
            old(self)@.free_slot() is Some,
        ensures
            final(self).wf(),
            old(self)@.free_slot() == Some(id as int),
            final(self)@ == old(self)@.spawned(id as int, base_function, trigger_function, finish, ret_thunk),
    {
        let ghost v0 = self@;
        let id = match self.find_state(State::Available) {
            Some(i) => i,
            // Not reached: the precondition says a slot is free.
            None => {
                proof {
                    lemma_first_in(v0.states, State::Available, 0);
                }
                0
            },
        };
        proof {
            lemma_first_in(v0.states, State::Available, 0);
        }
        self.stack_pool[id].state = State::Ready;
        let words: Vec<u64> = vec![
            base_function,
            ret_thunk,
            finish,
            ret_thunk,
            trigger_function,
            ret_thunk,
            finish,
        ];
        assert(words@ =~= frame_words(base_function, trigger_function, finish, ret_thunk));
        assert(self.stack_pool@[id as int].stack_buffer@ == v0.buffers[id as int]);
        assert(self.stack_pool[id as int].stack_buffer@.len() == STACK_BUFFER_SIZE);
        write_frame(&mut self.stack_pool[id].stack_buffer, &words);
        self.stack_pool[id].stack_context.rsp = (STACK_BUFFER_SIZE - BODY_OFFSET) as u64;
        let ghost v1 = v0.spawned(id as int, base_function, trigger_function, finish, ret_thunk);
        assert(self@.states =~= v1.states);
        assert(self@.contexts =~= v1.contexts);
        assert(self@.buffers =~= v1.buffers);
        id
    }

    /// Releases every worker and switches to the main fiber.
    pub fn terminate_stacks(&mut self) -> (sw: Switch)
        requires
            old(self).wf(),
        ensures
            final(self).wf(),
            final(self)@ == old(self)@.terminated().switched(PROCESS_MAIN_STACK_ID as int),
            sw == (Switch { paused: old(self)@.curr as usize, resumed: PROCESS_MAIN_STACK_ID }),
    {
        let ghost v0 = self@;
        let mut i: usize = 0;
        while i < self.stack_pool.len()
            invariant
                0 <= i <= self.stack_pool@.len(),
                self.slots_ok(),
                self@.shape(),
                self@.curr == v0.curr,
                self@.contexts == v0.contexts,
                self@.buffers == v0.buffers,
                self@.events == v0.events,
                v0.states.len() == MAX_STACKS + 1,
                forall|j: int| 0 <= j < i ==> #[trigger] self@.states[j] == State::Available,
                forall|j: int| i <= j < self@.states.len() ==> #[trigger] self@.states[j] == v0.states[j],
            decreases self.stack_pool@.len() - i,
        {
            let ghost s = self@.states;
            self.stack_pool[i].state = State::Available;
            assert(self@.states =~= s.update(i as int, State::Available));
            assert(self@.contexts =~= v0.contexts);
            assert(self@.buffers =~= v0.buffers);
            i = i + 1;
        }
        let ghost s = self@.states;
        self.stack_pool[PROCESS_MAIN_STACK_ID].state = State::Ready;
        assert(self@.states =~= s.update(0, State::Ready));
        assert(self@.states =~= v0.terminated().states);
        assert(self@.contexts =~= v0.contexts);
        assert(self@.buffers =~= v0.buffers);
        assert(first_in(self@.states, State::Ready, 0) == Some(0int));
        match self.switch_stack(ScheduleType::RR) {
            Some(sw) => sw,
            // Not reached: the main fiber was just made READY.
            None => Switch { paused: 0, resumed: 0 },
        }
    }

    /// Switches to fiber `stack_id`, unless it is already RUNNING: then
    /// returns `None` and changes nothing.
    pub fn switch_stack_to(&mut self, stack_id: usize) -> (r: Option<Switch>)
        requires
            old(self).wf(),
            stack_id <= MAX_STACKS,
        ensures
            final(self).wf(),
            old(self)@.states[stack_id as int] == State::Running ==> r is None && *final(self) == *old(self),
            old(self)@.states[stack_id as int] != State::Running ==> {
                &&& final(self)@ == old(self)@.switched(stack_id as int)
                &&& r == Some(Switch { paused: old(self)@.curr as usize, resumed: stack_id })
            },
    {
        if self.stack_pool[stack_id].state == State::Running {
            return None;
        }
        self.switch_stack(ScheduleType::O1(stack_id))
    }

    /// Triggers fiber `target_stack_id`: its stack pointer is moved to its
    /// trigger entry, `event` is appended, the caller's id and the event's
    /// index become the entry's arguments, and control switches to it.
    ///
    /// The main fiber and ids above `MAX_STACKS` are refused: `None`, with
    /// nothing changed. A fiber triggering itself is primed but not switched
    /// to.
    pub fn trigger_stack_func(&mut self, target_stack_id: usize, event: Event) -> (r: Option<Switch>)
        requires
            old(self).wf(),
            old(self)@.events.len() < usize::MAX,
        ensures
            final(self).wf(),
            target_stack_id == PROCESS_MAIN_STACK_ID || target_stack_id > MAX_STACKS ==> r is None
                && *final(self) == *old(self),
            PROCESS_MAIN_STACK_ID < target_stack_id <= MAX_STACKS ==> {
                let v = old(self)@.triggered(target_stack_id as int, event);
                &&& final(self)@.events.len() == old(self)@.events.len() + 1
                &&& final(self)@.contexts[target_stack_id as int].esi == old(self)@.events.len()
                &&& if target_stack_id == old(self)@.curr {
                    r is None && final(self)@ == v
                } else {
                    final(self)@ == v.switched(target_stack_id as int)
                        && r == Some(Switch { paused: old(self)@.curr as usize, resumed: target_stack_id })
                }
            },
    {
        if target_stack_id <= PROCESS_MAIN_STACK_ID || target_stack_id > MAX_STACKS {
            return None;
        }
        let ghost v0 = self@;
        let from = self.curr_stack_id;
        self.stack_pool[target_stack_id].stack_context.rsp = (STACK_BUFFER_SIZE - TRIGGER_OFFSET) as u64;
        let index = self.data_buffer.push_event(event);
        self.stack_pool[target_stack_id].stack_context.edi = from as u64;
        self.stack_pool[target_stack_id].stack_context.esi = index as u64;
        let ghost v1 = v0.triggered(target_stack_id as int, event);
        assert(self@.states =~= v1.states);
        assert(self@.contexts =~= v1.contexts);
        assert(self@.buffers =~= v1.buffers);
        assert(self@ == v1);
        self.switch_stack_to(target_stack_id)
    }

    /// The state of fiber `id`.
    pub fn stack_state(&self, id: usize) -> (r: State)
        requires
            self.wf(),
            id <= MAX_STACKS,
        ensures
            r == self@.states[id as int],
    {
        self.stack_pool[id].state
    }

    /// The saved register record of fiber `id`.
    pub fn stack_context(&self, id: usize) -> (r: StackContext)
        requires
            self.wf(),
            id <= MAX_STACKS,
        ensures
            r == self@.contexts[id as int],
    {
        self.stack_pool[id].stack_context
    }

    /// The stack buffer of fiber `id`.
    pub fn stack_buffer(&self, id: usize) -> (r: &Vec<u8>)
        requires
            self.wf(),
            id <= MAX_STACKS,
        ensures
            r@ == self@.buffers[id as int],
    {
        &self.stack_pool[id].stack_buffer
    }

    /// Number of events triggered so far; the next one gets this index.
    pub fn event_count(&self) -> (r: usize)
        requires
            self.wf(),
        ensures
            r == self@.events.len(),
    {
        self.data_buffer.len()
    }

    /// The event stored at `index`.
    pub fn event_at(&self, index: usize) -> (r: Event)
        requires
            self.wf(),
            index < self@.events.len(),
        ensures
            r == self@.events[index as int],
    {
        self.data_buffer.get(index)
    }
}

/// Yields: switches to the lowest READY fiber, or returns `None` and
/// changes nothing when no fiber is READY.
pub fn next_stack(rt: &mut LeydiStacks) -> (r: Option<Switch>)
    requires
        old(rt).wf(),
    ensures
        final(rt).wf(),
        match old(rt)@.rr_pick() {
            None => r is None && *final(rt) == *old(rt),
            Some(t) => final(rt)@ == old(rt)@.switched(t)
                && r == Some(Switch { paused: old(rt)@.curr as usize, resumed: t as usize }),
        },
{
    rt.switch_stack(ScheduleType::RR)
}

/// Releases every worker and switches to the main fiber.
pub fn goto_main(rt: &mut LeydiStacks) -> (sw: Switch)
    requires
        old(rt).wf(),
    ensures
        final(rt).wf(),
        final(rt)@ == old(rt)@.terminated().switched(PROCESS_MAIN_STACK_ID as int),
        sw == (Switch { paused: old(rt)@.curr as usize, resumed: PROCESS_MAIN_STACK_ID }),
        final(rt)@.curr == PROCESS_MAIN_STACK_ID,
        forall|i: int| PROCESS_MAIN_STACK_ID < i <= MAX_STACKS ==> #[trigger] final(rt)@.states[i] == State::Available,
{
    rt.terminate_stacks()
}

/// Switches to fiber `id`; `None`, with nothing changed, when it is already
/// RUNNING.
pub fn stack_to(rt: &mut LeydiStacks, id: usize) -> (r: Option<Switch>)
    requires
        old(rt).wf(),
        id <= MAX_STACKS,
    ensures
        final(rt).wf(),
        id == old(rt)@.curr ==> r is None && *final(rt) == *old(rt),
        id != old(rt)@.curr ==> final(rt)@ == old(rt)@.switched(id as int)
            && r == Some(Switch { paused: old(rt)@.curr as usize, resumed: id }),
{
    rt.switch_stack_to(id)
}

/// Triggers fiber `id` with `event`; see [`LeydiStacks::trigger_stack_func`].
pub fn trigger_stack_to(rt: &mut LeydiStacks, id: usize, event: Event) -> (r: Option<Switch>)
    requires
        old(rt).wf(),
        old(rt)@.events.len() < usize::MAX,
    ensures
        final(rt).wf(),
        id == PROCESS_MAIN_STACK_ID || id > MAX_STACKS ==> r is None && *final(rt) == *old(rt),
        PROCESS_MAIN_STACK_ID < id <= MAX_STACKS ==> {
            let v = old(rt)@.triggered(id as int, event);
            &&& final(rt)@.events.len() == old(rt)@.events.len() + 1
            &&& final(rt)@.contexts[id as int].esi == old(rt)@.events.len()
            &&& if id == old(rt)@.curr {
                r is None && final(rt)@ == v
            } else {
                final(rt)@ == v.switched(id as int)
                    && r == Some(Switch { paused: old(rt)@.curr as usize, resumed: id })
            }
        },
{
    rt.trigger_stack_func(id, event)
}

/// The id of the running fiber.
pub fn get_current_stack_id(rt: &LeydiStacks) -> (r: usize)
    ensures
        r == rt@.curr,
{
    rt.curr_stack_id
}

/// Runs when a fiber's entry function returns: a worker is released and
/// control passes to the lowest READY fiber (there is always one, the main
/// fiber at the latest). On the main fiber it does nothing.
pub fn finish_and_next_stack(rt: &mut LeydiStacks) -> (r: Option<Switch>)
    requires
        old(rt).wf(),
    ensures
        final(rt).wf(),
        old(rt)@.curr == PROCESS_MAIN_STACK_ID ==> r is None && *final(rt) == *old(rt),
        old(rt)@.curr != PROCESS_MAIN_STACK_ID ==> {
            &&& old(rt)@.finished().rr_pick() is Some
            &&& final(rt)@ == old(rt)@.finished().switched(old(rt)@.finished().rr_pick()->0)
            &&& r == Some(Switch { paused: old(rt)@.curr as usize, resumed: old(rt)@.finished().rr_pick()->0 as usize })
        },
{
    if rt.curr_stack_id == PROCESS_MAIN_STACK_ID {
        return None;
    }
    let ghost v0 = rt@;
    let curr = rt.curr_stack_id;
    let ghost s = rt@.states;
    rt.stack_pool[curr].state = State::Available;
    assert(rt@.states =~= s.update(curr as int, State::Available));
    assert(rt@.contexts =~= v0.contexts);
    assert(rt@.buffers =~= v0.buffers);
    assert(rt@ == v0.finished());
    proof {
        lemma_first_in(rt@.states, State::Ready, 0);
        assert(rt@.states[0] == State::Ready);
    }
    rt.switch_stack(ScheduleType::RR)
}

} // verus!
use vstd::prelude::*;
use crate::context::Event;
use crate::DATA_SHARE_BUFFER_SIZE;

verus! {

/// The append-only event buffer. `avaiable_index` is the index the next
/// appended event gets.
pub struct ShareBuffer {
    data_pool: Vec<Event>,
    avaiable_index: usize,
}

impl View for ShareBuffer {
    type V = Seq<Event>;

    closed spec fn view(&self) -> Seq<Event> {
        self.data_pool@
    }
}

impl ShareBuffer {
    /// The next index always equals the number of events appended so far.
    pub closed spec fn wf(&self) -> bool {
        self.avaiable_index == self.data_pool@.len()
    }

    pub fn new() -> (r: ShareBuffer)
        ensures
            r.wf(),
            r@ == Seq::<Event>::empty(),
    {
        let data_pool = Vec::<Event>::with_capacity(DATA_SHARE_BUFFER_SIZE);
        ShareBuffer { data_pool, avaiable_index: 0 }
    }

    /// Appends `event` and returns the index it was stored at.
    pub fn push_event(&mut self, event: Event) -> (idx: usize)
        requires
            old(self).wf(),
            old(self)@.len() < usize::MAX,
        ensures
            final(self).wf(),
            idx == old(self)@.len(),
            final(self)@ == old(self)@.push(event),
    {
        let idx = self.avaiable_index;
        self.data_pool.push(event);
        self.avaiable_index = idx + 1;
        idx
    }

    /// Number of events appended so far.
    pub fn len(&self) -> (r: usize)
        requires
            self.wf(),
        ensures
            r == self@.len(),
    {
        self.avaiable_index
    }

    /// The event stored at `index`.
    pub fn get(&self, index: usize) -> (r: Event)
        requires
            index < self@.len(),
        ensures
            r == self@[index as int],
    {
        self.data_pool[index]
    }
}

} // verus!

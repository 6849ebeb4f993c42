use std::collections::HashMap;
use vstd::prelude::*;

use crate::value::{SharedValue, TypeId};

verus! {

broadcast use vstd::std_specs::hash::group_hash_axioms;

/// Per-type FIFO queues of inbound messages.
pub struct Mailbox {
    queues: HashMap<TypeId, Vec<SharedValue>>,
}

impl Mailbox {
    /// The queue for `ty`, oldest first; empty when nothing was queued.
    pub closed spec fn queue(&self, ty: TypeId) -> Seq<SharedValue> {
        if self.queues@.contains_key(ty) {
            self.queues@[ty]@
        } else {
            Seq::empty()
        }
    }
}

impl View for Mailbox {
    type V = Map<TypeId, Seq<SharedValue>>;

    open spec fn view(&self) -> Map<TypeId, Seq<SharedValue>> {
        Map::new(|ty: TypeId| true, |ty: TypeId| self.queue(ty))
    }
}

impl Mailbox {
    pub fn new() -> (r: Self)
        ensures
            forall|ty: TypeId| #[trigger] r@[ty] == Seq::<SharedValue>::empty(),
    {
        Mailbox { queues: HashMap::new() }
    }

    /// Appends `message` to the queue of `ty`.
    pub fn enqueue(&mut self, ty: TypeId, message: SharedValue)
        ensures
            final(self)@ == old(self)@.insert(ty, old(self)@[ty].push(message)),
    {
        let mut queue = match self.queues.remove(&ty) {
            Some(q) => q,
            None => Vec::new(),
        };
        queue.push(message);
        self.queues.insert(ty, queue);
        assert(final(self)@ =~= old(self)@.insert(ty, old(self)@[ty].push(message)));
    }

    /// Takes the oldest message of `ty`, if there is one.
    pub fn pop(&mut self, ty: TypeId) -> (r: Option<SharedValue>)
        ensures
            old(self)@[ty].len() == 0 ==> r is None && final(self)@ == old(self)@,
            old(self)@[ty].len() > 0 ==> r == Some(old(self)@[ty][0]) && final(self)@ == old(
                self,
            )@.insert(ty, old(self)@[ty].drop_first()),
    {
        match self.queues.remove(&ty) {
            Some(mut queue) => {
                if queue.len() == 0 {
                    assert(queue@ =~= Seq::<SharedValue>::empty());
                    assert(final(self)@ =~= old(self)@);
                    None
                } else {
                    let first = queue.remove(0);
                    self.queues.insert(ty, queue);
                    assert(final(self)@ =~= old(self)@.insert(ty, old(self)@[ty].drop_first()));
                    Some(first)
                }
            },
            None => {
                assert(final(self)@ =~= old(self)@);
                None
            },
        }
    }

    /// Removes every message of `ty`, oldest first.
    pub fn drain(&mut self, ty: TypeId) -> (r: Vec<SharedValue>)
        ensures
            r@ == old(self)@[ty],
            final(self)@ == old(self)@.insert(ty, Seq::empty()),
    {
        let r = match self.queues.remove(&ty) {
            Some(queue) => queue,
            None => Vec::new(),
        };
        assert(final(self)@ =~= old(self)@.insert(ty, Seq::empty()));
        r
    }

    /// How many messages of `ty` are queued.
    pub fn len(&self, ty: TypeId) -> (r: usize)
        ensures
            r == self@[ty].len(),
    {
        match self.queues.get(&ty) {
            Some(q) => q.len(),
            None => 0,
        }
    }
}

} // verus!

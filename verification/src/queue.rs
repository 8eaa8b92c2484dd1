//! The action-ingestion contract: a bounded queue of player intents.
//!
//! Producers enqueue one intent at a time; `try_send` refuses when the
//! queue stands at capacity, which is the signal on which a producer
//! must suspend until the scheduler drains a slot. The scheduler drains
//! the whole queue once per tick, in arrival order.

use vstd::prelude::*;
use crate::entities::ShipAction;
use crate::slotmap::dup_vec;

verus! {

/// A bounded multi-producer queue of pending player intents.
pub struct ActionQueue {
    pub buf: Vec<ShipAction>,
    pub cap: usize,
}

impl ActionQueue {
    /// An empty queue of capacity `cap`.
    pub fn new(cap: usize) -> (q: ActionQueue)
        ensures
            q.buf@ == Seq::<ShipAction>::empty(),
            q.cap == cap,
    {
        ActionQueue { buf: Vec::new(), cap }
    }

    /// How many intents are pending.
    pub fn len(&self) -> (n: usize)
        ensures
            n == self.buf@.len(),
    {
        self.buf.len()
    }

    /// Enqueue one intent; refused exactly when the queue is full (the
    /// producer must then wait for a drain).
    pub fn try_send(&mut self, a: ShipAction) -> (ok: bool)
        ensures
            ok == (old(self).buf@.len() < old(self).cap),
            ok ==> final(self).buf@ == old(self).buf@.push(a),
            !ok ==> final(self).buf@ == old(self).buf@,
            final(self).cap == old(self).cap,
    {
        if self.buf.len() < self.cap {
            self.buf.push(a);
            true
        } else {
            false
        }
    }

    /// Take every pending intent, in arrival order, leaving the queue
    /// empty (so suspended producers can proceed).
    pub fn drain(&mut self) -> (batch: Vec<ShipAction>)
        ensures
            batch@ == old(self).buf@,
            final(self).buf@ == Seq::<ShipAction>::empty(),
            final(self).cap == old(self).cap,
    {
        let batch = dup_vec(&self.buf);
        self.buf.clear();
        batch
    }
}

} // verus!

use vstd::prelude::*;
use crate::command::Command;
use crate::responder::Responder;

verus! {

/// One pending request: the command to execute and the sending half of the
/// reply channel it is to be answered on.
pub struct Entry {
    pub cmd: Command,
    pub resp: Responder,
}

/// The bounded FIFO channel between the many callers and the one manager.
/// Producers append at the tail while there is room — a full mailbox turns
/// the producer away to wait and retry, backpressure rather than loss — and
/// the single consumer takes from the head, so requests leave in exactly
/// the order they entered.
pub struct Mailbox {
    queue: Vec<Entry>,
    capacity: usize,
}

impl Mailbox {
    /// The pending entries, oldest first.
    pub closed spec fn view(&self) -> Seq<Entry> {
        self.queue@
    }

    /// The fixed bound on how many entries may be pending at once.
    pub closed spec fn cap(&self) -> nat {
        self.capacity as nat
    }

    /// A mailbox never holds more than its bound.
    pub closed spec fn wf(&self) -> bool {
        self.queue@.len() <= self.capacity && self.capacity >= 1
    }

    /// An empty mailbox with the given bound.
    pub fn with_capacity(capacity: usize) -> (m: Mailbox)
        requires
            capacity >= 1,
        ensures
            m@ == Seq::<Entry>::empty(),
            m.cap() == capacity,
            m.wf(),
    {
        Mailbox { queue: Vec::new(), capacity }
    }

    /// How many entries are pending.
    pub fn len(&self) -> (n: usize)
        ensures
            n == self@.len(),
    {
        self.queue.len()
    }

    /// Append at the tail if there is room; a full mailbox hands the entry
    /// back unchanged, and the producer waits for space instead of losing
    /// or reordering anything.
    pub fn try_enqueue(&mut self, e: Entry) -> (accepted: Result<(), Entry>)
        requires
            old(self).wf(),
        ensures
            final(self).wf(),
            final(self).cap() == old(self).cap(),
            old(self)@.len() < old(self).cap() ==> accepted is Ok && final(self)@ == old(
                self,
            )@.push(e),
            old(self)@.len() == old(self).cap() ==> (accepted matches Err(back) && back == e)
                && final(self)@ == old(self)@,
    {
        if self.queue.len() < self.capacity {
            self.queue.push(e);
            Ok(())
        } else {
            Err(e)
        }
    }

    /// Take the oldest entry, or nothing when the mailbox is empty.
    pub fn dequeue(&mut self) -> (e: Option<Entry>)
        requires
            old(self).wf(),
        ensures
            final(self).wf(),
            final(self).cap() == old(self).cap(),
            old(self)@.len() == 0 ==> e is None && final(self)@ == old(self)@,
            old(self)@.len() > 0 ==> (e matches Some(front) && front == old(self)@[0])
                && final(self)@ == old(self)@.drop_first(),
    {
        if self.queue.len() == 0 {
            None
        } else {
            let front = self.queue.remove(0);
            proof {
                assert(self.queue@ =~= old(self).queue@.drop_first());
            }
            Some(front)
        }
    }
}

} // verus!

//! The broadcast router's inbound queue, as the coordination loop sees it:
//! peer handlers append decoded messages, and each cycle of the loop drains at
//! most one pending message, oldest first. Draining in arrival order is what
//! keeps one sender's messages in their sent order for every receiver.

use vstd::prelude::*;

verus! {

/// The pending messages, oldest first.
pub struct MessageQueue {
    msgs: Vec<String>,
}

impl View for MessageQueue {
    type V = Seq<Seq<char>>;

    closed spec fn view(&self) -> Seq<Seq<char>> {
        self.msgs@.map_values(|m: String| m@)
    }
}

impl MessageQueue {
    /// A fresh queue holds no message.
    pub fn new() -> (q: MessageQueue)
        ensures
            q@ == Seq::<Seq<char>>::empty(),
    {
        let q = MessageQueue { msgs: Vec::new() };
        proof {
            assert(q@ =~= Seq::<Seq<char>>::empty());
        }
        q
    }

    pub fn len(&self) -> (n: usize)
        ensures
            n == self@.len(),
    {
        self.msgs.len()
    }

    /// Append one decoded message for a later fan-out.
    pub fn publish(&mut self, msg: String)
        ensures
            final(self)@ == old(self)@.push(msg@),
    {
        self.msgs.push(msg);
        proof {
            assert(self@ =~= old(self)@.push(msg@));
        }
    }

    /// Take the oldest pending message, if any: at most one per cycle.
    /// Returns nothing exactly when the queue is empty, and then leaves the
    /// queue unchanged.
    pub fn drain_one(&mut self) -> (r: Option<String>)
        ensures
            match r {
                Some(m) => old(self)@.len() > 0 && m@ == old(self)@[0] && final(self)@ == old(
                    self,
                )@.drop_first(),
                None => old(self)@.len() == 0 && final(self)@ == old(self)@,
            },
    {
        if self.msgs.len() == 0 {
            None
        } else {
            let m = self.msgs.remove(0);
            proof {
                assert(self@ =~= old(self)@.drop_first());
            }
            Some(m)
        }
    }
}

} // verus!

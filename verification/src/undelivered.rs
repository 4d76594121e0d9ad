//! Frames of connections that were cut off.
//!
//! A device that is dropped keeps what was queued for it: its connection collects
//! that first and closes then.

use std::collections::HashMap;

use vstd::prelude::*;

use crate::proto::Frame;

verus! {

broadcast use vstd::std_specs::hash::group_hash_axioms;

/// What each connection that was cut off has not collected, by its number.
#[derive(Debug)]
pub struct Undelivered {
    queues: HashMap<u64, Vec<Frame>>,
}

impl View for Undelivered {
    type V = Map<u64, Seq<Frame>>;

    closed spec fn view(&self) -> Map<u64, Seq<Frame>> {
        self.queues@.map_values(|q: Vec<Frame>| q@)
    }
}

impl Undelivered {
    pub fn new() -> (r: Undelivered)
        ensures
            r@ == Map::<u64, Seq<Frame>>::empty(),
    {
        let r = Undelivered { queues: HashMap::new() };
        assert(r@ =~= Map::<u64, Seq<Frame>>::empty());
        r
    }

    /// Keeps the queue of a connection.
    pub fn keep(&mut self, ticket: u64, queue: Vec<Frame>)
        ensures
            final(self)@ == old(self)@.insert(ticket, queue@),
    {
        let _ = self.queues.insert(ticket, queue);
        assert(self@ =~= old(self)@.insert(ticket, queue@));
    }

    /// The next frame for a connection, if there is one left.
    pub fn pop(&mut self, ticket: u64) -> (r: Option<Frame>)
        ensures
            match r {
                Some(frame) => {
                    &&& old(self)@.contains_key(ticket)
                    &&& old(self)@[ticket].len() > 0
                    &&& frame == old(self)@[ticket][0]
                    &&& final(self)@ == old(self)@.insert(ticket, old(self)@[ticket].drop_first())
                },
                None => {
                    &&& !old(self)@.contains_key(ticket) || old(self)@[ticket].len() == 0
                    &&& final(self)@ == old(self)@
                },
            },
    {
        let ghost before = self@;
        match self.queues.remove(&ticket) {
            Some(queue) => {
                let mut queue = queue;
                assert(queue@ == before[ticket]);
                if queue.len() == 0 {
                    let _ = self.queues.insert(ticket, queue);
                    assert(self@ =~= before);
                    None
                } else {
                    let frame = queue.remove(0);
                    assert(queue@ =~= before[ticket].drop_first());
                    let _ = self.queues.insert(ticket, queue);
                    assert(self@ =~= before.insert(ticket, before[ticket].drop_first()));
                    Some(frame)
                }
            },
            None => {
                assert(self@ =~= before);
                None
            },
        }
    }

    /// Forgets what a connection has not collected.
    pub fn forget(&mut self, ticket: u64)
        ensures
            final(self)@ == old(self)@.remove(ticket),
    {
        let _ = self.queues.remove(&ticket);
        assert(self@ =~= old(self)@.remove(ticket));
    }
}

}

//! The frontier: the queue of URLs that wait to be fetched.

use std::collections::VecDeque;
use vstd::prelude::*;
use crate::seqs::views;

verus! {

/// A first-in, first-out queue of URLs. An entry is created by `enqueue` and
/// consumed, exactly once, by `drain_up_to`.
pub struct Frontier {
    queue: VecDeque<String>,
}

impl View for Frontier {
    type V = Seq<Seq<char>>;

    /// The queued URLs, oldest first.
    closed spec fn view(&self) -> Seq<Seq<char>> {
        views(self.queue@)
    }
}

/// How many entries a drain of at most `limit` takes from a queue of `len`.
pub open spec fn drained_count(len: nat, limit: nat) -> nat {
    if limit < len {
        limit
    } else {
        len
    }
}

impl Frontier {
    /// An empty frontier.
    pub fn new() -> (frontier: Frontier)
        ensures
            frontier@ == Seq::<Seq<char>>::empty(),
    {
        let frontier = Frontier { queue: VecDeque::new() };
        assert(frontier@ =~= Seq::<Seq<char>>::empty());
        frontier
    }

    /// How many URLs wait.
    pub fn len(&self) -> (n: usize)
        ensures
            n == self@.len(),
    {
        self.queue.len()
    }

    /// Whether no URL waits.
    pub fn is_empty(&self) -> (empty: bool)
        ensures
            empty == (self@.len() == 0),
    {
        self.queue.len() == 0
    }

    /// Appends `url` behind every waiting entry.
    pub fn enqueue(&mut self, url: String)
        ensures
            final(self)@ == old(self)@.push(url@),
    {
        self.queue.push_back(url);
        assert(self@ =~= old(self)@.push(url@));
    }

    /// Takes the oldest entries off the queue, at most `limit` of them, and
    /// returns them oldest first. Never waits: on an empty queue the result is
    /// empty.
    pub fn drain_up_to(&mut self, limit: usize) -> (batch: Vec<String>)
        ensures
            views(batch@) == old(self)@.take(drained_count(old(self)@.len(), limit as nat) as int),
            final(self)@ == old(self)@.skip(drained_count(old(self)@.len(), limit as nat) as int),
    {
        let mut batch: Vec<String> = Vec::new();
        while batch.len() < limit && self.queue.len() > 0
            invariant
                batch@.len() <= limit,
                batch@.len() <= old(self)@.len(),
                views(batch@) == old(self)@.take(batch@.len() as int),
                self@ == old(self)@.skip(batch@.len() as int),
            decreases self.queue@.len(),
        {
            let ghost taken = batch@;
            let ghost waiting = self.queue@;
            let next = self.queue.pop_front();
            match next {
                Some(url) => {
                    batch.push(url);
                    proof {
                        let all = old(self)@;
                        let k = taken.len() as int;
                        assert(views(waiting) == all.skip(k));
                        assert(all.skip(k)[0] == all[k]);
                        assert(views(waiting)[0] == url@);
                        assert forall|i: int| 0 <= i < k + 1 implies views(batch@)[i] == all[i] by {
                            if i < k {
                                assert(views(taken)[i] == all.take(k)[i]);
                            }
                        }
                        assert(views(batch@) =~= all.take(k + 1));
                        assert forall|i: int| 0 <= i < self.queue@.len() implies views(
                            self.queue@,
                        )[i] == all[k + 1 + i] by {
                            assert(views(waiting)[i + 1] == all.skip(k)[i + 1]);
                        }
                        assert(self@ =~= all.skip(k + 1));
                    }
                },
                None => {},
            }
        }
        batch
    }
}

} // verus!

//! The queue of pending work that all workers drain.

use std::collections::VecDeque;
use vstd::multiset::{lemma_multiset_empty_len, Multiset};
use vstd::prelude::*;
use vstd::seq_lib::to_multiset_build;

verus! {

/// An ordered sequence of pending items. Each item leaves the queue at most
/// once, in the order in which it was loaded, and never comes back.
///
/// The queue itself is a plain value: callers that share it between threads
/// put it behind one lock, so that every `get_work` is one critical section.
pub struct WorkQueue<T> {
    pending: VecDeque<T>,
}

impl<T> View for WorkQueue<T> {
    type V = Seq<T>;

    /// The items that are still waiting, next one first.
    closed spec fn view(&self) -> Seq<T> {
        self.pending@
    }
}

impl<T> WorkQueue<T> {
    /// Builds a queue that holds exactly `entries`, in their order.
    pub fn from_vec(entries: Vec<T>) -> (queue: Self)
        ensures
            queue@ == entries@,
    {
        let mut pending: VecDeque<T> = VecDeque::new();
        for entry in it: entries.into_iter()
            invariant
                it.seq() == entries@,
                pending@ == entries@.take(it.index() as int),
        {
            pending.push_back(entry);
        }
        WorkQueue { pending }
    }

    /// The number of items that are still waiting.
    pub fn len(&self) -> (count: usize)
        ensures
            count == self@.len(),
    {
        self.pending.len()
    }

    /// Removes and returns the first remaining item, or reports that none is
    /// left.
    pub fn get_work(&mut self) -> (work: Option<T>)
        ensures
            work == pull(old(self)@).0,
            final(self)@ == pull(old(self)@).1,
    {
        self.pending.pop_front()
    }
}

/// What one `get_work` does to a queue holding `pending`: the item handed
/// out, if any, and what the queue holds afterwards.
pub open spec fn pull<T>(pending: Seq<T>) -> (Option<T>, Seq<T>) {
    if pending.len() > 0 {
        (Some(pending[0]), pending.drop_first())
    } else {
        (None, pending)
    }
}

/// The results of `calls` consecutive `get_work` calls on a queue that holds
/// `pending`, in the order in which the calls took effect. Who made each
/// call plays no part: the lock around the queue puts them in one order.
pub open spec fn pulls<T>(pending: Seq<T>, calls: nat) -> Seq<Option<T>>
    decreases calls,
{
    if calls == 0 {
        Seq::empty()
    } else {
        seq![pull(pending).0] + pulls(pull(pending).1, (calls - 1) as nat)
    }
}

/// What a queue that held `pending` holds after `calls` consecutive
/// `get_work` calls.
pub open spec fn after_pulls<T>(pending: Seq<T>, calls: nat) -> Seq<T>
    decreases calls,
{
    if calls == 0 {
        pending
    } else {
        after_pulls(pull(pending).1, (calls - 1) as nat)
    }
}

/// The items that one consumer received, where `results[i]` is what call `i`
/// returned and `who[i]` is the consumer that made it.
pub open spec fn share<T>(results: Seq<Option<T>>, who: Seq<nat>, consumer: nat) -> Multiset<T>
    decreases results.len(),
{
    if results.len() == 0 {
        Multiset::empty()
    } else {
        let earlier = share(results.drop_last(), who.drop_last(), consumer);
        match results.last() {
            Some(item) if who.last() == consumer => earlier.insert(item),
            _ => earlier,
        }
    }
}

/// Everything that the consumers `0 .. consumers` received, taken together.
pub open spec fn shares<T>(results: Seq<Option<T>>, who: Seq<nat>, consumers: nat) -> Multiset<T>
    decreases consumers,
{
    if consumers == 0 {
        Multiset::empty()
    } else {
        shares(results, who, (consumers - 1) as nat).add(
            share(results, who, (consumers - 1) as nat),
        )
    }
}

/// Call `i` on a queue that held `pending` returns item `i` while there is
/// one and reports "empty" from then on; the queue is left with the items
/// that no call reached.
pub proof fn lemma_pulls_in_order<T>(pending: Seq<T>, calls: nat)
    ensures
        pulls(pending, calls).len() == calls,
        forall|i: int|
            0 <= i < calls ==> #[trigger] pulls(pending, calls)[i] == if i < pending.len() {
                Some(pending[i])
            } else {
                None
            },
        after_pulls(pending, calls) == if calls <= pending.len() {
            pending.skip(calls as int)
        } else {
            Seq::empty()
        },
    decreases calls,
{
    if calls > 0 {
        let rest = pull(pending).1;
        lemma_pulls_in_order(rest, (calls - 1) as nat);
        let tail = pulls(rest, (calls - 1) as nat);
        assert forall|i: int| 0 <= i < calls implies #[trigger] pulls(pending, calls)[i] == if i
            < pending.len() {
            Some(pending[i])
        } else {
            None
        } by {
            if i > 0 {
                assert(pulls(pending, calls)[i] == tail[i - 1]);
            }
        }
        if pending.len() > 0 {
            if calls <= pending.len() {
                assert(rest.skip(calls - 1) =~= pending.skip(calls as int));
            }
        } else {
            assert(pending.skip(0) =~= pending);
        }
    } else {
        assert(pending.skip(0) =~= pending);
    }
}

proof fn lemma_shares_of_nothing<T>(who: Seq<nat>, consumers: nat)
    ensures
        shares(Seq::<Option<T>>::empty(), who, consumers) =~= Multiset::empty(),
    decreases consumers,
{
    if consumers > 0 {
        lemma_shares_of_nothing::<T>(who, (consumers - 1) as nat);
    }
}

/// The last call adds its item, if it got one, to the share of the consumer
/// that made it and to no other.
proof fn lemma_shares_last_call<T>(results: Seq<Option<T>>, who: Seq<nat>, consumers: nat)
    requires
        results.len() > 0,
    ensures
        shares(results, who, consumers) =~= match results.last() {
            Some(item) if who.last() < consumers => shares(
                results.drop_last(),
                who.drop_last(),
                consumers,
            ).insert(item),
            _ => shares(results.drop_last(), who.drop_last(), consumers),
        },
    decreases consumers,
{
    if consumers > 0 {
        lemma_shares_last_call(results, who, (consumers - 1) as nat);
    }
}

proof fn lemma_shares_of_pulls<T>(pending: Seq<T>, who: Seq<nat>, consumers: nat, calls: nat)
    requires
        calls <= who.len(),
        forall|i: int| 0 <= i < who.len() ==> who[i] < consumers,
    ensures
        shares(pulls(pending, calls), who.take(calls as int), consumers) =~= (if calls
            <= pending.len() {
            pending.take(calls as int)
        } else {
            pending
        }).to_multiset(),
    decreases calls,
{
    if calls == 0 {
        lemma_shares_of_nothing::<T>(who.take(0), consumers);
        pending.take(0).to_multiset_ensures();
        lemma_multiset_empty_len(pending.take(0).to_multiset());
    } else {
        let before = (calls - 1) as nat;
        let results = pulls(pending, calls);
        lemma_pulls_in_order(pending, calls);
        lemma_pulls_in_order(pending, before);
        lemma_shares_of_pulls(pending, who, consumers, before);
        assert(results.drop_last() =~= pulls(pending, before));
        assert(who.take(calls as int).drop_last() =~= who.take(before as int));
        assert(who.take(calls as int).last() == who[calls - 1]);
        lemma_shares_last_call(results, who.take(calls as int), consumers);
        if calls <= pending.len() {
            assert(pending.take(calls as int) =~= pending.take(before as int).push(
                pending[calls - 1],
            ));
            to_multiset_build(pending.take(before as int), pending[calls - 1]);
        } else if before == pending.len() {
            assert(pending.take(before as int) =~= pending);
        }
    }
}

/// Exactly-once delivery. Load a queue with `loaded` and let any number of
/// consumers call `get_work` until every item has been reached, in whatever
/// order the lock lets their calls through (`who[i]` made call `i`). Then
/// what the consumers received, taken together, is the loaded items: each
/// one once, none left out, none left behind. Calls that come after the last
/// item are told that the queue is empty.
pub proof fn lemma_exactly_once<T>(loaded: Seq<T>, who: Seq<nat>, consumers: nat)
    requires
        who.len() >= loaded.len(),
        forall|i: int| 0 <= i < who.len() ==> who[i] < consumers,
    ensures
        shares(pulls(loaded, who.len()), who, consumers) == loaded.to_multiset(),
        after_pulls(loaded, who.len()) == Seq::<T>::empty(),
        forall|i: int|
            loaded.len() <= i < who.len() ==> #[trigger] pulls(loaded, who.len())[i] is None,
{
    lemma_pulls_in_order(loaded, who.len());
    lemma_shares_of_pulls(loaded, who, consumers, who.len());
    assert(who.take(who.len() as int) =~= who);
    if who.len() == loaded.len() {
        assert(loaded.take(loaded.len() as int) =~= loaded);
        assert(loaded.skip(loaded.len() as int) =~= Seq::<T>::empty());
    }
}

} // verus!

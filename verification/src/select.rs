//! Which purchases a run works on: those that the store does not know yet,
//! cut to the number that the operator allows.

use crate::catalog::{entry_views, CollectionEntry, EntryView};
use crate::queue::WorkQueue;
use crate::text::texts;
use vstd::prelude::*;

verus! {

/// The purchases that are left when those with a known id are taken out.
/// With `force` nothing is taken out. The order stays.
pub open spec fn eligible(entries: Seq<EntryView>, known: Seq<Seq<char>>, force: bool) -> Seq<
    EntryView,
> {
    entries.filter(|entry: EntryView| force || !known.contains(entry.id))
}

/// The first `limit` of `items`, or all of them where there is no limit or
/// there are no more than that.
pub open spec fn limited<T>(items: Seq<T>, limit: Option<usize>) -> Seq<T> {
    match limit {
        Some(count) if count < items.len() => items.take(count as int),
        _ => items,
    }
}

/// The purchases that a run works on, in the order in which it takes them.
pub open spec fn selection(
    entries: Seq<EntryView>,
    known: Seq<Seq<char>>,
    force: bool,
    limit: Option<usize>,
) -> Seq<EntryView> {
    limited(eligible(entries, known, force), limit)
}

/// What one more purchase at the end of the listing does to the eligible
/// ones: it joins them at their end if it is eligible, and changes nothing
/// if it is not.
pub proof fn lemma_eligible_push(
    entries: Seq<EntryView>,
    entry: EntryView,
    known: Seq<Seq<char>>,
    force: bool,
)
    ensures
        eligible(entries.push(entry), known, force) == if force || !known.contains(entry.id) {
            eligible(entries, known, force).push(entry)
        } else {
            eligible(entries, known, force)
        },
{
    entries.lemma_filter_push(entry, |entry: EntryView| force || !known.contains(entry.id));
}

/// Of an empty listing nothing is eligible.
pub proof fn lemma_eligible_of_nothing(known: Seq<Seq<char>>, force: bool)
    ensures
        eligible(Seq::empty(), known, force) == Seq::<EntryView>::empty(),
{
    let wanted = |entry: EntryView| force || !known.contains(entry.id);
    Seq::<EntryView>::empty().lemma_filter_len(wanted);
    assert(Seq::<EntryView>::empty().filter(wanted) =~= Seq::<EntryView>::empty());
}

/// The exclusion filter on a listing of three. Where the store knows the
/// id of the second purchase and of no other, and nothing is forced or
/// limited, the run works on the first and the third, in that order.
pub proof fn lemma_known_entry_is_excluded(first: EntryView, second: EntryView, third: EntryView)
    requires
        first.id != second.id,
        third.id != second.id,
    ensures
        selection(seq![first, second, third], seq![second.id], false, None) == seq![first, third],
{
    let known = seq![second.id];
    assert(known[0] == second.id);
    assert(known.contains(second.id));
    assert(!known.contains(first.id));
    assert(!known.contains(third.id));
    let none = Seq::<EntryView>::empty();
    lemma_eligible_of_nothing(known, false);
    lemma_eligible_push(none, first, known, false);
    lemma_eligible_push(none.push(first), second, known, false);
    lemma_eligible_push(none.push(first).push(second), third, known, false);
    assert(none.push(first).push(second).push(third) =~= seq![first, second, third]);
    assert(none.push(first).push(third) =~= seq![first, third]);
}

/// Limit truncation. A limit below the number of eligible purchases leaves
/// exactly that many: the first ones, in their order.
pub proof fn lemma_limit_takes_prefix(
    entries: Seq<EntryView>,
    known: Seq<Seq<char>>,
    force: bool,
    limit: usize,
)
    requires
        limit < eligible(entries, known, force).len(),
    ensures
        selection(entries, known, force, Some(limit)) == eligible(entries, known, force).take(
            limit as int,
        ),
        selection(entries, known, force, Some(limit)).len() == limit,
        forall|i: int|
            0 <= i < limit ==> selection(entries, known, force, Some(limit))[i] == eligible(
                entries,
                known,
                force,
            )[i],
{
}

/// With `force` every purchase of the listing is worked on, whatever the
/// store knows.
pub proof fn lemma_force_keeps_all(entries: Seq<EntryView>, known: Seq<Seq<char>>)
    ensures
        eligible(entries, known, true) == entries,
    decreases entries.len(),
{
    if entries.len() == 0 {
        lemma_eligible_of_nothing(known, true);
        assert(entries =~= Seq::<EntryView>::empty());
    } else {
        lemma_force_keeps_all(entries.drop_last(), known);
        lemma_eligible_push(entries.drop_last(), entries.last(), known, true);
        assert(entries.drop_last().push(entries.last()) =~= entries);
    }
}

/// Tells whether `id` is among `known`.
pub fn is_known(known: &Vec<String>, id: &String) -> (found: bool)
    ensures
        found == texts(known@).contains(id@),
{
    let mut i: usize = 0;
    while i < known.len()
        invariant
            i <= known.len(),
            forall|k: int| 0 <= k < i ==> (#[trigger] known@[k])@ != id@,
        decreases known.len() - i,
    {
        if known[i] == *id {
            assert(texts(known@)[i as int] == id@);
            return true;
        }
        i += 1;
    }
    proof {
        assert forall|k: int| 0 <= k < texts(known@).len() implies texts(known@)[k] != id@ by {
            assert(known@[k]@ != id@);
        }
    }
    false
}

/// One more item at the end of a list changes the limited list only while
/// the limit has not been reached.
proof fn lemma_limited_push<T>(items: Seq<T>, item: T, limit: Option<usize>)
    ensures
        limited(items.push(item), limit) == match limit {
            Some(count) if count <= items.len() => limited(items, limit),
            _ => limited(items, limit).push(item),
        },
{
    match limit {
        Some(count) => {
            if count < items.len() {
                assert(items.push(item).take(count as int) =~= items.take(count as int));
            } else if count == items.len() {
                assert(items.push(item).take(count as int) =~= items);
            }
        },
        None => {},
    }
}

/// Picks the purchases that a run works on: those whose id is not among
/// `known`, or all of them with `force`; of these the first `limit`, where
/// there is a limit. The order of the listing is kept.
pub fn select(
    purchases: Vec<CollectionEntry>,
    known: &Vec<String>,
    force: bool,
    limit: Option<usize>,
) -> (work: Vec<CollectionEntry>)
    ensures
        entry_views(work@) == selection(entry_views(purchases@), texts(known@), force, limit),
{
    let mut work: Vec<CollectionEntry> = Vec::new();
    let ghost all = entry_views(purchases@);
    let ghost ids = texts(known@);
    let ghost mut passed: Seq<EntryView> = Seq::empty();
    proof {
        assert(all.take(0) =~= Seq::<EntryView>::empty());
        lemma_eligible_of_nothing(ids, force);
        assert(entry_views(work@) =~= passed);
    }
    for entry in it: purchases.into_iter()
        invariant
            it.seq() == purchases@,
            all == entry_views(purchases@),
            ids == texts(known@),
            passed == eligible(all.take(it.index()), ids, force),
            entry_views(work@) == limited(passed, limit),
    {
        let ghost seen = all.take(it.index());
        proof {
            assert(all.take(it.index() + 1) =~= seen.push(entry@));
            lemma_eligible_push(seen, entry@, ids, force);
        }
        if force || !is_known(known, &entry.id) {
            let room = match limit {
                Some(count) => work.len() < count,
                None => true,
            };
            proof {
                lemma_limited_push(passed, entry@, limit);
                passed = passed.push(entry@);
            }
            let ghost before = entry_views(work@);
            if room {
                work.push(entry);
                proof {
                    assert(entry_views(work@) =~= before.push(entry@));
                }
            }
        }
    }
    proof {
        assert(all.take(all.len() as int) =~= all);
    }
    work
}

/// Builds the queue that the workers of a run drain.
pub fn build_queue(
    purchases: Vec<CollectionEntry>,
    known: &Vec<String>,
    force: bool,
    limit: Option<usize>,
) -> (queue: WorkQueue<CollectionEntry>)
    ensures
        entry_views(queue@) == selection(entry_views(purchases@), texts(known@), force, limit),
{
    WorkQueue::from_vec(select(purchases, known, force, limit))
}

} // verus!

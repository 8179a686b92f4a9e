//! What holds of every queue, whatever it holds and whatever is offered to
//! it. Each statement is about the functions on [`Bounds`] in which the
//! contracts of the queue's operations are written.

use vstd::prelude::*;

use crate::publication::{lemma_total_drop_first, lemma_total_push, payload_total, Publication};
use crate::queue::{Bounds, LimitKind, LimitReached};
use crate::settings::QueueFullAction;

verus! {

/// Enqueuing accounts for every byte: the new total is the old one, plus
/// the payload of the incoming publication if it was admitted, minus the
/// payload of the head if it was evicted.
pub proof fn lemma_enqueue_accounts_for_size(b: Bounds, items: Seq<Publication>, p: Publication)
    ensures
        payload_total(b.items_after_enqueue(items, p)) == payload_total(items) + (if b.admits(
            items,
            p,
        ) {
            p.payload_len()
        } else {
            0
        }) - (if b.evicts(items, p) {
            items[0].payload_len()
        } else {
            0
        }),
{
    if b.admits(items, p) {
        if b.evicts(items, p) {
            lemma_total_drop_first(items);
            lemma_total_push(items.drop_first(), p);
        } else {
            lemma_total_push(items, p);
        }
    }
}

/// Enqueuing never reorders: what is queued afterwards is what was queued
/// before, possibly without its head, possibly followed by the incoming
/// publication. So the head is always the oldest publication that was
/// neither dequeued nor evicted.
pub proof fn lemma_enqueue_keeps_order(b: Bounds, items: Seq<Publication>, p: Publication)
    ensures
        ({
            let after = b.items_after_enqueue(items, p);
            let kept = if b.evicts(items, p) {
                items.drop_first()
            } else {
                items
            };
            after == if b.admits(items, p) {
                kept.push(p)
            } else {
                kept
            }
        }),
        b.evicts(items, p) ==> items.len() > 0 && b.admits(items, p),
{
}

/// A publication that was admitted to a queue of `n` publications is
/// returned by dequeue number `n + 1`, after everything that was queued
/// before it and that is still there.
pub proof fn lemma_admitted_is_last(b: Bounds, items: Seq<Publication>, p: Publication)
    requires
        b.admits(items, p),
    ensures
        b.items_after_enqueue(items, p).len() > 0,
        b.items_after_enqueue(items, p).last() == p,
        b.items_after_enqueue(items, p).drop_last() == if b.evicts(items, p) {
            items.drop_first()
        } else {
            items
        },
{
    lemma_enqueue_keeps_order(b, items, p);
    if b.evicts(items, p) {
        assert(items.drop_first().push(p).drop_last() =~= items.drop_first());
    } else {
        assert(items.push(p).drop_last() =~= items);
    }
}

/// A queue without bounds admits every publication and reports nothing.
pub proof fn lemma_unbounded_accepts(b: Bounds, items: Seq<Publication>, p: Publication)
    requires
        b.max_len is None,
        b.max_size is None,
    ensures
        b.items_after_enqueue(items, p) == items.push(p),
        b.enqueue_report(items, p) is None,
{
}

/// A queue without bounds that is extended holds all it held and all that
/// was added, in that order.
pub proof fn lemma_unbounded_extend_appends(
    b: Bounds,
    items: Seq<Publication>,
    added: Seq<Publication>,
)
    requires
        b.max_len is None,
        b.max_size is None,
    ensures
        b.items_after_extend(items, added) == items + added,
    decreases added.len(),
{
    if added.len() == 0 {
        assert(items + added =~= items);
    } else {
        lemma_unbounded_extend_appends(b, items, added.drop_last());
        assert((items + added.drop_last()).push(added.last()) =~= items + added);
    }
}

/// At a bound, a queue that drops the new keeps exactly what it holds, and
/// with it its total size, and hands back the publication it was offered,
/// under the name of the bound that was reached.
pub proof fn lemma_drop_new_rejects(b: Bounds, items: Seq<Publication>, p: Publication)
    requires
        b.when_full == QueueFullAction::DropNew,
        b.limit_hit(items, p) is Some,
    ensures
        b.items_after_enqueue(items, p) == items,
        payload_total(b.items_after_enqueue(items, p)) == payload_total(items),
        b.enqueue_report(items, p) == Some(LimitReached::of_kind(b.limit_hit(items, p)->0, p)),
        b.enqueue_report(items, p)->0.displaced() == p,
{
}

/// At its count bound, a queue that drops the old loses its head, gains
/// the incoming publication at its tail, and hands back the former head.
pub proof fn lemma_drop_old_evicts_head(b: Bounds, items: Seq<Publication>, p: Publication)
    requires
        b.valid(),
        b.when_full == QueueFullAction::DropOld,
        b.max_len matches Some(n) && items.len() >= n,
    ensures
        items.len() > 0,
        b.items_after_enqueue(items, p) == items.drop_first().push(p),
        b.enqueue_report(items, p) == Some(LimitReached::QueueLength(items[0])),
{
}

/// The count is looked at before the size: a queue at its count bound
/// reports that bound, whatever its size bound and its policy are.
pub proof fn lemma_count_before_size(b: Bounds, items: Seq<Publication>, p: Publication)
    requires
        b.valid(),
        b.max_len matches Some(n) && items.len() >= n,
    ensures
        b.limit_hit(items, p) == Some(LimitKind::QueueLength),
        b.enqueue_report(items, p) is Some,
        b.enqueue_report(items, p)->0.kind() == LimitKind::QueueLength,
        !(b.enqueue_report(items, p)->0 is Memory),
{
}

/// The size bound is reported only by a queue that is below its count
/// bound and that the incoming payload would take over its size bound.
pub proof fn lemma_memory_report(b: Bounds, items: Seq<Publication>, p: Publication)
    requires
        b.enqueue_report(items, p) matches Some(r) && r is Memory,
    ensures
        b.max_len matches Some(n) ==> items.len() < n,
        b.max_size matches Some(m) && payload_total(items) + p.payload_len() > m,
{
}

/// A queue within its count bound stays within it, under either policy.
pub proof fn lemma_count_bound_kept(b: Bounds, items: Seq<Publication>, p: Publication)
    requires
        b.valid(),
        b.max_len matches Some(n) && items.len() <= n,
    ensures
        b.max_len matches Some(n) && b.items_after_enqueue(items, p).len() <= n,
{
}

/// A queue that drops the new and is within its size bound stays within
/// it. (A queue that drops the old evicts one publication only, and may
/// end up above its size bound.)
pub proof fn lemma_drop_new_keeps_size_bound(b: Bounds, items: Seq<Publication>, p: Publication)
    requires
        b.when_full == QueueFullAction::DropNew,
        b.max_size matches Some(m) && payload_total(items) <= m,
    ensures
        b.max_size matches Some(m) && payload_total(b.items_after_enqueue(items, p)) <= m,
{
    lemma_total_push(items, p);
}

/// One call on a queue.
pub enum Call {
    Enqueue(Publication),
    Dequeue,
}

/// What a queue holding `items` holds after `call`.
pub open spec fn items_after_call(b: Bounds, items: Seq<Publication>, call: Call) -> Seq<
    Publication,
> {
    match call {
        Call::Enqueue(p) => b.items_after_enqueue(items, p),
        Call::Dequeue => if items.len() > 0 {
            items.drop_first()
        } else {
            items
        },
    }
}

/// What a queue holding `items` holds after `calls`, made in that order.
pub open spec fn items_after_calls(b: Bounds, items: Seq<Publication>, calls: Seq<Call>) -> Seq<
    Publication,
>
    decreases calls.len(),
{
    if calls.len() == 0 {
        items
    } else {
        items_after_call(b, items_after_calls(b, items, calls.drop_last()), calls.last())
    }
}

/// Extending a queue is enqueuing each publication in turn: no more, no
/// less, and in the same order.
pub proof fn lemma_extend_is_a_run_of_enqueues(
    b: Bounds,
    items: Seq<Publication>,
    added: Seq<Publication>,
)
    ensures
        b.items_after_extend(items, added) == items_after_calls(
            b,
            items,
            added.map_values(|p: Publication| Call::Enqueue(p)),
        ),
    decreases added.len(),
{
    let calls = added.map_values(|p: Publication| Call::Enqueue(p));
    if added.len() > 0 {
        lemma_extend_is_a_run_of_enqueues(b, items, added.drop_last());
        assert(calls.drop_last() =~= added.drop_last().map_values(
            |p: Publication| Call::Enqueue(p),
        ));
        assert(calls.last() == Call::Enqueue(added.last()));
    }
}

/// Every publication the queue ever held: `items`, followed by each
/// publication that `calls` brought in, in the order of their arrival.
pub open spec fn arrivals(b: Bounds, items: Seq<Publication>, calls: Seq<Call>) -> Seq<
    Publication,
>
    decreases calls.len(),
{
    if calls.len() == 0 {
        items
    } else {
        let earlier = arrivals(b, items, calls.drop_last());
        let held = items_after_calls(b, items, calls.drop_last());
        match calls.last() {
            Call::Enqueue(p) => if b.admits(held, p) {
                earlier.push(p)
            } else {
                earlier
            },
            Call::Dequeue => earlier,
        }
    }
}

/// How many publications left the queue during `calls`, dequeued or
/// evicted.
pub open spec fn departures(b: Bounds, items: Seq<Publication>, calls: Seq<Call>) -> nat
    decreases calls.len(),
{
    if calls.len() == 0 {
        0
    } else {
        let earlier = departures(b, items, calls.drop_last());
        let held = items_after_calls(b, items, calls.drop_last());
        match calls.last() {
            Call::Enqueue(p) => if b.evicts(held, p) {
                earlier + 1
            } else {
                earlier
            },
            Call::Dequeue => if held.len() > 0 {
                earlier + 1
            } else {
                earlier
            },
        }
    }
}

/// First in, first out, over any run of calls: what the queue holds is
/// what ever joined it, in the order of arrival, without the first few,
/// which are the ones that left. Its head, which is what the next dequeue
/// returns, is therefore the earliest arrival that was neither dequeued
/// nor evicted.
pub proof fn lemma_first_in_first_out(b: Bounds, items: Seq<Publication>, calls: Seq<Call>)
    ensures
        departures(b, items, calls) <= arrivals(b, items, calls).len(),
        items_after_calls(b, items, calls) == arrivals(b, items, calls).skip(
            departures(b, items, calls) as int,
        ),
    decreases calls.len(),
{
    if calls.len() == 0 {
        assert(items.skip(0) =~= items);
    } else {
        lemma_first_in_first_out(b, items, calls.drop_last());
        let all = arrivals(b, items, calls.drop_last());
        let gone = departures(b, items, calls.drop_last()) as int;
        let held = items_after_calls(b, items, calls.drop_last());
        match calls.last() {
            Call::Enqueue(p) => {
                lemma_enqueue_keeps_order(b, held, p);
                if b.admits(held, p) {
                    if b.evicts(held, p) {
                        assert(all.skip(gone).drop_first().push(p) =~= all.push(p).skip(gone + 1));
                    } else {
                        assert(all.skip(gone).push(p) =~= all.push(p).skip(gone));
                    }
                }
            },
            Call::Dequeue => {
                if held.len() > 0 {
                    assert(all.skip(gone).drop_first() =~= all.skip(gone + 1));
                }
            },
        }
    }
}

} // verus!

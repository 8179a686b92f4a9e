//! A queue of publications bounded by count and by total payload size.

use std::collections::VecDeque;
use vstd::prelude::*;
use vstd::std_specs::vecdeque::VecDequeAdditionalSpecFns;

use crate::limit::Limit;
use crate::publication::{
    lemma_total_drop_first, lemma_total_fits, lemma_total_of_same_content, lemma_total_push,
    payload_total, same_content, Publication,
};
use crate::settings::QueueFullAction;

verus! {

/// Which of the two bounds an enqueue ran into.
pub enum LimitKind {
    /// The bound on the number of queued publications.
    QueueLength,
    /// The bound on the total number of payload bytes.
    Memory,
}

/// The configuration a queue is built with and keeps for life.
pub struct Bounds {
    /// Most publications the queue admits, if bounded by count.
    pub max_len: Option<nat>,
    /// Most payload bytes the queue admits, if bounded by size.
    pub max_size: Option<nat>,
    /// What happens to a publication that does not fit.
    pub when_full: QueueFullAction,
}

impl Bounds {
    /// A bound that is present is positive.
    pub open spec fn valid(self) -> bool {
        &&& self.max_len matches Some(n) ==> n > 0
        &&& self.max_size matches Some(m) ==> m > 0
    }

    /// The bound, if any, that stands in the way of adding `p` to `items`.
    /// The count is looked at first, the size only if the count allows.
    pub open spec fn limit_hit(self, items: Seq<Publication>, p: Publication) -> Option<LimitKind> {
        if self.max_len matches Some(n) && items.len() >= n {
            Some(LimitKind::QueueLength)
        } else if self.max_size matches Some(m) && payload_total(items) + p.payload_len() > m {
            Some(LimitKind::Memory)
        } else {
            None
        }
    }

    /// Whether `p` joins the queue: it fits, or the policy makes room.
    pub open spec fn admits(self, items: Seq<Publication>, p: Publication) -> bool {
        self.limit_hit(items, p) is None || self.when_full == QueueFullAction::DropOld
    }

    /// Whether the head of `items` has to leave for `p`.
    pub open spec fn evicts(self, items: Seq<Publication>, p: Publication) -> bool {
        &&& self.limit_hit(items, p) is Some
        &&& self.when_full == QueueFullAction::DropOld
        &&& items.len() > 0
    }

    /// What a full queue holding `items` holds once `p` was offered to it.
    pub open spec fn items_after_overflow(self, items: Seq<Publication>, p: Publication) -> Seq<
        Publication,
    > {
        match self.when_full {
            QueueFullAction::DropNew => items,
            QueueFullAction::DropOld => if items.len() > 0 {
                items.drop_first().push(p)
            } else {
                items.push(p)
            },
        }
    }

    /// The publication a full queue holding `items` hands back when `p` is
    /// offered to it: `p` itself, or the head that made room for it.
    pub open spec fn displaced_by_overflow(
        self,
        items: Seq<Publication>,
        p: Publication,
    ) -> Option<Publication> {
        match self.when_full {
            QueueFullAction::DropNew => Some(p),
            QueueFullAction::DropOld => if items.len() > 0 {
                Some(items[0])
            } else {
                None
            },
        }
    }

    /// What a queue holding `items` holds after `p` was enqueued.
    pub open spec fn items_after_enqueue(self, items: Seq<Publication>, p: Publication) -> Seq<
        Publication,
    > {
        match self.limit_hit(items, p) {
            None => items.push(p),
            Some(_) => self.items_after_overflow(items, p),
        }
    }

    /// What enqueuing `p` on a queue holding `items` reports.
    pub open spec fn enqueue_report(self, items: Seq<Publication>, p: Publication) -> Option<
        LimitReached,
    > {
        match self.limit_hit(items, p) {
            None => None,
            Some(kind) => match self.displaced_by_overflow(items, p) {
                None => None,
                Some(d) => Some(LimitReached::of_kind(kind, d)),
            },
        }
    }

    /// What a queue holding `items` holds after each of `added` was
    /// enqueued in turn.
    pub open spec fn items_after_extend(self, items: Seq<Publication>, added: Seq<Publication>) -> Seq<
        Publication,
    >
        decreases added.len(),
    {
        if added.len() == 0 {
            items
        } else {
            self.items_after_enqueue(
                self.items_after_extend(items, added.drop_last()),
                added.last(),
            )
        }
    }
}

/// The report of an enqueue that ran into a bound, with the publication
/// that had to give way.
#[derive(Clone, Debug, PartialEq, Eq)]
pub enum LimitReached {
    Memory(Publication),
    QueueLength(Publication),
}

impl LimitReached {
    /// The report for a bound of `kind` that displaced `p`.
    pub open spec fn of_kind(kind: LimitKind, p: Publication) -> LimitReached {
        match kind {
            LimitKind::QueueLength => LimitReached::QueueLength(p),
            LimitKind::Memory => LimitReached::Memory(p),
        }
    }

    /// The bound this report is about.
    pub open spec fn kind(self) -> LimitKind {
        match self {
            LimitReached::QueueLength(_) => LimitKind::QueueLength,
            LimitReached::Memory(_) => LimitKind::Memory,
        }
    }

    /// The displaced publication, for use in contracts.
    pub open spec fn displaced(self) -> Publication {
        match self {
            LimitReached::QueueLength(p) => p,
            LimitReached::Memory(p) => p,
        }
    }

    /// The wording of this report.
    pub open spec fn text(self) -> Seq<char> {
        match self {
            LimitReached::Memory(_) => "out of memory limits"@,
            LimitReached::QueueLength(_) => "out of queue length limits"@,
        }
    }

    /// The publication that was displaced.
    pub fn publication(&self) -> (r: &Publication)
        ensures
            *r == self.displaced(),
    {
        match self {
            Self::Memory(publication) => publication,
            Self::QueueLength(publication) => publication,
        }
    }

    /// A short human-readable description of the bound that was reached.
    pub fn to_string(&self) -> (r: String)
        ensures
            r@ == self.text(),
    {
        match self {
            Self::Memory(_) => "out of memory limits".to_owned(),
            Self::QueueLength(_) => "out of queue length limits".to_owned(),
        }
    }
}

/// The publications a queue holds, oldest first, and the running total of
/// their payload bytes.
#[derive(Debug, PartialEq)]
struct Backlog {
    inner: VecDeque<Publication>,
    // Wide enough for any number of payloads of any length, so that the
    // running total cannot overflow.
    current_size: u128,
}

impl Backlog {
    /// The running total is the exact sum of the payload lengths.
    spec fn consistent(&self) -> bool {
        self.current_size == payload_total(self.inner@)
    }

    /// A backlog that holds nothing.
    fn new() -> (backlog: Self)
        ensures
            backlog.consistent(),
            backlog.inner@ == Seq::<Publication>::empty(),
    {
        Self { inner: VecDeque::new(), current_size: 0 }
    }

    /// A backlog of copies of the same publications in the same order.
    fn duplicate(&self) -> (copy: Self)
        requires
            self.consistent(),
        ensures
            copy.consistent(),
            same_content(self.inner@, copy.inner@),
    {
        let inner = self.inner.clone();
        proof {
            assert(same_content(self.inner@, inner@)) by {
                assert forall|i: int| 0 <= i < self.inner@.len() implies (#[trigger] self.inner@[i])@
                    == inner@[i]@ by {
                    assert(cloned::<Publication>(self.inner[i], inner[i]));
                }
            }
            lemma_total_of_same_content(self.inner@, inner@);
        }
        Backlog { inner, current_size: self.current_size }
    }

    /// Takes the oldest publication out, and its payload off the total.
    fn pop(&mut self) -> (r: Option<Publication>)
        requires
            old(self).consistent(),
        ensures
            final(self).consistent(),
            old(self).inner@.len() == 0 ==> r is None && final(self).inner@ == old(self).inner@,
            old(self).inner@.len() > 0 ==> r == Some(old(self).inner@[0]) && final(self).inner@
                == old(self).inner@.drop_first(),
    {
        match self.inner.pop_front() {
            Some(publication) => {
                proof {
                    lemma_total_drop_first(old(self).inner@);
                }
                self.current_size -= publication.payload.len() as u128;
                Some(publication)
            },
            None => None,
        }
    }

    /// Puts `publication` behind all others, and its payload on the total.
    fn push(&mut self, publication: Publication)
        requires
            old(self).consistent(),
        ensures
            final(self).consistent(),
            final(self).inner@ == old(self).inner@.push(publication),
    {
        proof {
            assert(self.inner@.len() == self.inner.len());
            lemma_total_fits(self.inner@, publication);
            lemma_total_push(self.inner@, publication);
        }
        self.current_size += publication.payload.len() as u128;
        self.inner.push_back(publication);
    }
}

/// A first-in, first-out queue of publications with two optional bounds:
/// one on how many it holds, one on how many payload bytes they add up to.
///
/// An enqueue that would break a bound is settled by the queue's policy:
/// either the incoming publication is turned away, or the oldest one is
/// evicted to make room. Bounds and policy are fixed when the queue is
/// built.
///
/// Whatever is done to a queue, the total it keeps is the exact sum of the
/// payload lengths of the publications it holds.
#[derive(Debug, PartialEq)]
pub struct BoundedQueue {
    backlog: Backlog,
    max_len: Option<Limit>,
    max_size: Option<Limit>,
    when_full: QueueFullAction,
}

impl View for BoundedQueue {
    type V = Seq<Publication>;

    /// The queued publications, oldest first.
    closed spec fn view(&self) -> Seq<Publication> {
        self.backlog.inner@
    }
}

impl Clone for BoundedQueue {
    /// A queue with the same bounds that holds copies of the same
    /// publications in the same order.
    fn clone(&self) -> (copy: Self)
        ensures
            copy.bounds() == self.bounds(),
            same_content(self@, copy@),
    {
        proof {
            use_type_invariant(self);
        }
        BoundedQueue {
            backlog: self.backlog.duplicate(),
            max_len: self.max_len,
            max_size: self.max_size,
            when_full: self.when_full,
        }
    }
}

impl BoundedQueue {
    #[verifier::type_invariant]
    spec fn size_accounted(&self) -> bool {
        self.backlog.consistent()
    }

    /// The bounds and policy this queue was built with.
    pub closed spec fn bounds(&self) -> Bounds {
        Bounds {
            max_len: match self.max_len {
                Some(l) => Some(l@),
                None => None,
            },
            max_size: match self.max_size {
                Some(l) => Some(l@),
                None => None,
            },
            when_full: self.when_full,
        }
    }

    /// An empty queue with the given bounds and overflow policy.
    pub fn new(max_len: Option<Limit>, max_size: Option<Limit>, when_full: QueueFullAction) -> (q:
        Self)
        ensures
            q@ == Seq::<Publication>::empty(),
            q.bounds().valid(),
            q.bounds() == (Bounds {
                max_len: match max_len {
                    Some(l) => Some(l@),
                    None => None,
                },
                max_size: match max_size {
                    Some(l) => Some(l@),
                    None => None,
                },
                when_full,
            }),
    {
        if let Some(limit) = max_len {
            proof {
                use_type_invariant(&limit);
            }
        }
        if let Some(limit) = max_size {
            proof {
                use_type_invariant(&limit);
            }
        }
        Self { backlog: Backlog::new(), max_len, max_size, when_full }
    }

    /// Gives up the queue and hands over what it holds, oldest first.
    pub fn into_inner(self) -> (items: VecDeque<Publication>)
        ensures
            items@ == self@,
    {
        self.backlog.inner
    }

    /// Removes the oldest publication and returns it, or returns `None`
    /// and changes nothing when the queue is empty.
    pub fn dequeue(&mut self) -> (r: Option<Publication>)
        ensures
            final(self).bounds() == old(self).bounds(),
            old(self)@.len() == 0 ==> r is None && final(self)@ == old(self)@,
            old(self)@.len() > 0 ==> r == Some(old(self)@[0]) && final(self)@ == old(
                self,
            )@.drop_first(),
            payload_total(final(self)@) + (match r {
                Some(p) => p.payload_len(),
                None => 0,
            }) == payload_total(old(self)@),
    {
        proof {
            use_type_invariant(&*self);
            if self@.len() > 0 {
                lemma_total_drop_first(self@);
            }
        }
        let mut backlog = Backlog::new();
        std::mem::swap(&mut backlog, &mut self.backlog);
        let r = backlog.pop();
        self.backlog = backlog;
        r
    }

    /// Offers `publication` to the queue.
    ///
    /// It is appended unless a bound stands in the way; the count bound is
    /// looked at before the size bound. At a bound the overflow policy
    /// decides, and the publication that had to give way is reported
    /// together with the bound that was reached.
    ///
    /// A queue that drops the old evicts its head and no more, so it may
    /// end up above its size bound; and when it is empty it admits even a
    /// publication larger than that bound and reports nothing, for nothing
    /// gave way.
    pub fn enqueue(&mut self, publication: Publication) -> (r: Option<LimitReached>)
        ensures
            final(self).bounds() == old(self).bounds(),
            final(self)@ == old(self).bounds().items_after_enqueue(old(self)@, publication),
            r == old(self).bounds().enqueue_report(old(self)@, publication),
    {
        proof {
            use_type_invariant(&*self);
            assert(self.backlog.inner@.len() == self.backlog.inner.len());
            lemma_total_fits(self@, publication);
        }
        if let Some(max_len) = self.max_len {
            if self.backlog.inner.len() >= max_len.get() {
                return match self.handle_queue_limit(publication) {
                    Some(displaced) => Some(LimitReached::QueueLength(displaced)),
                    None => None,
                };
            }
        }
        if let Some(max_size) = self.max_size {
            let pub_len = publication.payload.len();
            if self.backlog.current_size + pub_len as u128 > max_size.get() as u128 {
                return match self.handle_queue_limit(publication) {
                    Some(displaced) => Some(LimitReached::Memory(displaced)),
                    None => None,
                };
            }
        }
        self.push(publication);
        None
    }

    /// Number of queued publications.
    pub fn len(&self) -> (n: usize)
        ensures
            n == self@.len(),
    {
        self.backlog.inner.len()
    }

    /// Walks the queued publications, oldest first, without removing them.
    pub fn iter(&self) -> (it: std::collections::vec_deque::Iter<'_, Publication>)
        ensures
            vstd::std_specs::iter::IteratorSpec::remaining(&it) == self@.as_ref(),
            vstd::std_specs::iter::IteratorSpec::decrease(&it) is Some,
            vstd::std_specs::iter::IteratorSpec::initial_value_relation(&it, &it),
    {
        broadcast use vstd::std_specs::vecdeque::axiom_spec_iter;
        self.backlog.inner.iter()
    }

    /// Total number of payload bytes queued: at any time the exact sum of
    /// the payload lengths of the publications held.
    pub fn size(&self) -> (n: u128)
        ensures
            n == payload_total(self@),
    {
        proof {
            use_type_invariant(self);
        }
        self.backlog.current_size
    }

    /// Appends `publication`, bounds or no bounds.
    fn push(&mut self, publication: Publication)
        ensures
            final(self).bounds() == old(self).bounds(),
            final(self)@ == old(self)@.push(publication),
    {
        proof {
            use_type_invariant(&*self);
        }
        let mut backlog = Backlog::new();
        std::mem::swap(&mut backlog, &mut self.backlog);
        backlog.push(publication);
        self.backlog = backlog;
    }

    /// Applies the overflow policy to a queue that cannot take
    /// `publication` as it is, and returns the publication that gave way.
    fn handle_queue_limit(&mut self, publication: Publication) -> (r: Option<Publication>)
        ensures
            final(self).bounds() == old(self).bounds(),
            final(self)@ == old(self).bounds().items_after_overflow(old(self)@, publication),
            r == old(self).bounds().displaced_by_overflow(old(self)@, publication),
    {
        match self.when_full {
            QueueFullAction::DropNew => Some(publication),
            QueueFullAction::DropOld => {
                let dequed = self.dequeue();
                self.push(publication);
                dequed
            },
        }
    }

    /// Enqueues each of `items` in turn, oldest first, and lets go of
    /// whatever the bounds displace on the way.
    pub fn extend(&mut self, items: Vec<Publication>)
        ensures
            final(self).bounds() == old(self).bounds(),
            final(self)@ == old(self).bounds().items_after_extend(old(self)@, items@),
    {
        for item in it: items
            invariant
                self.bounds() == old(self).bounds(),
                it.seq() == items@,
                self@ == old(self).bounds().items_after_extend(
                    old(self)@,
                    items@.take(it.index() as int),
                ),
        {
            proof {
                let k = it.index() as int;
                assert(items@.take(k + 1).drop_last() =~= items@.take(k));
                assert(items@.take(k + 1).last() == item);
            }
            let _ = self.enqueue(item);
        }
        proof {
            assert(items@.take(items@.len() as int) =~= items@);
        }
    }
}

} // verus!

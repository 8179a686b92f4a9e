//! Published messages as the queue sees them.

use vstd::prelude::*;

verus! {

/// The delivery guarantee a publication was sent with.
#[derive(Clone, Copy, Debug, PartialEq, Eq, Structural)]
pub enum QoS {
    AtMostOnce,
    AtLeastOnce,
    ExactlyOnce,
}

/// One published message.
///
/// The queue measures the payload and carries everything else along
/// untouched.
#[derive(Debug, PartialEq, Eq)]
pub struct Publication {
    pub topic_name: String,
    pub qos: QoS,
    pub retain: bool,
    pub payload: Vec<u8>,
}

/// The mathematical content of a [`Publication`].
pub struct PublicationView {
    pub topic_name: Seq<char>,
    pub qos: QoS,
    pub retain: bool,
    pub payload: Seq<u8>,
}

impl View for Publication {
    type V = PublicationView;

    open spec fn view(&self) -> PublicationView {
        PublicationView {
            topic_name: self.topic_name@,
            qos: self.qos,
            retain: self.retain,
            payload: self.payload@,
        }
    }
}

impl Clone for Publication {
    /// A copy with the same topic, flags and payload.
    fn clone(&self) -> (copy: Self)
        ensures
            copy@ == self@,
    {
        Publication {
            topic_name: self.topic_name.clone(),
            qos: self.qos,
            retain: self.retain,
            payload: self.payload.clone(),
        }
    }
}

impl Publication {
    /// Number of payload bytes, the only thing the queue accounts for.
    pub open spec fn payload_len(&self) -> nat {
        self@.payload.len()
    }
}

/// Sum of the payload lengths of `items`.
pub open spec fn payload_total(items: Seq<Publication>) -> nat
    decreases items.len(),
{
    if items.len() == 0 {
        0
    } else {
        payload_total(items.drop_last()) + items.last().payload_len()
    }
}

/// Appending a publication adds exactly its payload length to the total.
pub proof fn lemma_total_push(items: Seq<Publication>, p: Publication)
    ensures
        payload_total(items.push(p)) == payload_total(items) + p.payload_len(),
{
    assert(items.push(p).drop_last() =~= items);
}

/// Removing the head takes exactly its payload length off the total.
pub proof fn lemma_total_drop_first(items: Seq<Publication>)
    requires
        items.len() > 0,
    ensures
        payload_total(items.drop_first()) + items[0].payload_len() == payload_total(items),
    decreases items.len(),
{
    if items.len() == 1 {
        assert(items.drop_first() =~= Seq::<Publication>::empty());
        assert(items.drop_last() =~= Seq::<Publication>::empty());
    } else {
        lemma_total_drop_first(items.drop_last());
        assert(items.drop_last().drop_first() =~= items.drop_first().drop_last());
    }
}

/// Whether `a` and `b` hold publications of the same content, one by one.
pub open spec fn same_content(a: Seq<Publication>, b: Seq<Publication>) -> bool {
    &&& a.len() == b.len()
    &&& forall|i: int| 0 <= i < a.len() ==> (#[trigger] a[i])@ == b[i]@
}

/// Publications of the same content weigh the same.
pub proof fn lemma_total_of_same_content(a: Seq<Publication>, b: Seq<Publication>)
    requires
        same_content(a, b),
    ensures
        payload_total(a) == payload_total(b),
    decreases a.len(),
{
    if a.len() > 0 {
        assert(a.last()@ == b.last()@) by {
            assert(a[a.len() - 1]@ == b[a.len() - 1]@);
        }
        lemma_total_of_same_content(a.drop_last(), b.drop_last());
    }
}

/// No payload is longer than `usize::MAX` bytes, so `n` publications
/// never weigh more than `n * usize::MAX`.
pub proof fn lemma_total_bounded(items: Seq<Publication>)
    ensures
        payload_total(items) <= items.len() * usize::MAX,
    decreases items.len(),
{
    if items.len() > 0 {
        lemma_total_bounded(items.drop_last());
        let n = items.len() as int;
        assert(items.last().payload.len() == items.last().payload_len());
        assert((n - 1) * usize::MAX + usize::MAX == n * usize::MAX) by (nonlinear_arith);
    }
}

/// The total of as many publications as a collection can hold, and one
/// more payload on top, fits in 128 bits.
pub proof fn lemma_total_fits(items: Seq<Publication>, p: Publication)
    requires
        items.len() <= usize::MAX,
    ensures
        payload_total(items) + p.payload_len() <= u128::MAX,
{
    lemma_total_bounded(items);
    assert(p.payload.len() == p.payload_len());
    let n = items.len() as int;
    let m = usize::MAX as int;
    assert(m <= 0xffff_ffff_ffff_ffff);
    assert(n * m + m <= 0xffff_ffff_ffff_ffff * 0xffff_ffff_ffff_ffff + 0xffff_ffff_ffff_ffff)
        by (nonlinear_arith)
        requires
            0 <= n <= m,
            0 <= m <= 0xffff_ffff_ffff_ffff,
    ;
}

} // verus!

//! The aggregation side of the reporting protocol. A fixed number of
//! workers share one channel; each sends its data and then one `EOF`.
//! The collector appends every payload in arrival order and is done
//! exactly when every expected worker has signed off. The channel and
//! the thread that pumps it live outside the library; the state and the
//! decisions live here.

use crate::message::Message;
use crate::plan::Plan;
use vstd::prelude::*;

verus! {

/// The payloads of a message sequence, in arrival order.
pub open spec fn bodies_of<T>(msgs: Seq<Message<T>>) -> Seq<T>
    decreases msgs.len(),
{
    if msgs.len() == 0 {
        Seq::empty()
    } else {
        bodies_of(msgs.drop_last()) + (match msgs.last() {
            Message::Body(t) => seq![t],
            Message::EOF => Seq::empty(),
        })
    }
}

/// How many end-of-stream markers a message sequence carries.
pub open spec fn eof_count<T>(msgs: Seq<Message<T>>) -> int
    decreases msgs.len(),
{
    if msgs.len() == 0 {
        0int
    } else {
        eof_count(msgs.drop_last()) + (if msgs.last() is EOF {
            1int
        } else {
            0int
        })
    }
}

/// The collector's state: how many workers it waits for, how many have
/// signed off, and everything received so far.
pub struct Collector<T> {
    expected: usize,
    eofs: usize,
    data: Vec<T>,
}

impl<T> Collector<T> {
    /// The number of workers whose end markers terminate the run.
    pub closed spec fn spec_expected(&self) -> usize {
        self.expected
    }

    /// The number of end markers received so far.
    pub closed spec fn spec_eofs(&self) -> usize {
        self.eofs
    }

    /// Everything received so far, in arrival order.
    pub closed spec fn spec_data(&self) -> Seq<T> {
        self.data@
    }

    /// The collector terminates exactly when every expected worker has
    /// signed off.
    pub open spec fn spec_done(&self) -> bool {
        self.spec_eofs() >= self.spec_expected()
    }

    /// Starts collecting for a plan: one end marker is awaited per
    /// planned thread, and room is set aside for the planned requests.
    pub fn new(plan: Plan) -> (c: Self)
        ensures
            c.spec_expected() == plan.spec_threads(),
            c.spec_eofs() == 0,
            c.spec_data() == Seq::<T>::empty(),
    {
        let c = Collector {
            expected: plan.threads(),
            eofs: 0,
            data: Vec::with_capacity(plan.requests()),
        };
        proof {
            assert(c.spec_data() =~= Seq::<T>::empty());
        }
        c
    }

    /// Takes one message in: a payload is appended, an end marker is
    /// counted, and nothing else changes.
    pub fn accept(&mut self, msg: Message<T>)
        requires
            !old(self).spec_done(),
        ensures
            final(self).spec_expected() == old(self).spec_expected(),
            (match msg {
                Message::Body(t) => final(self).spec_data() == old(self).spec_data().push(t)
                    && final(self).spec_eofs() == old(self).spec_eofs(),
                Message::EOF => final(self).spec_data() == old(self).spec_data()
                    && final(self).spec_eofs() == old(self).spec_eofs() + 1,
            }),
    {
        match msg {
            Message::Body(t) => self.data.push(t),
            Message::EOF => self.eofs = self.eofs + 1,
        }
    }

    /// Whether every expected worker has signed off.
    pub fn is_done(&self) -> (b: bool)
        ensures
            b == self.spec_done(),
    {
        self.eofs >= self.expected
    }

    /// How many payloads have arrived so far.
    pub fn collected(&self) -> (n: usize)
        ensures
            n == self.spec_data().len(),
    {
        self.data.len()
    }

    /// Hands the accumulated dataset over.
    pub fn into_data(self) -> (d: Vec<T>)
        ensures
            d@ == self.spec_data(),
    {
        self.data
    }
}

/// A stream of nothing but end markers carries no data: its payloads
/// are empty and every marker is counted.
pub proof fn lemma_all_eof<T>(msgs: Seq<Message<T>>)
    requires
        forall|i: int| 0 <= i < msgs.len() ==> msgs[i] is EOF,
    ensures
        bodies_of(msgs) == Seq::<T>::empty(),
        eof_count(msgs) == msgs.len(),
    decreases msgs.len(),
{
    if msgs.len() > 0 {
        lemma_all_eof(msgs.drop_last());
        assert(bodies_of(msgs) =~= Seq::<T>::empty());
    } else {
        assert(bodies_of(msgs) =~= Seq::<T>::empty());
    }
}

/// Termination of the collection protocol: when `w` workers send only
/// their end markers, the result is empty, and the run is over after
/// exactly `w` markers - never before, however the arrivals interleave.
pub proof fn lemma_termination<T>(msgs: Seq<Message<T>>)
    requires
        forall|i: int| 0 <= i < msgs.len() ==> msgs[i] is EOF,
    ensures
        bodies_of(msgs) == Seq::<T>::empty(),
        eof_count(msgs) == msgs.len(),
        forall|k: int| 0 <= k < msgs.len() ==> eof_count(#[trigger] msgs.take(k)) < msgs.len(),
{
    lemma_all_eof(msgs);
    assert forall|k: int| 0 <= k < msgs.len() implies eof_count(#[trigger] msgs.take(k))
        < msgs.len() by {
        assert(forall|i: int| 0 <= i < k ==> msgs.take(k)[i] is EOF);
        lemma_all_eof(msgs.take(k));
    }
}

/// Completeness of the collection protocol: one worker's payloads
/// followed by its end marker come back whole and in their send order.
pub proof fn lemma_completeness<T>(bodies: Seq<T>)
    ensures
        bodies_of(bodies.map_values(|t: T| Message::Body(t)).push(Message::EOF)) == bodies,
        eof_count(bodies.map_values(|t: T| Message::Body(t)).push(Message::EOF)) == 1,
{
    let mapped = bodies.map_values(|t: T| Message::Body(t));
    lemma_bodies_of_mapped(bodies);
    let msgs = mapped.push(Message::<T>::EOF);
    assert(msgs.drop_last() =~= mapped);
    assert(bodies_of(msgs) =~= bodies);
}

/// Payloads alone map back to themselves and carry no end marker.
proof fn lemma_bodies_of_mapped<T>(bodies: Seq<T>)
    ensures
        bodies_of(bodies.map_values(|t: T| Message::Body(t))) == bodies,
        eof_count(bodies.map_values(|t: T| Message::Body(t))) == 0,
    decreases bodies.len(),
{
    let mapped = bodies.map_values(|t: T| Message::Body(t));
    if bodies.len() == 0 {
        assert(bodies_of(mapped) =~= bodies);
    } else {
        lemma_bodies_of_mapped(bodies.drop_last());
        assert(mapped.drop_last() =~= bodies.drop_last().map_values(|t: T| Message::Body(t)));
        assert(bodies_of(mapped) =~= bodies);
    }
}

} // verus!

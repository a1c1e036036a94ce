//! Ordering of inbound acknowledgements.
//!
//! Every inbound request that needs an answer takes a slot at the back of
//! the queue when it arrives. Its handler may finish at any time, but answers
//! leave the queue only from the front, so they reach the wire in the order
//! the requests arrived.
use vstd::prelude::*;

verus! {

/// The answer a slot stands for, with the packet id it echoes.
#[derive(Clone, Copy, Debug, PartialEq, Eq, Structural)]
pub enum AckKind {
    PublishAck(u16),
    PublishReceived(u16),
    PublishComplete(u16),
    SubscribeAck(u16),
    UnsubscribeAck(u16),
    PingResponse,
}

struct Slot<P> {
    seq: u64,
    kind: AckKind,
    result: Option<P>,
}

/// A FIFO of answers in arrival order; a slot holds the handler's result
/// once it has finished.
pub struct AckQueue<P> {
    slots: Vec<Slot<P>>,
    first_seq: u64,
    next_seq: u64,
    arrived: Ghost<Seq<AckKind>>,
    written: Ghost<Seq<AckKind>>,
}

/// The kinds of the answers in `out`, in order.
pub open spec fn kinds_of<P>(out: Seq<(AckKind, P)>) -> Seq<AckKind> {
    out.map_values(|e: (AckKind, P)| e.0)
}

impl<P> AckQueue<P> {
    /// Every answer owed so far, one per request, in arrival order.
    pub closed spec fn arrived(&self) -> Seq<AckKind> {
        self.arrived@
    }

    /// The answers already handed out for the wire, in the order handed out.
    pub closed spec fn written(&self) -> Seq<AckKind> {
        self.written@
    }

    /// The slots still queued, front first: their kind and, once the handler
    /// finished, its result.
    pub closed spec fn pending(&self) -> Seq<(AckKind, Option<P>)> {
        self.slots@.map_values(|s: Slot<P>| (s.kind, s.result))
    }

    /// Arrival number of the next request.
    pub closed spec fn next_seq(&self) -> nat {
        self.next_seq as nat
    }

    pub closed spec fn wf(&self) -> bool {
        &&& self.arrived@.len() == self.next_seq
        &&& self.first_seq == self.written@.len()
        &&& self.written@.len() + self.slots@.len() == self.arrived@.len()
        &&& forall|j: int| 0 <= j < self.written@.len() ==> self.written@[j] == self.arrived@[j]
        &&& forall|i: int|
            0 <= i < self.slots@.len() ==> {
                &&& (#[trigger] self.slots@[i]).seq == self.first_seq + i
                &&& self.slots@[i].kind == self.arrived@[self.first_seq + i]
            }
    }

    pub fn new() -> (r: Self)
        ensures
            r.wf(),
            r.arrived() == Seq::<AckKind>::empty(),
            r.written() == Seq::<AckKind>::empty(),
            r.pending().len() == 0,
            r.next_seq() == 0,
    {
        AckQueue {
            slots: Vec::new(),
            first_seq: 0,
            next_seq: 0,
            arrived: Ghost(Seq::empty()),
            written: Ghost(Seq::empty()),
        }
    }

    /// Number of requests whose answer has not left the queue.
    pub fn len(&self) -> (r: usize)
        ensures
            r == self.pending().len(),
    {
        self.slots.len()
    }

    /// Takes a slot at the back for a request that just arrived, and returns
    /// its arrival number.
    pub fn enqueue(&mut self, kind: AckKind) -> (seq: u64)
        requires
            old(self).wf(),
            old(self).next_seq() < u64::MAX,
        ensures
            final(self).wf(),
            seq == old(self).next_seq(),
            final(self).next_seq() == old(self).next_seq() + 1,
            final(self).arrived() == old(self).arrived().push(kind),
            final(self).written() == old(self).written(),
            final(self).pending() == old(self).pending().push((kind, None::<P>)),
    {
        let seq = self.next_seq;
        proof {
            self.arrived@ = self.arrived@.push(kind);
        }
        self.slots.push(Slot { seq, kind, result: None });
        self.next_seq = seq + 1;
        assert(self.pending() =~= old(self).pending().push((kind, None::<P>)));
        seq
    }

    /// Records the result of the handler for request `seq`. Returns `false`,
    /// changing nothing, when no unfinished slot has that number.
    pub fn complete(&mut self, seq: u64, result: P) -> (r: bool)
        requires
            old(self).wf(),
        ensures
            final(self).wf(),
            final(self).arrived() == old(self).arrived(),
            final(self).written() == old(self).written(),
            final(self).next_seq() == old(self).next_seq(),
            r <==> {
                &&& old(self).written().len() <= seq < old(self).next_seq()
                &&& old(self).pending()[seq - old(self).written().len()].1 is None
            },
            r ==> final(self).pending() == old(self).pending().update(
                seq - old(self).written().len(),
                (old(self).pending()[seq - old(self).written().len()].0, Some(result)),
            ),
            !r ==> final(self).pending() == old(self).pending(),
    {
        if seq < self.first_seq || seq >= self.next_seq {
            return false;
        }
        let n = self.slots.len();
        assert(seq - self.first_seq < n);
        let idx = (seq - self.first_seq) as usize;
        assert(self.pending()[idx as int] == (self.slots@[idx as int].kind, self.slots@[idx as int].result));
        if self.slots[idx].result.is_some() {
            return false;
        }
        let kind = self.slots[idx].kind;
        self.slots.set(idx, Slot { seq, kind, result: Some(result) });
        assert(self.pending() =~= old(self).pending().update(
            seq - old(self).written().len(),
            (old(self).pending()[seq - old(self).written().len()].0, Some(result)),
        ));
        true
    }

    /// Hands out, front first, every answer whose handler has finished and
    /// whose earlier requests have all been answered. A finished slot behind
    /// an unfinished one stays queued.
    pub fn flush(&mut self) -> (out: Vec<(AckKind, P)>)
        requires
            old(self).wf(),
        ensures
            final(self).wf(),
            out@.len() <= old(self).pending().len(),
            forall|i: int|
                0 <= i < out@.len() ==> old(self).pending()[i] == (
                    #[trigger] out@[i].0,
                    Some(out@[i].1),
                ),
            out@.len() == old(self).pending().len() || old(self).pending()[out@.len() as int].1 is None,
            final(self).pending() == old(self).pending().skip(out@.len() as int),
            final(self).written() == old(self).written() + kinds_of(out@),
            final(self).arrived() == old(self).arrived(),
            final(self).next_seq() == old(self).next_seq(),
            (forall|i: int| 0 <= i < old(self).pending().len() ==> (#[trigger] old(self).pending()[i]).1 is Some)
                ==> final(self).pending().len() == 0 && final(self).written() == final(self).arrived(),
    {
        let mut out: Vec<(AckKind, P)> = Vec::new();
        loop
            invariant
                self.wf(),
                out@.len() <= old(self).pending().len(),
                forall|i: int|
                    0 <= i < out@.len() ==> old(self).pending()[i] == (
                        #[trigger] out@[i].0,
                        Some(out@[i].1),
                    ),
                self.pending() == old(self).pending().skip(out@.len() as int),
                self.written() == old(self).written() + kinds_of(out@),
                self.arrived() == old(self).arrived(),
                self.next_seq() == old(self).next_seq(),
            ensures
                out@.len() == old(self).pending().len() || old(self).pending()[out@.len() as int].1 is None,
            decreases self.slots@.len(),
        {
            if self.slots.len() == 0 || self.slots[0].result.is_none() {
                proof {
                    assert(self.pending().len() == self.slots@.len());
                    if self.slots@.len() > 0 {
                        assert(self.pending()[0] == old(self).pending().skip(out@.len() as int)[0]);
                    }
                }
                break;
            }
            let ghost before = self.pending();
            assert(before[0] == (self.slots@[0].kind, self.slots@[0].result));
            assert(before.len() == self.slots@.len());
            assert(before[0] == old(self).pending().skip(out@.len() as int)[0]);
            let ghost w = self.written@;
            let slot = self.slots.remove(0);
            proof {
                self.written@ = self.written@.push(slot.kind);
            }
            self.first_seq = self.first_seq + 1;
            match slot.result {
                Some(p) => {
                    out.push((slot.kind, p));
                },
                None => {},
            }
            assert(out@.last() == (slot.kind, slot.result.unwrap()));
            assert(self.pending() =~= before.skip(1));
            assert(self.pending() =~= old(self).pending().skip(out@.len() as int));
            assert(kinds_of(out@) =~= kinds_of(out@.drop_last()).push(slot.kind));
            assert(self.written@ =~= old(self).written() + kinds_of(out@));
            assert forall|i: int| 0 <= i < self.slots@.len() implies {
                &&& (#[trigger] self.slots@[i]).seq == self.first_seq + i
                &&& self.slots@[i].kind == self.arrived@[self.first_seq + i]
            } by {}
        }
        proof {
            if forall|i: int| 0 <= i < old(self).pending().len() ==> (#[trigger] old(self).pending()[i]).1 is Some {
                assert(self.pending().len() == self.slots@.len());
                assert(self.written() =~= self.arrived());
            }
        }
        out
    }
}

/// Answers reach the wire in the order their requests arrived, each exactly
/// once: what has been handed out is always the leading part of the answers
/// owed, and every other answer owed is still queued, in order.
pub proof fn lemma_acks_in_arrival_order<P>(q: &AckQueue<P>)
    requires
        q.wf(),
    ensures
        q.written() == q.arrived().take(q.written().len() as int),
        q.written().len() + q.pending().len() == q.arrived().len(),
        q.next_seq() == q.arrived().len(),
        forall|i: int|
            0 <= i < q.pending().len() ==> (#[trigger] q.pending()[i]).0 == q.arrived()[q.written().len() + i],
{
    assert(q.written() =~= q.arrived().take(q.written().len() as int));
    assert forall|i: int| 0 <= i < q.pending().len() implies (#[trigger] q.pending()[i]).0 == q.arrived()[q.written().len() + i] by {
        assert(q.pending()[i] == (q.slots@[i].kind, q.slots@[i].result));
    }
}

} // verus!

//! The inbound engine of one session: routing, answer slots and the
//! exactly-once book-keeping, put together.
//!
//! Each packet is routed by the [`Dispatcher`]; an answer it calls for takes
//! its slot in the [`AckQueue`] at once, so answers leave in arrival order
//! whatever order the handlers finish in. Answers are plain: a kind with its
//! packet id, and the return codes of a SUBACK.
use vstd::prelude::*;

use crate::ack_queue::{kinds_of, AckKind, AckQueue};
use crate::dispatcher::{action_of, Action, Dispatcher, DispatcherConfig, Inbound, Phase};

verus! {

/// What the caller does after a packet was routed.
#[derive(Clone, Copy, Debug, PartialEq, Eq, Structural)]
pub struct Routed {
    pub action: Action,
    /// The answer slot taken for the packet, if any; the handler's result is
    /// handed back under this number.
    pub slot: Option<u64>,
}

/// The answer kind that `action` queues, if any.
pub open spec fn queued_kind(action: Action) -> Option<AckKind> {
    match action {
        Action::DeliverAndAnswer(k) => Some(k),
        Action::Control(k) => Some(k),
        Action::Answer(k) => Some(k),
        _ => None,
    }
}

/// The inbound state of one session.
pub struct Session {
    dispatcher: Dispatcher,
    queue: AckQueue<Vec<u8>>,
}

impl Session {
    pub closed spec fn dispatcher(&self) -> Dispatcher {
        self.dispatcher
    }

    pub closed spec fn queue(&self) -> AckQueue<Vec<u8>> {
        self.queue
    }

    pub closed spec fn wf(&self) -> bool {
        &&& self.dispatcher.wf()
        &&& self.queue.wf()
        &&& forall|i: int| 0 <= i < self.queue.arrived().len() ==> match #[trigger] self.queue.arrived()[i] {
            AckKind::PublishReceived(id) => id != 0,
            _ => true,
        }
    }

    pub fn new(config: DispatcherConfig) -> (r: Self)
        ensures
            r.wf(),
            r.dispatcher().config() == config,
            r.dispatcher().phase() == Phase::Active,
            r.dispatcher().awaiting_release() == Seq::<u16>::empty(),
            !r.dispatcher().client_disconnected(),
            r.queue().arrived() == Seq::<AckKind>::empty(),
            r.queue().written() == Seq::<AckKind>::empty(),
            r.queue().next_seq() == 0,
    {
        Session { dispatcher: Dispatcher::new(config), queue: AckQueue::new() }
    }

    /// Routes one inbound packet. When the action owes an answer, its slot
    /// is taken now, behind every answer owed before; an answer that needs
    /// no handler (PUBCOMP, a repeated PUBREC) is ready at once.
    pub fn on_packet(&mut self, packet: Inbound) -> (r: Routed)
        requires
            old(self).wf(),
            old(self).queue().next_seq() < u64::MAX,
        ensures
            final(self).wf(),
            r.action == if old(self).dispatcher().phase() == Phase::Active {
                action_of(
                    old(self).dispatcher().config(),
                    old(self).dispatcher().awaiting_release(),
                    old(self).dispatcher().client_disconnected(),
                    packet,
                )
            } else {
                Action::Drop
            },
            final(self).dispatcher().phase() == if old(self).dispatcher().phase() == Phase::Active
                && r.action is Violation {
                Phase::Draining
            } else {
                old(self).dispatcher().phase()
            },
            final(self).queue().written() == old(self).queue().written(),
            match queued_kind(r.action) {
                Some(k) => {
                    &&& final(self).queue().arrived() == old(self).queue().arrived().push(k)
                    &&& r.slot == Some(old(self).queue().next_seq() as u64)
                    &&& final(self).queue().next_seq() == old(self).queue().next_seq() + 1
                    &&& final(self).queue().pending().len() == old(self).queue().pending().len() + 1
                    &&& final(self).queue().pending().drop_last() == old(self).queue().pending()
                    &&& final(self).queue().pending().last().0 == k
                    &&& r.action is Answer ==> (final(self).queue().pending().last().1 matches Some(v) && v@.len()
                        == 0)
                    &&& !(r.action is Answer) ==> final(self).queue().pending().last().1 is None
                },
                None => {
                    &&& final(self).queue().arrived() == old(self).queue().arrived()
                    &&& final(self).queue().pending() == old(self).queue().pending()
                    &&& final(self).queue().next_seq() == old(self).queue().next_seq()
                    &&& r.slot is None
                },
            },
    {
        let action = self.dispatcher.on_packet(packet);
        let kind = match action {
            Action::DeliverAndAnswer(k) => Some(k),
            Action::Control(k) => Some(k),
            Action::Answer(k) => Some(k),
            _ => None,
        };
        match kind {
            None => Routed { action, slot: None },
            Some(k) => {
                let seq = self.queue.enqueue(k);
                if let Action::Answer(_) = action {
                    proof {
                        crate::ack_queue::lemma_acks_in_arrival_order(&self.queue);
                    }
                    let ghost before = self.queue.pending();
                    let v: Vec<u8> = Vec::new();
                    let _ = self.queue.complete(seq, v);
                    assert(self.queue.pending().drop_last() =~= before.drop_last());
                }
                Routed { action, slot: Some(seq) }
            },
        }
    }

    /// Whether a PUBREL is awaited for `id`.
    pub fn is_awaiting_release(&self, id: u16) -> (r: bool)
        ensures
            r == self.dispatcher().awaiting_release().contains(id),
    {
        self.dispatcher.is_awaiting_release(id)
    }

    pub fn phase_now(&self) -> (r: Phase)
        ensures
            r == self.dispatcher().phase(),
    {
        self.dispatcher.phase_now()
    }

    /// Hands the handler's result for answer slot `slot` back; `false`, with
    /// nothing changed, when no unfinished slot has that number.
    pub fn complete(&mut self, slot: u64, result: Vec<u8>) -> (r: bool)
        requires
            old(self).wf(),
        ensures
            final(self).wf(),
            final(self).dispatcher() == old(self).dispatcher(),
            final(self).queue().arrived() == old(self).queue().arrived(),
            final(self).queue().written() == old(self).queue().written(),
            final(self).queue().next_seq() == old(self).queue().next_seq(),
            r <==> {
                &&& old(self).queue().written().len() <= slot < old(self).queue().next_seq()
                &&& old(self).queue().pending()[slot - old(self).queue().written().len()].1 is None
            },
            r ==> final(self).queue().pending() == old(self).queue().pending().update(
                slot - old(self).queue().written().len(),
                (old(self).queue().pending()[slot - old(self).queue().written().len()].0, Some(result)),
            ),
            !r ==> final(self).queue().pending() == old(self).queue().pending(),
    {
        self.queue.complete(slot, result)
    }

    /// Takes every answer that may go out now, front first (see
    /// [`AckQueue::flush`]). Each PUBREC among them starts the wait for its
    /// PUBREL.
    pub fn flush(&mut self) -> (out: Vec<(AckKind, Vec<u8>)>)
        requires
            old(self).wf(),
        ensures
            final(self).wf(),
            out@.len() <= old(self).queue().pending().len(),
            forall|i: int|
                0 <= i < out@.len() ==> old(self).queue().pending()[i] == (
                    #[trigger] out@[i].0,
                    Some(out@[i].1),
                ),
            out@.len() == old(self).queue().pending().len() || old(self).queue().pending()[out@.len() as int].1 is None,
            final(self).queue().pending() == old(self).queue().pending().skip(out@.len() as int),
            final(self).queue().written() == old(self).queue().written() + kinds_of(out@),
            final(self).queue().arrived() == old(self).queue().arrived(),
            final(self).queue().next_seq() == old(self).queue().next_seq(),
            final(self).dispatcher().config() == old(self).dispatcher().config(),
            final(self).dispatcher().phase() == old(self).dispatcher().phase(),
            final(self).dispatcher().client_disconnected() == old(self).dispatcher().client_disconnected(),
            forall|x: u16|
                #[trigger] final(self).dispatcher().awaiting_release().contains(x) <==> (old(
                    self,
                ).dispatcher().awaiting_release().contains(x) || kinds_of(out@).contains(
                    AckKind::PublishReceived(x),
                )),
    {
        proof {
            crate::ack_queue::lemma_acks_in_arrival_order(&self.queue);
        }
        let out = self.queue.flush();
        let ghost q1 = self.queue;
        let mut i: usize = 0;
        while i < out.len()
            invariant
                0 <= i <= out@.len(),
                self.dispatcher.wf(),
                self.queue == q1,
                q1.wf(),
                q1.arrived() == old(self).queue.arrived(),
                forall|j: int| 0 <= j < self.queue.arrived().len() ==> match #[trigger] self.queue.arrived()[j] {
                    AckKind::PublishReceived(id) => id != 0,
                    _ => true,
                },
                forall|j: int| 0 <= j < out@.len() ==> #[trigger] out@[j].0 == old(self).queue.arrived()[old(self).queue.written().len() + j],
                old(self).queue.written().len() + out@.len() <= old(self).queue.arrived().len(),
                self.dispatcher.config() == old(self).dispatcher.config(),
                self.dispatcher.phase() == old(self).dispatcher.phase(),
                self.dispatcher.client_disconnected() == old(self).dispatcher.client_disconnected(),
                forall|x: u16|
                    #[trigger] self.dispatcher.awaiting_release().contains(x) <==> (old(
                        self,
                    ).dispatcher.awaiting_release().contains(x) || kinds_of(out@.take(i as int)).contains(
                        AckKind::PublishReceived(x),
                    )),
            decreases out@.len() - i,
        {
            let ghost prev = kinds_of(out@.take(i as int));
            assert(kinds_of(out@.take(i + 1)) =~= prev.push(out@[i as int].0));
            let ghost k = out@[i as int].0;
            let ghost before = self.dispatcher.awaiting_release();
            if let AckKind::PublishReceived(id) = out[i].0 {
                assert(old(self).queue.arrived()[old(self).queue.written().len() + i] == out@[i as int].0);
                self.dispatcher.on_received_written(id);
            }
            assert forall|x: u16|
                #[trigger] self.dispatcher.awaiting_release().contains(x) <==> (old(
                    self,
                ).dispatcher.awaiting_release().contains(x) || prev.push(k).contains(
                    AckKind::PublishReceived(x),
                )) by {
                if prev.contains(AckKind::PublishReceived(x)) {
                    let j = choose|j: int| 0 <= j < prev.len() && prev[j] == AckKind::PublishReceived(x);
                    assert(prev.push(k)[j] == AckKind::PublishReceived(x));
                }
                if prev.push(k).contains(AckKind::PublishReceived(x)) {
                    let j = choose|j: int| 0 <= j < prev.len() + 1 && prev.push(k)[j] == AckKind::PublishReceived(x);
                    if j < prev.len() {
                        assert(prev[j] == AckKind::PublishReceived(x));
                    }
                }
                if k == AckKind::PublishReceived(x) {
                    assert(prev.push(k)[prev.len() as int] == k);
                }
            }
            i = i + 1;
        }
        assert(out@.take(out@.len() as int) =~= out@);
        out
    }
}

} // verus!

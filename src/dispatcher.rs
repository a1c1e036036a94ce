//! Routing of inbound packets once a session is established.
//!
//! For each decoded packet the dispatcher decides what happens: which
//! handler runs, which answer slot is queued, what goes to the sink, or
//! which protocol violation ends the session. It also keeps the ids of QoS-2
//! publishes that were answered with PUBREC and wait for their PUBREL.
use vstd::prelude::*;

use crate::ack_queue::AckKind;
use crate::packet::{PacketType, QoS};

verus! {

/// Server settings that govern inbound traffic.
#[derive(Clone, Copy, Debug, PartialEq, Eq, Structural)]
pub struct DispatcherConfig {
    /// Highest QoS a client may publish with.
    pub max_qos: QoS,
    /// After a client DISCONNECT, publishes up to this QoS are still handled;
    /// `None` drops them all.
    pub handle_qos_after_disconnect: Option<QoS>,
}

/// An inbound packet, as far as routing needs it.
#[derive(Clone, Copy, Debug, PartialEq, Eq, Structural)]
pub enum Inbound {
    /// `packet_id` is meaningful only for QoS 1 and 2.
    Publish { qos: QoS, packet_id: u16, dup: bool },
    PublishAck(u16),
    PublishReceived(u16),
    PublishRelease(u16),
    PublishComplete(u16),
    Subscribe(u16),
    Unsubscribe(u16),
    PingRequest,
    Disconnect,
    Connect,
    /// A packet only a server sends (CONNACK, SUBACK, UNSUBACK, PINGRESP).
    ServerOnly(PacketType),
}

/// A breach of the protocol by the client; it ends the session.
#[derive(Clone, Copy, Debug, PartialEq, Eq, Structural)]
pub enum Violation {
    /// A publish above the server's max QoS.
    MaxQosViolated(QoS),
    /// A packet that may not arrive at this point.
    UnexpectedPacket(PacketType),
    /// A QoS 1 or 2 publish, or an acknowledgement, with packet id 0.
    ZeroPacketId,
}

/// What the dispatcher does with one inbound packet.
#[derive(Clone, Copy, Debug, PartialEq, Eq, Structural)]
pub enum Action {
    /// Nothing: the packet is dropped.
    Drop,
    /// Run the publish handler; no answer is owed.
    Deliver,
    /// Queue this answer slot and run the publish handler into it.
    DeliverAndAnswer(AckKind),
    /// Queue this answer slot and run the control handler into it.
    Control(AckKind),
    /// Queue this answer, ready at once.
    Answer(AckKind),
    /// Hand a PUBACK for this id to the sink.
    ToSink(u16),
    /// Run the control handler with `Disconnect`, then drain and close.
    ClientDisconnect,
    /// Report the violation to the control handler and shut down.
    Violation(Violation),
}

/// Life cycle of a session.
#[derive(Clone, Copy, Debug, PartialEq, Eq, Structural)]
pub enum Phase {
    Active,
    /// Shutting down: no new work is taken; queued answers drain.
    Draining,
    Closed,
}

/// Whether a publish at `qos` is handled after the client disconnected.
pub open spec fn handled_after_disconnect(bound: Option<QoS>, qos: QoS) -> bool {
    match bound {
        None => false,
        Some(b) => qos.level() <= b.level(),
    }
}

/// The action for a packet in an active session, given the ids that wait
/// for PUBREL and whether the client sent DISCONNECT.
pub open spec fn action_of(
    config: DispatcherConfig,
    awaiting_release: Seq<u16>,
    client_disconnected: bool,
    packet: Inbound,
) -> Action {
    match packet {
        Inbound::Publish { qos, packet_id, dup } => if client_disconnected && !handled_after_disconnect(
            config.handle_qos_after_disconnect,
            qos,
        ) {
            Action::Drop
        } else if qos.level() > config.max_qos.level() {
            Action::Violation(Violation::MaxQosViolated(qos))
        } else if qos == QoS::AtMostOnce {
            Action::Deliver
        } else if packet_id == 0 {
            Action::Violation(Violation::ZeroPacketId)
        } else if qos == QoS::AtLeastOnce {
            Action::DeliverAndAnswer(AckKind::PublishAck(packet_id))
        } else if dup && awaiting_release.contains(packet_id) {
            Action::Answer(AckKind::PublishReceived(packet_id))
        } else {
            Action::DeliverAndAnswer(AckKind::PublishReceived(packet_id))
        },
        Inbound::PublishAck(id) => if id == 0 {
            Action::Violation(Violation::ZeroPacketId)
        } else {
            Action::ToSink(id)
        },
        Inbound::PublishReceived(_) => Action::Violation(
            Violation::UnexpectedPacket(PacketType::PublishReceived),
        ),
        Inbound::PublishComplete(_) => Action::Violation(
            Violation::UnexpectedPacket(PacketType::PublishComplete),
        ),
        Inbound::PublishRelease(id) => if id == 0 {
            Action::Violation(Violation::ZeroPacketId)
        } else {
            Action::Answer(AckKind::PublishComplete(id))
        },
        Inbound::Subscribe(id) => if id == 0 {
            Action::Violation(Violation::ZeroPacketId)
        } else {
            Action::Control(AckKind::SubscribeAck(id))
        },
        Inbound::Unsubscribe(id) => if id == 0 {
            Action::Violation(Violation::ZeroPacketId)
        } else {
            Action::Control(AckKind::UnsubscribeAck(id))
        },
        Inbound::PingRequest => Action::Control(AckKind::PingResponse),
        Inbound::Disconnect => Action::ClientDisconnect,
        Inbound::Connect => Action::Violation(Violation::UnexpectedPacket(PacketType::Connect)),
        Inbound::ServerOnly(t) => Action::Violation(Violation::UnexpectedPacket(t)),
    }
}

/// The inbound state of a session.
pub struct Dispatcher {
    config: DispatcherConfig,
    awaiting_release: Vec<u16>,
    client_disconnected: bool,
    phase: Phase,
}

impl Dispatcher {
    pub closed spec fn config(&self) -> DispatcherConfig {
        self.config
    }

    /// Ids of QoS-2 publishes answered with PUBREC whose PUBREL has not come.
    pub closed spec fn awaiting_release(&self) -> Seq<u16> {
        self.awaiting_release@
    }

    pub closed spec fn client_disconnected(&self) -> bool {
        self.client_disconnected
    }

    pub closed spec fn phase(&self) -> Phase {
        self.phase
    }

    /// Ids waiting for PUBREL are nonzero and distinct.
    pub closed spec fn wf(&self) -> bool {
        &&& self.awaiting_release@.no_duplicates()
        &&& !self.awaiting_release@.contains(0)
    }

    pub fn new(config: DispatcherConfig) -> (r: Self)
        ensures
            r.wf(),
            r.config() == config,
            r.awaiting_release() == Seq::<u16>::empty(),
            !r.client_disconnected(),
            r.phase() == Phase::Active,
    {
        Dispatcher { config, awaiting_release: Vec::new(), client_disconnected: false, phase: Phase::Active }
    }

    pub fn phase_now(&self) -> (r: Phase)
        ensures
            r == self.phase(),
    {
        self.phase
    }

    /// Whether a PUBREL is awaited for `id`.
    pub fn is_awaiting_release(&self, id: u16) -> (r: bool)
        ensures
            r == self.awaiting_release().contains(id),
    {
        let mut i: usize = 0;
        while i < self.awaiting_release.len()
            invariant
                i <= self.awaiting_release@.len(),
                forall|j: int| 0 <= j < i ==> self.awaiting_release@[j] != id,
            decreases self.awaiting_release@.len() - i,
        {
            if self.awaiting_release[i] == id {
                return true;
            }
            i = i + 1;
        }
        false
    }

    /// Routes one inbound packet. An active session acts as [`action_of`]
    /// says; a draining or closed one drops everything. A violation starts
    /// draining, DISCONNECT is remembered, and PUBREL ends the wait for its
    /// id.
    pub fn on_packet(&mut self, packet: Inbound) -> (r: Action)
        requires
            old(self).wf(),
        ensures
            final(self).wf(),
            final(self).config() == old(self).config(),
            r == if old(self).phase() == Phase::Active {
                action_of(old(self).config(), old(self).awaiting_release(), old(self).client_disconnected(), packet)
            } else {
                Action::Drop
            },
            final(self).phase() == if old(self).phase() == Phase::Active && r is Violation {
                Phase::Draining
            } else {
                old(self).phase()
            },
            final(self).client_disconnected() == (old(self).client_disconnected() || (old(self).phase()
                == Phase::Active && packet == Inbound::Disconnect)),
            old(self).phase() == Phase::Active && packet is PublishRelease && packet->PublishRelease_0 != 0 ==> {
                &&& !final(self).awaiting_release().contains(packet->PublishRelease_0)
                &&& forall|x: u16| x != packet->PublishRelease_0 ==> (final(self).awaiting_release().contains(x)
                    <==> old(self).awaiting_release().contains(x))
            },
            !(old(self).phase() == Phase::Active && packet is PublishRelease) ==> final(self).awaiting_release()
                == old(self).awaiting_release(),
    {
        if self.phase != Phase::Active {
            return Action::Drop;
        }
        let r = match packet {
            Inbound::Publish { qos, packet_id, dup } => {
                let dropped = self.client_disconnected && match self.config.handle_qos_after_disconnect {
                    None => true,
                    Some(b) => !qos.within(b),
                };
                if dropped {
                    Action::Drop
                } else if !qos.within(self.config.max_qos) {
                    Action::Violation(Violation::MaxQosViolated(qos))
                } else if qos == QoS::AtMostOnce {
                    Action::Deliver
                } else if packet_id == 0 {
                    Action::Violation(Violation::ZeroPacketId)
                } else if qos == QoS::AtLeastOnce {
                    Action::DeliverAndAnswer(AckKind::PublishAck(packet_id))
                } else if dup && self.is_awaiting_release(packet_id) {
                    Action::Answer(AckKind::PublishReceived(packet_id))
                } else {
                    Action::DeliverAndAnswer(AckKind::PublishReceived(packet_id))
                }
            },
            Inbound::PublishAck(id) => if id == 0 {
                Action::Violation(Violation::ZeroPacketId)
            } else {
                Action::ToSink(id)
            },
            Inbound::PublishReceived(_) => Action::Violation(
                Violation::UnexpectedPacket(PacketType::PublishReceived),
            ),
            Inbound::PublishComplete(_) => Action::Violation(
                Violation::UnexpectedPacket(PacketType::PublishComplete),
            ),
            Inbound::PublishRelease(id) => if id == 0 {
                Action::Violation(Violation::ZeroPacketId)
            } else {
                self.release(id);
                Action::Answer(AckKind::PublishComplete(id))
            },
            Inbound::Subscribe(id) => if id == 0 {
                Action::Violation(Violation::ZeroPacketId)
            } else {
                Action::Control(AckKind::SubscribeAck(id))
            },
            Inbound::Unsubscribe(id) => if id == 0 {
                Action::Violation(Violation::ZeroPacketId)
            } else {
                Action::Control(AckKind::UnsubscribeAck(id))
            },
            Inbound::PingRequest => Action::Control(AckKind::PingResponse),
            Inbound::Disconnect => {
                self.client_disconnected = true;
                Action::ClientDisconnect
            },
            Inbound::Connect => Action::Violation(Violation::UnexpectedPacket(PacketType::Connect)),
            Inbound::ServerOnly(t) => Action::Violation(Violation::UnexpectedPacket(t)),
        };
        if let Action::Violation(_) = r {
            self.phase = Phase::Draining;
        }
        r
    }

    fn release(&mut self, id: u16)
        requires
            old(self).wf(),
        ensures
            final(self).wf(),
            final(self).config == old(self).config,
            final(self).phase == old(self).phase,
            final(self).client_disconnected == old(self).client_disconnected,
            !final(self).awaiting_release@.contains(id),
            forall|x: u16| x != id ==> (final(self).awaiting_release@.contains(x)
                <==> old(self).awaiting_release@.contains(x)),
    {
        let mut i: usize = 0;
        while i < self.awaiting_release.len()
            invariant
                old(self).wf(),
                self.awaiting_release@ == old(self).awaiting_release@,
                self.config == old(self).config,
                self.phase == old(self).phase,
                self.client_disconnected == old(self).client_disconnected,
                i <= self.awaiting_release@.len(),
                forall|j: int| 0 <= j < i ==> self.awaiting_release@[j] != id,
            decreases self.awaiting_release@.len() - i,
        {
            if self.awaiting_release[i] == id {
                let ghost before = self.awaiting_release@;
                self.awaiting_release.remove(i);
                proof {
                    let after = self.awaiting_release@;
                    assert(after =~= before.remove(i as int));
                    assert forall|x: u16| x != id implies (after.contains(x) <==> before.contains(x)) by {
                        if before.contains(x) {
                            let k = choose|k: int| 0 <= k < before.len() && before[k] == x;
                            assert(k != i);
                            if k < i {
                                assert(after[k] == x);
                            } else {
                                assert(after[k - 1] == x);
                            }
                        }
                        if after.contains(x) {
                            let k = choose|k: int| 0 <= k < after.len() && after[k] == x;
                            if k < i {
                                assert(before[k] == x);
                            } else {
                                assert(before[k + 1] == x);
                            }
                        }
                    }
                    assert(!after.contains(id)) by {
                        if after.contains(id) {
                            let k = choose|k: int| 0 <= k < after.len() && after[k] == id;
                            if k < i {
                                assert(before[k] == id);
                            } else {
                                assert(before[k + 1] == id);
                            }
                        }
                    }
                    assert(after.no_duplicates()) by {
                        assert forall|a: int, b: int| 0 <= a < after.len() && 0 <= b < after.len() && a != b
                            implies after[a] != after[b] by {
                            let a2 = if a < i { a } else { a + 1 };
                            let b2 = if b < i { b } else { b + 1 };
                            assert(after[a] == before[a2]);
                            assert(after[b] == before[b2]);
                        }
                    }
                }
                return;
            }
            i = i + 1;
        }
    }

    /// A PUBREC for `id` left for the wire: its PUBREL is now awaited.
    pub fn on_received_written(&mut self, id: u16)
        requires
            old(self).wf(),
            id != 0,
        ensures
            final(self).wf(),
            final(self).config() == old(self).config(),
            final(self).phase() == old(self).phase(),
            final(self).client_disconnected() == old(self).client_disconnected(),
            final(self).awaiting_release().contains(id),
            forall|x: u16| x != id ==> (final(self).awaiting_release().contains(x)
                <==> old(self).awaiting_release().contains(x)),
    {
        if !self.is_awaiting_release(id) {
            let ghost before = self.awaiting_release@;
            self.awaiting_release.push(id);
            proof {
                let after = self.awaiting_release@;
                assert(after[before.len() as int] == id);
                assert forall|x: u16| x != id implies (after.contains(x) <==> before.contains(x)) by {
                    if before.contains(x) {
                        let k = choose|k: int| 0 <= k < before.len() && before[k] == x;
                        assert(after[k] == x);
                    }
                    if after.contains(x) {
                        let k = choose|k: int| 0 <= k < after.len() && after[k] == x;
                        assert(before[k] == x);
                    }
                }
                assert(!after.contains(0)) by {
                    if after.contains(0) {
                        let k = choose|k: int| 0 <= k < after.len() && after[k] == 0;
                        assert(before[k] == 0);
                    }
                }
                assert(after.no_duplicates()) by {
                    assert forall|a: int, b: int| 0 <= a < after.len() && 0 <= b < after.len() && a != b
                        implies after[a] != after[b] by {
                        if a == before.len() {
                            assert(before.contains(after[b]) || b == a);
                        } else if b == before.len() {
                            assert(before.contains(after[a]));
                        }
                    }
                }
            }
        }
    }

    /// A tear-down was requested: the session takes no new work and drains.
    pub fn shutdown(&mut self)
        requires
            old(self).wf(),
        ensures
            final(self).wf(),
            final(self).config() == old(self).config(),
            final(self).awaiting_release() == old(self).awaiting_release(),
            final(self).client_disconnected() == old(self).client_disconnected(),
            final(self).phase() == if old(self).phase() == Phase::Active {
                Phase::Draining
            } else {
                old(self).phase()
            },
    {
        if self.phase == Phase::Active {
            self.phase = Phase::Draining;
        }
    }

    /// The queued answers have drained: the session is closed and releases
    /// the sink and all waiters.
    pub fn close(&mut self)
        requires
            old(self).wf(),
        ensures
            final(self).wf(),
            final(self).config() == old(self).config(),
            final(self).awaiting_release() == old(self).awaiting_release(),
            final(self).client_disconnected() == old(self).client_disconnected(),
            final(self).phase() == Phase::Closed,
    {
        self.phase = Phase::Closed;
    }
}

/// A QoS-1 publish that is handled is answered with exactly one PUBACK, for
/// its own packet id, through an answer slot taken at arrival, so the answer
/// keeps its place among the other answers.
pub proof fn lemma_at_least_once_answer(
    config: DispatcherConfig,
    awaiting_release: Seq<u16>,
    client_disconnected: bool,
    id: u16,
    dup: bool,
)
    requires
        config.max_qos != QoS::AtMostOnce,
        id != 0,
        client_disconnected ==> handled_after_disconnect(config.handle_qos_after_disconnect, QoS::AtLeastOnce),
    ensures
        action_of(
            config,
            awaiting_release,
            client_disconnected,
            Inbound::Publish { qos: QoS::AtLeastOnce, packet_id: id, dup },
        ) == Action::DeliverAndAnswer(AckKind::PublishAck(id)),
{
}

/// The exactly-once flow keeps its packet id: a QoS-2 publish is answered
/// with PUBREC for its id (at once, without running the handler again, when
/// it is a duplicate whose PUBREL is still awaited), and the PUBREL for that
/// id is answered with PUBCOMP for the same id.
pub proof fn lemma_exactly_once_flow(
    config: DispatcherConfig,
    awaiting_release: Seq<u16>,
    client_disconnected: bool,
    id: u16,
    dup: bool,
)
    requires
        config.max_qos == QoS::ExactlyOnce,
        id != 0,
        client_disconnected ==> handled_after_disconnect(config.handle_qos_after_disconnect, QoS::ExactlyOnce),
    ensures
        action_of(
            config,
            awaiting_release,
            client_disconnected,
            Inbound::Publish { qos: QoS::ExactlyOnce, packet_id: id, dup },
        ) == if dup && awaiting_release.contains(id) {
            Action::Answer(AckKind::PublishReceived(id))
        } else {
            Action::DeliverAndAnswer(AckKind::PublishReceived(id))
        },
        action_of(config, awaiting_release, client_disconnected, Inbound::PublishRelease(id)) == Action::Answer(
            AckKind::PublishComplete(id),
        ),
{
}

/// A publish above the server's max QoS, from a client that has not
/// disconnected, is reported as a protocol violation; [`Dispatcher::on_packet`]
/// then moves the session to draining, which ends it.
pub proof fn lemma_max_qos_violation(
    config: DispatcherConfig,
    awaiting_release: Seq<u16>,
    qos: QoS,
    packet_id: u16,
    dup: bool,
)
    requires
        qos.level() > config.max_qos.level(),
    ensures
        action_of(config, awaiting_release, false, Inbound::Publish { qos, packet_id, dup })
            == Action::Violation(Violation::MaxQosViolated(qos)),
{
}

} // verus!

//! What a connection may write, and the CONNACK that ends a handshake.
//!
//! CONNACK is the first packet the server writes on a connection and is
//! written once; nothing else may go out before it.
use vstd::prelude::*;

use crate::packet::PacketType;

verus! {

/// Return code of a CONNACK.
#[derive(Clone, Copy, Debug, PartialEq, Eq, Structural)]
pub enum ConnectAckReason {
    ConnectionAccepted,
    UnacceptableProtocolVersion,
    IdentifierRejected,
    ServiceUnavailable,
    BadUserNameOrPassword,
    NotAuthorized,
}

impl ConnectAckReason {
    /// The return code byte on the wire.
    pub open spec fn code(self) -> u8 {
        match self {
            ConnectAckReason::ConnectionAccepted => 0,
            ConnectAckReason::UnacceptableProtocolVersion => 1,
            ConnectAckReason::IdentifierRejected => 2,
            ConnectAckReason::ServiceUnavailable => 3,
            ConnectAckReason::BadUserNameOrPassword => 4,
            ConnectAckReason::NotAuthorized => 5,
        }
    }

    pub fn as_u8(self) -> (r: u8)
        ensures
            r == self.code(),
    {
        match self {
            ConnectAckReason::ConnectionAccepted => 0,
            ConnectAckReason::UnacceptableProtocolVersion => 1,
            ConnectAckReason::IdentifierRejected => 2,
            ConnectAckReason::ServiceUnavailable => 3,
            ConnectAckReason::BadUserNameOrPassword => 4,
            ConnectAckReason::NotAuthorized => 5,
        }
    }

    /// Reads a return code byte; codes above 5 are reserved.
    pub fn from_u8(b: u8) -> (r: Option<ConnectAckReason>)
        ensures
            r matches Some(c) ==> c.code() == b,
            r is None <==> b > 5,
    {
        match b {
            0 => Some(ConnectAckReason::ConnectionAccepted),
            1 => Some(ConnectAckReason::UnacceptableProtocolVersion),
            2 => Some(ConnectAckReason::IdentifierRejected),
            3 => Some(ConnectAckReason::ServiceUnavailable),
            4 => Some(ConnectAckReason::BadUserNameOrPassword),
            5 => Some(ConnectAckReason::NotAuthorized),
            _ => None,
        }
    }
}

/// The CONNACK that answers a CONNECT.
#[derive(Clone, Copy, Debug, PartialEq, Eq, Structural)]
pub struct ConnectAck {
    pub session_present: bool,
    pub return_code: ConnectAckReason,
}

/// The CONNACK for the handshake handler's decision. Sessions are never
/// kept, so `session_present` is always `false`.
pub fn connect_ack(reason: ConnectAckReason) -> (r: ConnectAck)
    ensures
        r == (ConnectAck { session_present: false, return_code: reason }),
{
    ConnectAck { session_present: false, return_code: reason }
}

/// The server's writes on one connection.
pub struct Outbound {
    connack_sent: bool,
    written: Ghost<Seq<PacketType>>,
}

/// Whether `t` may be written after the packets `written`.
pub open spec fn may_follow(written: Seq<PacketType>, t: PacketType) -> bool {
    if written.len() == 0 {
        t == PacketType::ConnectAck
    } else {
        t != PacketType::ConnectAck
    }
}

impl Outbound {
    /// The packets written so far, in order.
    pub closed spec fn written(&self) -> Seq<PacketType> {
        self.written@
    }

    pub closed spec fn wf(&self) -> bool {
        &&& self.connack_sent <==> self.written@.len() > 0
        &&& self.written@.len() > 0 ==> self.written@[0] == PacketType::ConnectAck
        &&& forall|i: int| 0 < i < self.written@.len() ==> self.written@[i] != PacketType::ConnectAck
    }

    pub fn new() -> (r: Self)
        ensures
            r.wf(),
            r.written() == Seq::<PacketType>::empty(),
    {
        Outbound { connack_sent: false, written: Ghost(Seq::empty()) }
    }

    /// Whether `t` may be written now: CONNACK first and once, then anything
    /// else.
    pub fn may_write(&self, t: PacketType) -> (r: bool)
        requires
            self.wf(),
        ensures
            r == may_follow(self.written(), t),
    {
        if self.connack_sent {
            t != PacketType::ConnectAck
        } else {
            t == PacketType::ConnectAck
        }
    }

    /// Records a write of `t` when it is allowed; returns whether it was.
    pub fn write(&mut self, t: PacketType) -> (r: bool)
        requires
            old(self).wf(),
        ensures
            final(self).wf(),
            r == may_follow(old(self).written(), t),
            final(self).written() == if r {
                old(self).written().push(t)
            } else {
                old(self).written()
            },
    {
        if !self.may_write(t) {
            return false;
        }
        proof {
            self.written@ = self.written@.push(t);
        }
        self.connack_sent = true;
        true
    }
}

/// No packet goes out before CONNACK: in what a connection has written,
/// CONNACK stands first and nowhere else.
pub proof fn lemma_connack_first(o: &Outbound)
    requires
        o.wf(),
    ensures
        forall|i: int| 0 <= i < o.written().len() ==> (o.written()[i] == PacketType::ConnectAck <==> i == 0),
{
}

} // verus!

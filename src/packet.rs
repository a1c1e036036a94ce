//! Packet kinds and quality-of-service levels of MQTT 3.1.1.
use vstd::prelude::*;

verus! {

/// Quality of service of a PUBLISH.
#[derive(Clone, Copy, Debug, PartialEq, Eq, Structural)]
pub enum QoS {
    AtMostOnce,
    AtLeastOnce,
    ExactlyOnce,
}

impl QoS {
    /// The level of the QoS on the wire: 0, 1 or 2.
    pub open spec fn level(self) -> nat {
        match self {
            QoS::AtMostOnce => 0,
            QoS::AtLeastOnce => 1,
            QoS::ExactlyOnce => 2,
        }
    }

    pub fn as_u8(self) -> (r: u8)
        ensures
            r as nat == self.level(),
    {
        match self {
            QoS::AtMostOnce => 0,
            QoS::AtLeastOnce => 1,
            QoS::ExactlyOnce => 2,
        }
    }

    /// Reads a QoS level from the two flag bits of a PUBLISH; `3` is reserved.
    pub fn from_u8(v: u8) -> (r: Option<QoS>)
        ensures
            r matches Some(q) ==> q.level() == v as nat,
            r is None <==> v > 2,
    {
        if v == 0 {
            Some(QoS::AtMostOnce)
        } else if v == 1 {
            Some(QoS::AtLeastOnce)
        } else if v == 2 {
            Some(QoS::ExactlyOnce)
        } else {
            None
        }
    }

    /// Whether this QoS is at most `bound`.
    pub fn within(self, bound: QoS) -> (r: bool)
        ensures
            r <==> self.level() <= bound.level(),
    {
        self.as_u8() <= bound.as_u8()
    }
}

/// Control packet types, as carried in the high nibble of the first byte.
#[derive(Clone, Copy, Debug, PartialEq, Eq, Structural)]
pub enum PacketType {
    Connect,
    ConnectAck,
    Publish,
    PublishAck,
    PublishReceived,
    PublishRelease,
    PublishComplete,
    Subscribe,
    SubscribeAck,
    Unsubscribe,
    UnsubscribeAck,
    PingRequest,
    PingResponse,
    Disconnect,
}

impl PacketType {
    /// The packet type number of the fixed header.
    pub open spec fn code(self) -> nat {
        match self {
            PacketType::Connect => 1,
            PacketType::ConnectAck => 2,
            PacketType::Publish => 3,
            PacketType::PublishAck => 4,
            PacketType::PublishReceived => 5,
            PacketType::PublishRelease => 6,
            PacketType::PublishComplete => 7,
            PacketType::Subscribe => 8,
            PacketType::SubscribeAck => 9,
            PacketType::Unsubscribe => 10,
            PacketType::UnsubscribeAck => 11,
            PacketType::PingRequest => 12,
            PacketType::PingResponse => 13,
            PacketType::Disconnect => 14,
        }
    }

    pub fn as_u8(self) -> (r: u8)
        ensures
            r as nat == self.code(),
    {
        match self {
            PacketType::Connect => 1,
            PacketType::ConnectAck => 2,
            PacketType::Publish => 3,
            PacketType::PublishAck => 4,
            PacketType::PublishReceived => 5,
            PacketType::PublishRelease => 6,
            PacketType::PublishComplete => 7,
            PacketType::Subscribe => 8,
            PacketType::SubscribeAck => 9,
            PacketType::Unsubscribe => 10,
            PacketType::UnsubscribeAck => 11,
            PacketType::PingRequest => 12,
            PacketType::PingResponse => 13,
            PacketType::Disconnect => 14,
        }
    }

    /// Reads the packet type from the high nibble of a fixed header's first byte.
    pub fn from_header_byte(b: u8) -> (r: Option<PacketType>)
        ensures
            r matches Some(t) ==> t.code() == (b / 16) as nat,
            r is None <==> b / 16 == 0 || b / 16 == 15,
    {
        let n: u8 = b / 16;
        if n == 1 {
            Some(PacketType::Connect)
        } else if n == 2 {
            Some(PacketType::ConnectAck)
        } else if n == 3 {
            Some(PacketType::Publish)
        } else if n == 4 {
            Some(PacketType::PublishAck)
        } else if n == 5 {
            Some(PacketType::PublishReceived)
        } else if n == 6 {
            Some(PacketType::PublishRelease)
        } else if n == 7 {
            Some(PacketType::PublishComplete)
        } else if n == 8 {
            Some(PacketType::Subscribe)
        } else if n == 9 {
            Some(PacketType::SubscribeAck)
        } else if n == 10 {
            Some(PacketType::Unsubscribe)
        } else if n == 11 {
            Some(PacketType::UnsubscribeAck)
        } else if n == 12 {
            Some(PacketType::PingRequest)
        } else if n == 13 {
            Some(PacketType::PingResponse)
        } else if n == 14 {
            Some(PacketType::Disconnect)
        } else {
            None
        }
    }
}

} // verus!

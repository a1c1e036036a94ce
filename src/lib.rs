//! Connection-scoped core of an MQTT 3.1.1 server: server selection at
//! handshake time, inbound acknowledgement ordering, outbound publish
//! book-keeping and the protocol rules that govern them.
pub mod ack_queue;
pub mod codec;
pub mod connection;
pub mod dispatcher;
pub mod packet;
pub mod selector;
pub mod session;
pub mod sink;
pub mod timers;

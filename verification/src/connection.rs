use vstd::prelude::*;

use crate::address::ServerAddress;

verus! {

/// The error of a connection.
#[derive(Clone, Copy, Debug, PartialEq, Eq, Structural)]
pub struct ConnectionError;

/// A datagram: the bytes on the wire and the address of the other end.
#[derive(Debug)]
pub struct Packet {
    pub data: Vec<u8>,
    pub peer: ServerAddress,
}

impl Packet {
    /// The bytes of the datagram.
    pub fn as_bytes(&self) -> (r: &[u8])
        ensures
            r@ == self.data@,
    {
        self.data.as_slice()
    }
}

/// What a message of the protocol asks or answers.
#[derive(Clone, Copy, Debug, PartialEq, Eq, Structural)]
pub enum PacketType {
    /// A leader's heartbeat.
    AppendEntries,
    /// The answer to a heartbeat: whether the leader's term was accepted.
    AppendEntriesAck { did_append: bool },
    /// A candidate asks for a vote.
    VoteRequest { last_log_index: u64, last_log_term: u64 },
    /// The answer to a vote request.
    VoteResponse { is_granted: bool },
}

/// A message of the protocol: its kind, the sender's term, and the other
/// server (the recipient of an outgoing message, the sender of an incoming
/// one).
#[derive(Clone, Copy, Debug, PartialEq, Eq, Structural)]
pub struct Message {
    pub message_type: PacketType,
    pub term: u64,
    pub peer: ServerAddress,
}

/// A connection that accepts every datagram and receives empty ones.
#[derive(Clone, Copy, Debug, PartialEq, Eq, Structural)]
pub struct DummyConnection;

impl DummyConnection {
    /// Binds to any address; never fails.
    pub fn bind(bind_socket: ServerAddress) -> (r: Result<DummyConnection, ConnectionError>)
        ensures
            r == Ok::<DummyConnection, ConnectionError>(DummyConnection),
    {
        Ok(DummyConnection)
    }

    /// Accepts the datagram and drops it; never fails.
    pub fn send(&self, packet: Packet) -> (r: Result<(), ConnectionError>)
        ensures
            r == Ok::<(), ConnectionError>(()),
    {
        Ok(())
    }

    /// Receives an empty datagram from `0.0.0.0:0`; never fails.
    pub fn receive(&self) -> (r: Result<Packet, ConnectionError>)
        ensures
            r is Ok,
            r->Ok_0.data@ == Seq::<u8>::empty(),
            r->Ok_0.peer == ServerAddress::spec_unspecified(),
    {
        Ok(Packet { data: Vec::new(), peer: ServerAddress::unspecified() })
    }
}

} // verus!

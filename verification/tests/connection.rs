use raft::address::{ServerAddress, SocketAddress};
use raft::connection::{ConnectionError, DummyConnection, Message, Packet, PacketType};

fn addr(ip: u32, port: u16) -> ServerAddress {
    ServerAddress(SocketAddress::V4 { ipv4: ip, port })
}

#[test]
fn unspecified_address_is_zero() {
    assert_eq!(ServerAddress::unspecified(), addr(0, 0));
}

#[test]
fn addresses_compare_every_part() {
    let a = addr(0x7f00_0001, 8000);
    assert_eq!(a, addr(0x7f00_0001, 8000));
    assert_ne!(a, addr(0x7f00_0001, 8001));
    let v6 = ServerAddress(SocketAddress::V6 { ipv6: 1, port: 8000, flowinfo: 0, scope_id: 0 });
    let v6_scoped = ServerAddress(SocketAddress::V6 { ipv6: 1, port: 8000, flowinfo: 0, scope_id: 3 });
    assert_ne!(v6, v6_scoped);
    assert_ne!(a, v6);
}

#[test]
fn packet_as_bytes_gives_the_data() {
    let p = Packet { data: vec![1, 2, 3], peer: addr(1, 2) };
    assert_eq!(p.as_bytes(), &[1u8, 2, 3][..]);
    let empty = Packet { data: Vec::new(), peer: addr(1, 2) };
    assert!(empty.as_bytes().is_empty());
}

#[test]
fn dummy_connection_binds_sends_and_receives() {
    let c = DummyConnection::bind(addr(1, 9000)).unwrap();
    assert_eq!(c.send(Packet { data: vec![9], peer: addr(2, 9000) }), Ok(()));
    let p = c.receive().unwrap();
    assert!(p.data.is_empty());
    assert_eq!(p.peer, ServerAddress::unspecified());
    assert_eq!(c, DummyConnection);
}

#[test]
fn connection_error_is_comparable() {
    let r: Result<(), ConnectionError> = Err(ConnectionError);
    assert_eq!(r, Err(ConnectionError));
}

#[test]
fn messages_compare_by_all_fields() {
    let m = Message { message_type: PacketType::AppendEntries, term: 3, peer: addr(1, 1) };
    assert_eq!(m, Message { message_type: PacketType::AppendEntries, term: 3, peer: addr(1, 1) });
    assert_ne!(m, Message { message_type: PacketType::AppendEntries, term: 4, peer: addr(1, 1) });
    assert_ne!(
        PacketType::VoteRequest { last_log_index: 0, last_log_term: 1 },
        PacketType::VoteRequest { last_log_index: 0, last_log_term: 2 }
    );
}

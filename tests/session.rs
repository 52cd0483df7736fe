use simple_tcp::packet::{Data, PacketType, TcpPacket, PROTOCOL_VERSION};
use simple_tcp::packet_handling::serialize_packet_bytes;
use simple_tcp::registry::ClientPool;
use simple_tcp::Error;
use simple_tcp::session::{
    ending_result, Action, ConnectionState, Ending, Role, Session, Status, CLIENT_IDLE_TIMEOUT_MS, RETRY_LIMIT,
    SERVER_IDLE_TIMEOUT_MS,
};

fn established_pair(client_isn: u32, server_isn: u32) -> (Session, Session) {
    let mut client = Session::client(client_isn, 0);
    let mut server = Session::server(server_isn, 0);
    let syn = client.start(0).outbound.unwrap();
    let syn_ack = server.on_bytes(&serialize_packet_bytes(&syn), 1).0.outbound.unwrap();
    let ack = client.on_bytes(&serialize_packet_bytes(&syn_ack), 2).0.outbound.unwrap();
    let step = server.on_bytes(&serialize_packet_bytes(&ack), 3).0;
    assert!(step.outbound.is_none());
    (client, server)
}

#[test]
fn handshake_over_frames_establishes_both_sides() {
    let mut client = Session::client(100, 0);
    let mut server = Session::server(500, 0);
    assert_eq!(client.state, ConnectionState::Closed);
    assert_eq!(server.state, ConnectionState::Listen);

    let step = client.start(0);
    assert_eq!(client.state, ConnectionState::SynSent);
    let syn = step.outbound.unwrap();
    assert_eq!(syn, TcpPacket::syn_packet(100));

    let step = server.on_bytes(&serialize_packet_bytes(&syn), 1).0;
    assert_eq!(server.state, ConnectionState::SynRecv);
    assert_eq!(step.action, Action::ResetActivityTimer);
    let syn_ack = step.outbound.unwrap();
    assert_eq!(syn_ack, TcpPacket::syn_ack_packet(500, 101));

    let step = client.on_bytes(&serialize_packet_bytes(&syn_ack), 2).0;
    assert_eq!(client.state, ConnectionState::Established);
    assert_eq!(client.peer_seq, 500);
    let ack = step.outbound.unwrap();
    assert_eq!(ack, TcpPacket::ack_packet(101, 501));

    let step = server.on_bytes(&serialize_packet_bytes(&ack), 3).0;
    assert_eq!(server.state, ConnectionState::Established);
    assert_eq!(server.peer_seq, 100);
    assert!(step.outbound.is_none());
    assert_eq!(client.status(), Status::AwaitingResponse(PacketType::Echo));
    assert_eq!(server.status(), Status::AwaitingResponse(PacketType::Echo));
}

#[test]
fn client_handshake_wraps_sequence_numbers() {
    let (client, server) = established_pair(u32::MAX, u32::MAX);
    assert_eq!(client.state, ConnectionState::Established);
    assert_eq!(server.state, ConnectionState::Established);
}

#[test]
fn client_rejects_wrong_acknowledgment() {
    for bad in [0u32, 5, 7, u32::MAX] {
        let mut client = Session::client(5, 0);
        client.start(0);
        let step = client.on_packet(TcpPacket::syn_ack_packet(9, bad), 1);
        assert_eq!(client.state, ConnectionState::Closed);
        assert_eq!(step.action, Action::Terminate(Ending::ProtocolViolation));
        assert!(step.outbound.is_none());
    }
    let mut client = Session::client(5, 0);
    client.start(0);
    let step = client.on_packet(TcpPacket::ack_packet(9, 6), 1);
    assert_eq!(step.action, Action::Terminate(Ending::ProtocolViolation));
}

#[test]
fn server_rejects_wrong_acknowledgment() {
    let mut server = Session::server(40, 0);
    server.on_packet(TcpPacket::syn_packet(3), 1);
    assert_eq!(server.state, ConnectionState::SynRecv);
    let step = server.on_packet(TcpPacket::ack_packet(4, 40), 2);
    assert_eq!(server.state, ConnectionState::Closed);
    assert_eq!(step.action, Action::Terminate(Ending::ProtocolViolation));

    let mut server = Session::server(40, 0);
    let step = server.on_packet(TcpPacket::echo_packet(1), 1);
    assert_eq!(server.state, ConnectionState::Closed);
    assert_eq!(step.action, Action::Terminate(Ending::ProtocolViolation));
}

#[test]
fn retries_then_termination() {
    let (mut client, _) = established_pair(1, 2);
    let t = CLIENT_IDLE_TIMEOUT_MS;
    let mut now = 2;
    // not yet idle long enough
    let step = client.on_timeout(now + t);
    assert_eq!(step.action, Action::Continue);
    assert!(step.outbound.is_none());
    for i in 1..=RETRY_LIMIT {
        now += t + 1;
        let step = client.on_timeout(now);
        assert_eq!(step.outbound, Some(TcpPacket::echo_packet(PROTOCOL_VERSION)));
        assert_eq!(client.retry_count, i);
        assert_eq!(client.last_activity, now);
        assert_eq!(client.state, ConnectionState::Established);
    }
    now += t + 1;
    let step = client.on_timeout(now);
    assert_eq!(step.action, Action::Terminate(Ending::RetriesExhausted));
    assert!(step.outbound.is_none());
    assert_eq!(client.state, ConnectionState::Closed);
    assert_eq!(client.status(), Status::Disconnect);
}

#[test]
fn server_says_disconnect_when_retries_run_out() {
    let (_, mut server) = established_pair(1, 2);
    let t = SERVER_IDLE_TIMEOUT_MS;
    let mut now = 3;
    for _ in 0..RETRY_LIMIT {
        now += t + 1;
        assert!(server.on_timeout(now).outbound.is_some());
    }
    now += t + 1;
    let step = server.on_timeout(now);
    assert_eq!(step.outbound, Some(TcpPacket::disconnect_packet()));
    assert_eq!(step.action, Action::Terminate(Ending::RetriesExhausted));
}

#[test]
fn inbound_packet_resets_activity() {
    let (mut client, _) = established_pair(1, 2);
    client.on_timeout(10_000);
    client.on_timeout(20_000);
    assert_eq!(client.retry_count, 2);
    let step = client.on_packet(TcpPacket::echo_packet(1), 20_500);
    assert_eq!(client.retry_count, 0);
    assert_eq!(client.last_activity, 20_500);
    assert_eq!(step.action, Action::ResetActivityTimer);
    // every echo is answered, also while a probe of ours is outstanding
    assert_eq!(step.outbound, Some(TcpPacket::echo_packet(1)));
    assert_eq!(client.state, ConnectionState::Established);
    let step = client.on_packet(TcpPacket::echo_packet(1), 21_000);
    assert_eq!(step.outbound, Some(TcpPacket::echo_packet(1)));

    let mut server = Session::server(9, 0);
    server.on_timeout(5);
    server.on_packet(TcpPacket::syn_packet(4), 77);
    assert_eq!(server.last_activity, 77);
    assert_eq!(server.retry_count, 0);
}

#[test]
fn peer_close_and_disconnect_are_alike() {
    let (mut a, _) = established_pair(1, 2);
    let (mut b, _) = established_pair(1, 2);
    let sa = a.on_bytes(&[], 50).0;
    let sb = b.on_bytes(&serialize_packet_bytes(&TcpPacket::disconnect_packet()), 50).0;
    assert_eq!(sa.action, sb.action);
    assert_eq!(sa.action, Action::Terminate(Ending::PeerClosed));
    assert!(sa.outbound.is_none() && sb.outbound.is_none());
    assert_eq!(a.state, b.state);
    assert_eq!(a.state, ConnectionState::Closed);
}

#[test]
fn data_is_delivered() {
    let (mut client, mut server) = established_pair(1, 2);
    let p = TcpPacket::with_data(1, Some(Data::new(Some("hi"), "a", "b"))).unwrap();
    let step = server.on_bytes(&serialize_packet_bytes(&p), 10).0;
    assert_eq!(step.delivered, Some(Data::new(Some("hi"), "a", "b")));
    assert_eq!(step.action, Action::ResetActivityTimer);
    assert_eq!(server.state, ConnectionState::Established);
    let step = client.on_packet(TcpPacket::syn_packet(3), 11);
    assert_eq!(step.action, Action::Terminate(Ending::ProtocolViolation));
}

#[test]
fn malformed_bytes_and_other_versions_end_the_connection() {
    let (mut client, mut server) = established_pair(1, 2);
    let step = client.on_bytes(&[1, 2, 3], 10).0;
    assert_eq!(step.action, Action::Terminate(Ending::MalformedPacket));
    assert_eq!(client.state, ConnectionState::Closed);
    let step = server.on_packet(TcpPacket::echo_packet(2), 10);
    assert_eq!(step.action, Action::Terminate(Ending::MalformedPacket));
    assert_eq!(server.state, ConnectionState::Closed);
    assert_eq!(server.last_activity, 3);
}

#[test]
fn stalled_handshake_times_out() {
    let mut client = Session::client(1, 0);
    client.start(0);
    assert_eq!(client.on_timeout(CLIENT_IDLE_TIMEOUT_MS).action, Action::Continue);
    let step = client.on_timeout(CLIENT_IDLE_TIMEOUT_MS + 1);
    assert_eq!(step.action, Action::Terminate(Ending::TimedOut));
    assert_eq!(client.state, ConnectionState::Closed);
}

#[test]
fn transport_error_ends_the_connection() {
    let (mut client, _) = established_pair(1, 2);
    let step = client.on_transport_error();
    assert_eq!(step.action, Action::Terminate(Ending::TransportError));
    assert_eq!(client.state, ConnectionState::Closed);
}

#[test]
fn silent_peer_is_probed_once_then_dropped_from_registry() {
    let mut pool = ClientPool::new();
    let mut server = Session::new(Role::Server, 7, 0, 1, 0);
    let id = pool.register(server.state).unwrap();
    server.on_packet(TcpPacket::syn_packet(70), 0);
    server.on_packet(TcpPacket::ack_packet(71, 8), 0);
    assert_eq!(server.state, ConnectionState::Established);
    pool.record(id, server.state).unwrap();
    assert_eq!(pool.get(id), Some(ConnectionState::Established));

    let step = server.on_timeout(1);
    assert_eq!(step.outbound, Some(TcpPacket::echo_packet(1)));
    pool.record(id, server.state).unwrap();

    let step = server.on_timeout(2);
    assert_eq!(step.outbound, Some(TcpPacket::disconnect_packet()));
    assert_eq!(step.action, Action::Terminate(Ending::RetriesExhausted));
    pool.record(id, server.state).unwrap();
    assert_eq!(pool.get(id), None);
    assert_eq!(pool.len(), 0);
}

#[test]
fn server_answers_echo_while_probing() {
    let (_, mut server) = established_pair(1, 2);
    let step = server.on_timeout(3 + SERVER_IDLE_TIMEOUT_MS + 1);
    assert_eq!(step.outbound, Some(TcpPacket::echo_packet(1)));
    assert_eq!(server.retry_count, 1);
    let step = server.on_packet(TcpPacket::echo_packet(1), 3 + SERVER_IDLE_TIMEOUT_MS + 2);
    assert_eq!(step.outbound, Some(TcpPacket::echo_packet(1)));
    assert_eq!(server.retry_count, 0);
    assert_eq!(server.state, ConnectionState::Established);
}

#[test]
fn frames_read_together_are_handled_in_order() {
    let (mut client, _) = established_pair(1, 2);
    let mut bytes = serialize_packet_bytes(&TcpPacket::echo_packet(1));
    let data = TcpPacket::with_data(1, Some(Data::new(None, "a", "b"))).unwrap();
    bytes.extend(serialize_packet_bytes(&data));
    bytes.extend(serialize_packet_bytes(&TcpPacket::disconnect_packet()));

    let (step, used) = client.on_bytes(&bytes, 10);
    assert_eq!(used, 12);
    assert_eq!(step.outbound, Some(TcpPacket::echo_packet(1)));
    let rest = &bytes[used..];
    let (step, used) = client.on_bytes(rest, 10);
    assert_eq!(step.delivered, Some(Data::new(None, "a", "b")));
    let rest = &rest[used..];
    let (step, used) = client.on_bytes(rest, 10);
    assert_eq!(used, rest.len());
    assert_eq!(step.action, Action::Terminate(Ending::PeerClosed));
}

#[test]
fn zero_padded_read_buffer_decodes_its_frame() {
    let (mut client, _) = established_pair(1, 2);
    let mut buf = [0u8; 1024];
    let frame = serialize_packet_bytes(&TcpPacket::echo_packet(1));
    buf[..frame.len()].copy_from_slice(&frame);
    let (step, used) = client.on_bytes(&buf, 10);
    assert_eq!(used, frame.len());
    assert_eq!(step.outbound, Some(TcpPacket::echo_packet(1)));
}

#[test]
fn garbage_is_used_up_as_malformed() {
    let (mut client, _) = established_pair(1, 2);
    let (step, used) = client.on_bytes(&[9, 9, 9], 10);
    assert_eq!(used, 3);
    assert_eq!(step.action, Action::Terminate(Ending::MalformedPacket));
    let (step, used) = client.on_bytes(&[], 11);
    assert_eq!(used, 0);
    assert_eq!(step.action, Action::Terminate(Ending::PeerClosed));
}

#[test]
fn endings_reach_the_caller_typed() {
    assert_eq!(ending_result(Ending::PeerClosed), Ok(Ending::PeerClosed));
    assert_eq!(ending_result(Ending::RetriesExhausted), Ok(Ending::RetriesExhausted));
    assert_eq!(ending_result(Ending::TimedOut), Ok(Ending::TimedOut));
    assert_eq!(ending_result(Ending::ProtocolViolation), Err(Error::ProtocolViolation));
    assert_eq!(ending_result(Ending::MalformedPacket), Err(Error::MalformedPacket));
    assert!(matches!(ending_result(Ending::TransportError), Err(Error::IO(_))));
}

use simple_tcp::address::validate_address;
use simple_tcp::registry::ClientPool;
use simple_tcp::session::ConnectionState;
use simple_tcp::Error;

#[test]
fn identifiers_increase_and_are_not_reused() {
    let mut pool = ClientPool::new();
    let a = pool.register(ConnectionState::Listen).unwrap();
    let b = pool.register(ConnectionState::Listen).unwrap();
    assert_eq!((a, b), (0, 1));
    assert_eq!(pool.remove(a), Some(ConnectionState::Listen));
    let c = pool.register(ConnectionState::SynRecv).unwrap();
    assert_eq!(c, 2);
    assert_eq!(pool.len(), 2);
    assert_eq!(pool.get(a), None);
    assert_eq!(pool.get(c), Some(ConnectionState::SynRecv));
}

#[test]
fn unknown_identifier_is_reported() {
    let mut pool = ClientPool::new();
    assert_eq!(
        pool.update(3, ConnectionState::Established),
        Err(Error::ServerReceiverNotFound)
    );
    assert_eq!(pool.record(3, ConnectionState::Closed), Err(Error::ServerReceiverNotFound));
    assert_eq!(pool.remove(3), None);
    let id = pool.register(ConnectionState::Listen).unwrap();
    assert_eq!(pool.update(id, ConnectionState::SynRecv), Ok(()));
    assert_eq!(pool.get(id), Some(ConnectionState::SynRecv));
}

#[test]
fn address_needs_a_port_separator() {
    assert_eq!(validate_address("127.0.0.1:42069"), Ok(()));
    assert_eq!(validate_address("[::1]:80"), Ok(()));
    assert_eq!(
        validate_address("localhost"),
        Err(Error::InvalidAddress("localhost".to_string()))
    );
    assert_eq!(validate_address(""), Err(Error::InvalidAddress(String::new())));
}

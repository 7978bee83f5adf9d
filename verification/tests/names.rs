use minidumper::client::Client;
use minidumper::error::Error;
use minidumper::socket_name::{port_name, SocketName};
use std::path::Path;

#[test]
fn paths_name_sockets() {
    let address = SocketName::path("/tmp/socket").address().unwrap();
    assert_eq!(address.as_pathname(), Some(Path::new("/tmp/socket")));
    let address = SocketName::from(Path::new("here")).address().unwrap();
    assert_eq!(address.as_pathname(), Some(Path::new("here")));
    let longest = "x".repeat(108);
    let address = SocketName::path(&longest).address().unwrap();
    assert_eq!(address.as_pathname(), Some(Path::new(&longest)));
}

#[test]
fn some_paths_name_no_socket() {
    for name in [String::new(), "x".repeat(109), String::from("a\0b")] {
        assert!(matches!(
            SocketName::path(&name).address(),
            Err(Error::InvalidName)
        ));
    }
}

#[test]
fn abstract_names_leave_room_for_their_mark() {
    let address = SocketName::abstract_namespace("a\0b").address().unwrap();
    assert_eq!(address.as_abstract(), Some(&b"a\0b"[..]));
    let longest = "y".repeat(107);
    let address = SocketName::abstract_namespace(&longest).address().unwrap();
    assert_eq!(address.as_abstract(), Some(longest.as_bytes()));
    assert!(SocketName::abstract_namespace("").address().is_ok());
    assert!(matches!(
        SocketName::abstract_namespace(&"y".repeat(108)).address(),
        Err(Error::InvalidName)
    ));
}

#[test]
fn a_named_client_is_fresh() {
    let (address, client) = Client::with_name(SocketName::abstract_namespace("dumps")).unwrap();
    assert_eq!(address.as_abstract(), Some(&b"dumps"[..]));
    assert!(client.io().usable);
    assert!(client.io().abandoned_ack_ids.is_empty());
    assert!(!client.io().recv.has_partial_frame());
    assert!(matches!(
        Client::with_name(SocketName::path("")),
        Err(Error::InvalidName)
    ));
}

#[test]
fn port_names_are_plain_text() {
    assert_eq!(port_name(Path::new("/tmp/dümps")).unwrap(), "/tmp/dümps");
    assert!(matches!(
        port_name(Path::new("a\0b")),
        Err(Error::InvalidPortName)
    ));
}

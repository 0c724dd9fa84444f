use chat_room::{Connection, HandshakeAction, HandshakeEvent, Message, Packet};

fn body_of(frame: &[u8]) -> ([u8; 4], Vec<u8>) {
    ([frame[0], frame[1], frame[2], frame[3]], frame[4..].to_vec())
}

#[test]
fn both_sides_learn_the_name() {
    let mut client: Connection<u32> = Connection::new();
    let mut server: Connection<u32> = Connection::new();
    let name = "zoé".to_owned();

    let hello = match server.handshake(HandshakeEvent::Begin(None)) {
        HandshakeAction::Send(bytes) => bytes,
        other => panic!("{:?}", other),
    };
    assert_eq!(hello, b"\0\0\0\x0dchat-room 1.0");
    let (length, body) = body_of(&hello);
    assert_eq!(
        client.handshake(HandshakeEvent::Begin(Some(name.clone()))),
        HandshakeAction::ReceiveLength
    );
    assert_eq!(
        client.handshake(HandshakeEvent::Length(length)),
        HandshakeAction::ReceiveBody(13)
    );
    let reply = match client.handshake(HandshakeEvent::Body(body)) {
        HandshakeAction::Send(bytes) => bytes,
        other => panic!("{:?}", other),
    };
    assert_eq!(reply, "\0\0\0\u{4}zoé".as_bytes());
    assert_eq!(
        client.handshake(HandshakeEvent::Sent),
        HandshakeAction::Finish(name.clone())
    );

    assert_eq!(server.handshake(HandshakeEvent::Sent), HandshakeAction::ReceiveLength);
    let (length, body) = body_of(&reply);
    assert_eq!(
        server.handshake(HandshakeEvent::Length(length)),
        HandshakeAction::ReceiveBody(4)
    );
    assert_eq!(
        server.handshake(HandshakeEvent::Body(body)),
        HandshakeAction::Finish(name.clone())
    );

    let farewell = client.start(1).receive(None).packets;
    assert_eq!(
        farewell,
        vec![Packet { from: name.clone(), to: name.clone(), content: Message::Quit(name) }]
    );
    let farewell = server.start(2).receive(None).packets;
    assert_eq!(farewell[0].content, Message::ServerQuit);
}

#[test]
fn lengths_have_the_highest_byte_first() {
    let mut client: Connection<u32> = Connection::new();
    client.handshake(HandshakeEvent::Begin(Some("a".to_owned())));
    assert_eq!(
        client.handshake(HandshakeEvent::Length([1, 2, 3, 4])),
        HandshakeAction::ReceiveBody(0x0102_0304)
    );
}

#[test]
fn a_long_name_is_framed() {
    let name = "n".repeat(70_000);
    let mut client: Connection<u32> = Connection::new();
    client.handshake(HandshakeEvent::Begin(Some(name.clone())));
    client.handshake(HandshakeEvent::Length([0, 0, 0, 0]));
    match client.handshake(HandshakeEvent::Body(vec![])) {
        HandshakeAction::Send(bytes) => {
            assert_eq!(&bytes[..4], &[0, 1, 0x11, 0x70]);
            assert_eq!(&bytes[4..], name.as_bytes());
        }
        other => panic!("{:?}", other),
    }
}

#[test]
fn a_name_that_is_not_utf8_is_rejected() {
    let mut server: Connection<u32> = Connection::new();
    server.handshake(HandshakeEvent::Begin(None));
    server.handshake(HandshakeEvent::Sent);
    server.handshake(HandshakeEvent::Length([0, 0, 0, 2]));
    assert_eq!(
        server.handshake(HandshakeEvent::Body(vec![0xc3, 0x28])),
        HandshakeAction::Reject
    );
}

#[test]
fn events_are_awaited_in_turn() {
    let mut server: Connection<u32> = Connection::new();
    assert!(server.awaits(&HandshakeEvent::Begin(None)));
    assert!(!server.awaits(&HandshakeEvent::Sent));
    server.handshake(HandshakeEvent::Begin(None));
    assert!(server.awaits(&HandshakeEvent::Sent));
    assert!(!server.awaits(&HandshakeEvent::Begin(None)));
    server.handshake(HandshakeEvent::Sent);
    assert!(server.awaits(&HandshakeEvent::Length([0, 0, 0, 0])));
    server.handshake(HandshakeEvent::Length([0, 0, 0, 0]));
    assert!(server.awaits(&HandshakeEvent::Body(vec![])));
    assert_eq!(
        server.handshake(HandshakeEvent::Body(vec![])),
        HandshakeAction::Finish(String::new())
    );
    assert!(!server.awaits(&HandshakeEvent::Sent));
}

#[test]
fn nothing_is_sent_before_the_start() {
    let mut conn: Connection<u32> = Connection::new();
    let packet = Packet::new_text("x");
    assert!(!conn.is_started());
    assert_eq!(conn.send(&packet), None);
    conn.start(5);
    assert!(conn.is_started());
    assert_eq!(conn.send(&packet), Some((&5, packet.clone())));
}

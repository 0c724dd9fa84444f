use chat_room::{
    print, Connection, Key, KeyOutcome, Message, Packet, Prompt, Receiver, Room, RoomAction,
};

fn over_the_wire(packet: &Packet) -> Packet {
    let mut receiver = Receiver::new(None);
    let mut received = receiver.receive(Some(packet.encode()));
    assert!(!received.ended);
    assert_eq!(received.packets.len(), 1);
    received.packets.remove(0)
}

fn client(name: &str) -> Room<u32> {
    let mut conn = Connection::new();
    conn.start(0);
    Room::connect(name.to_owned(), conn)
}

#[test]
fn a_text_goes_from_the_keys_to_the_screens() {
    let mut prompt = Prompt::new();
    for c in "hi, all\n  of you  ".chars() {
        prompt.handle_key(if c == '\n' { Key::Enter } else { Key::Char(c) });
    }
    let posted = match prompt.handle_key(Key::Tab) {
        KeyOutcome::Post(packets) => packets,
        KeyOutcome::Exit => panic!(),
    };
    let expected = Packet {
        from: "ann".to_owned(),
        to: "".to_owned(),
        content: Message::Text("hi, all\n  of you".to_owned()),
    };

    let mut author = client("ann");
    let mut actions = Vec::new();
    for packet in posted {
        actions.extend(author.update(Some(packet)));
    }
    assert_eq!(actions, vec![RoomAction::Send(expected.clone())]);

    let mut server: Room<u32> = Room::create();
    let actions = server.update(Some(over_the_wire(&expected)));
    assert_eq!(
        actions,
        vec![
            RoomAction::Show(print(&expected)),
            RoomAction::Flush,
            RoomAction::Send(expected.clone()),
        ]
    );
    assert_eq!(server.history(), &vec![expected.clone()]);

    for name in ["ann", "bob"] {
        let actions = client(name).update(Some(over_the_wire(&expected)));
        assert_eq!(actions, vec![RoomAction::Show(print(&expected)), RoomAction::Flush]);
    }
}

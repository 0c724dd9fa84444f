use chat_room::{print, Connection, Message, Packet, Room, RoomAction, TermOp};

fn started(outbox: u32) -> Connection<u32> {
    let mut conn = Connection::new();
    conn.start(outbox);
    conn
}

fn text(from: &str, text: &str) -> Packet {
    Packet { from: from.to_owned(), to: "".to_owned(), content: Message::Text(text.to_owned()) }
}

#[test]
fn clients_are_taken_in_once_per_name() {
    let mut room: Room<u32> = Room::create();
    assert!(room.is_server());
    assert!(room.join("ann".to_owned(), started(1)));
    assert!(room.join("bob".to_owned(), started(2)));
    assert!(!room.join("ann".to_owned(), started(3)));
    assert!(!room.join("cid".to_owned(), Connection::new()));
    let packet = text("ann", "hi");
    assert_eq!(room.send(&packet), vec![(&1, packet.clone()), (&2, packet.clone())]);
}

#[test]
fn a_client_sends_to_the_server() {
    let room: Room<u32> = Room::connect("ann".to_owned(), started(9));
    assert!(!room.is_server());
    let packet = text("ann", "hi");
    assert_eq!(room.send(&packet), vec![(&9, packet.clone())]);
}

#[test]
fn an_empty_room_sends_nothing() {
    let room: Room<u32> = Room::create();
    assert_eq!(room.send(&text("a", "b")), vec![]);
}

#[test]
fn the_server_shows_and_forwards_a_text() {
    let mut room: Room<u32> = Room::create();
    let packet = text("ann", "hi");
    assert_eq!(
        room.update(Some(packet.clone())),
        vec![
            RoomAction::Show(print(&packet)),
            RoomAction::Flush,
            RoomAction::Send(packet.clone()),
        ]
    );
}

#[test]
fn a_client_shows_a_text_and_sends_it_no_further() {
    let mut room: Room<u32> = Room::connect("bob".to_owned(), started(9));
    let packet = text("ann", "hi");
    assert_eq!(
        room.update(Some(packet.clone())),
        vec![RoomAction::Show(print(&packet)), RoomAction::Flush]
    );
}

#[test]
fn a_text_typed_at_the_server() {
    let mut room: Room<u32> = Room::create();
    let packet = text("server", "hi");
    assert_eq!(
        room.update(Some(Packet::new_prompt_send("hi"))),
        vec![
            RoomAction::Show(print(&packet)),
            RoomAction::Flush,
            RoomAction::Send(packet.clone()),
        ]
    );
}

#[test]
fn a_text_typed_at_a_client() {
    let mut room: Room<u32> = Room::connect("ann".to_owned(), started(9));
    assert_eq!(
        room.update(Some(Packet::new_prompt_send("hi"))),
        vec![RoomAction::Send(text("ann", "hi"))]
    );
}

#[test]
fn a_newcomer_is_shown() {
    let mut room: Room<u32> = Room::create();
    let packet =
        Packet { from: "x".to_owned(), to: "".to_owned(), content: Message::NewUser };
    assert_eq!(room.update(Some(packet.clone())), vec![RoomAction::Show(print(&packet))]);
}

#[test]
fn nothing_is_done_about_other_packets() {
    let mut server: Room<u32> = Room::create();
    let mut client: Room<u32> = Room::connect("ann".to_owned(), started(9));
    for content in [
        Message::Quit("ann".to_owned()),
        Message::ServerQuit,
        Message::PromptUpdate,
    ] {
        let packet = Packet { from: "".to_owned(), to: "".to_owned(), content };
        assert_eq!(server.update(Some(packet.clone())), vec![]);
        assert_eq!(client.update(Some(packet)), vec![]);
    }
    assert_eq!(server.update(None), vec![]);
    assert_eq!(client.update(None), vec![]);
}

#[test]
fn drawing_of_a_text() {
    let op = |s: &str| TermOp::Print(s.to_owned());
    assert_eq!(
        print(&text("ann", "one\n\ntwo\n")),
        vec![
            TermOp::Bold,
            op("["),
            op("ann"),
            op("] "),
            TermOp::Reset,
            op("one"),
            TermOp::ClearToLineEnd,
            TermOp::NextLine(1),
            op("      "),
            op(""),
            TermOp::ClearToLineEnd,
            TermOp::NextLine(1),
            op("      "),
            op("two"),
            TermOp::ClearToLineEnd,
            TermOp::NextLine(1),
            op("      "),
            op(""),
            TermOp::ClearToLineEnd,
            TermOp::NextLine(1),
        ]
    );
}

#[test]
fn drawing_of_an_empty_text() {
    let ops = print(&text("é", ""));
    assert_eq!(ops.len(), 8);
    assert_eq!(ops[5], TermOp::Print("".to_owned()));
    // The padding counts the bytes of the name.
    assert_eq!(print(&text("é", "\n"))[8], TermOp::Print(" ".repeat(5)));
}

#[test]
fn drawing_of_a_newcomer() {
    let op = |s: &str| TermOp::Print(s.to_owned());
    let packet =
        Packet { from: "x".to_owned(), to: "".to_owned(), content: Message::NewUser };
    assert_eq!(
        print(&packet),
        vec![
            op(" |?| User "),
            TermOp::Bold,
            op("["),
            op("unknowned"),
            op("]"),
            TermOp::Reset,
            op(" has joined the room."),
            TermOp::NextLine(1),
        ]
    );
    assert_eq!(print(&Packet::new_prompt_update()), vec![]);
}

#[test]
fn a_server_remembers_what_it_sends() {
    let mut room: Room<u32> = Room::create();
    let inbox = vec![
        text("ann", "one"),
        Packet::new_prompt_update(),
        Packet::new_prompt_send("two"),
        text("bob", "three"),
    ];
    let mut sent = Vec::new();
    for packet in inbox {
        for action in room.update(Some(packet)) {
            if let RoomAction::Send(packet) = action {
                sent.push(packet);
            }
        }
    }
    assert_eq!(sent, vec![text("ann", "one"), text("server", "two"), text("bob", "three")]);
    assert_eq!(room.history(), &sent);
}

#[test]
fn a_client_remembers_nothing() {
    let mut room: Room<u32> = Room::connect("ann".to_owned(), started(9));
    room.update(Some(text("bob", "one")));
    room.update(Some(Packet::new_prompt_send("two")));
    assert_eq!(room.history(), &vec![]);
}

#[test]
fn a_text_takes_as_many_lines_as_it_has() {
    for (shown, lines) in [("", 1), ("one", 1), ("one\ntwo", 2), ("\n\n", 3)] {
        let mut rows = 0;
        for op in print(&text("ann", shown)) {
            if let TermOp::NextLine(n) = op {
                rows += n;
            }
        }
        assert_eq!(rows, lines);
    }
}

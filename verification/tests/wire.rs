use chat_room::{Fault, Message, Packet, Received, Receiver};

fn packet(from: &str, to: &str, content: Message) -> Packet {
    Packet { from: from.to_owned(), to: to.to_owned(), content }
}

fn all_kinds() -> Vec<Packet> {
    vec![
        packet("ann", "bob", Message::Text("héllo\nworld".to_owned())),
        packet("", "", Message::NewUser),
        packet("x", "", Message::Quit("日本".to_owned())),
        packet("", "y", Message::ServerQuit),
        Packet::new_prompt_update(),
        Packet::new_prompt_send(""),
        Packet::new_text("t"),
    ]
}

#[test]
fn constructors_of_packets() {
    assert_eq!(Packet::new_text("t"), packet("n/a", "n/a", Message::Text("t".to_owned())));
    assert_eq!(Packet::new_prompt_update(), packet("", "", Message::PromptUpdate));
    assert_eq!(
        Packet::new_prompt_send("s"),
        packet("", "", Message::PromptSend("s".to_owned()))
    );
    for p in all_kinds() {
        assert_eq!(p.clone(), p);
    }
}

#[test]
fn bytes_of_a_text() {
    let bytes = packet("ab", "", Message::Text("é".to_owned())).encode();
    assert_eq!(
        bytes,
        vec![
            2, 0, 0, 0, 0, 0, 0, 0, 97, 98, // from
            0, 0, 0, 0, 0, 0, 0, 0, // to
            0, 0, 0, 0, // a text
            2, 0, 0, 0, 0, 0, 0, 0, 0xc3, 0xa9,
        ]
    );
}

#[test]
fn bytes_of_the_kinds() {
    let kinds: Vec<u8> = all_kinds()
        .iter()
        .map(|p| p.encode()[16 + p.from.len() + p.to.len()])
        .collect();
    assert_eq!(kinds, vec![0, 1, 2, 3, 4, 5, 0]);
    assert_eq!(Packet::new_prompt_update().encode().len(), 20);
}

#[test]
fn packets_are_read_back() {
    for p in all_kinds() {
        let mut bytes = p.encode();
        let n = bytes.len();
        assert_eq!(Packet::decode(&bytes), Ok((p.clone(), n)));
        bytes.extend([1, 2, 3]);
        assert_eq!(Packet::decode(&bytes), Ok((p, n)));
    }
}

#[test]
fn part_of_a_packet_is_truncated() {
    for p in all_kinds() {
        let bytes = p.encode();
        for n in 0..bytes.len() {
            assert_eq!(Packet::decode(&bytes[..n]), Err(Fault::Truncated));
        }
    }
}

#[test]
fn unknown_kinds_are_malformed() {
    let mut bytes = Packet::new_prompt_update().encode();
    bytes[16] = 6;
    assert_eq!(Packet::decode(&bytes), Err(Fault::Malformed));
    bytes[16] = 0;
    bytes[19] = 1;
    assert_eq!(Packet::decode(&bytes), Err(Fault::Malformed));
}

#[test]
fn bad_utf8_is_malformed_before_the_rest_has_arrived() {
    let bytes = [1, 0, 0, 0, 0, 0, 0, 0, 0xff];
    assert_eq!(Packet::decode(&bytes), Err(Fault::Malformed));
    let bytes = [2, 0, 0, 0, 0, 0, 0, 0, 0xff];
    assert_eq!(Packet::decode(&bytes), Err(Fault::Truncated));
}

#[test]
fn a_length_beyond_all_bytes_is_truncated() {
    let bytes = [0, 0, 0, 0, 0, 0, 0, 0x10, 1, 2, 3];
    assert_eq!(Packet::decode(&bytes), Err(Fault::Truncated));
}

#[test]
fn packets_arrive_in_order_however_they_were_cut_up() {
    let packets = all_kinds();
    let mut bytes = Vec::new();
    for p in &packets {
        bytes.extend(p.encode());
    }
    for size in [1, 3, 20, 64, 10_000] {
        let mut receiver = Receiver::new(None);
        let mut arrived = Vec::new();
        for chunk in bytes.chunks(size) {
            let received = receiver.receive(Some(chunk.to_vec()));
            assert!(!received.ended);
            arrived.extend(received.packets);
        }
        assert_eq!(arrived, packets);
    }
}

#[test]
fn farewell_of_a_client() {
    let mut receiver = Receiver::new(Some("ann".to_owned()));
    assert_eq!(
        receiver.receive(None),
        Received {
            packets: vec![packet("ann", "ann", Message::Quit("ann".to_owned()))],
            ended: true,
        }
    );
}

#[test]
fn farewell_of_a_server() {
    let mut receiver = Receiver::new(None);
    let half = packet("a", "b", Message::NewUser).encode()[..10].to_vec();
    let received = receiver.receive(Some(half));
    assert_eq!(received, Received { packets: vec![], ended: false });
    assert_eq!(
        receiver.receive(None),
        Received { packets: vec![packet("", "", Message::ServerQuit)], ended: true }
    );
}

#[test]
fn malformed_bytes_end_the_connection_after_what_came_before() {
    let mut receiver = Receiver::new(Some("ann".to_owned()));
    let mut bytes = packet("a", "b", Message::NewUser).encode();
    let mut bad = Packet::new_prompt_update().encode();
    bad[16] = 77;
    bytes.extend(bad);
    assert_eq!(
        receiver.receive(Some(bytes)),
        Received {
            packets: vec![
                packet("a", "b", Message::NewUser),
                packet("ann", "ann", Message::Quit("ann".to_owned())),
            ],
            ended: true,
        }
    );
}

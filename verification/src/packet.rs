//! Packets: what the members of a room exchange.

use vstd::prelude::*;

verus! {

/// The name under which a member is known in a room.
pub type UserId = String;

/// What a packet carries.
#[derive(Debug, PartialEq, Eq)]
pub enum Message {
    Text(String),
    NewUser,
    Quit(UserId),
    ServerQuit,
    PromptUpdate,
    PromptSend(String),
}

/// A message with its sender and its addressee.
#[derive(Debug, PartialEq, Eq)]
pub struct Packet {
    pub from: UserId,
    pub to: UserId,
    pub content: Message,
}

/// The mathematical value of a [`Message`].
pub enum MessageView {
    Text(Seq<char>),
    NewUser,
    Quit(Seq<char>),
    ServerQuit,
    PromptUpdate,
    PromptSend(Seq<char>),
}

/// The mathematical value of a [`Packet`].
pub struct PacketView {
    pub from: Seq<char>,
    pub to: Seq<char>,
    pub content: MessageView,
}

impl View for Message {
    type V = MessageView;

    open spec fn view(&self) -> MessageView {
        match self {
            Message::Text(text) => MessageView::Text(text@),
            Message::NewUser => MessageView::NewUser,
            Message::Quit(id) => MessageView::Quit(id@),
            Message::ServerQuit => MessageView::ServerQuit,
            Message::PromptUpdate => MessageView::PromptUpdate,
            Message::PromptSend(text) => MessageView::PromptSend(text@),
        }
    }
}

impl View for Packet {
    type V = PacketView;

    open spec fn view(&self) -> PacketView {
        PacketView { from: self.from@, to: self.to@, content: self.content@ }
    }
}

/// The values of a list of packets.
pub open spec fn packet_views(packets: Seq<Packet>) -> Seq<PacketView> {
    Seq::new(packets.len(), |i: int| packets[i]@)
}

impl Clone for Message {
    fn clone(&self) -> (copy: Self)
        ensures
            copy == *self,
    {
        match self {
            Message::Text(text) => Message::Text(text.clone()),
            Message::NewUser => Message::NewUser,
            Message::Quit(id) => Message::Quit(id.clone()),
            Message::ServerQuit => Message::ServerQuit,
            Message::PromptUpdate => Message::PromptUpdate,
            Message::PromptSend(text) => Message::PromptSend(text.clone()),
        }
    }
}

impl Clone for Packet {
    fn clone(&self) -> (copy: Self)
        ensures
            copy == *self,
    {
        Packet {
            from: self.from.clone(),
            to: self.to.clone(),
            content: self.content.clone(),
        }
    }
}

impl Packet {
    /// A text with no particular sender or addressee.
    pub fn new_text(text: &str) -> (packet: Self)
        ensures
            packet@ == (PacketView {
                from: "n/a"@,
                to: "n/a"@,
                content: MessageView::Text(text@),
            }),
    {
        Packet {
            from: "n/a".to_owned(),
            to: "n/a".to_owned(),
            content: Message::Text(text.to_owned()),
        }
    }

    /// The note to oneself that the prompt has changed.
    pub fn new_prompt_update() -> (packet: Self)
        ensures
            packet@ == (PacketView { from: ""@, to: ""@, content: MessageView::PromptUpdate }),
    {
        Packet { from: "".to_owned(), to: "".to_owned(), content: Message::PromptUpdate }
    }

    /// The note to oneself that the text of the prompt is to be sent.
    pub fn new_prompt_send(text: &str) -> (packet: Self)
        ensures
            packet@ == (PacketView {
                from: ""@,
                to: ""@,
                content: MessageView::PromptSend(text@),
            }),
    {
        Packet {
            from: "".to_owned(),
            to: "".to_owned(),
            content: Message::PromptSend(text.to_owned()),
        }
    }
}

/// The values of packets are those of the packets, one for one and part for part.
pub proof fn law_values_of_packets(packets: Seq<Packet>, packet: Packet, text: String)
    ensures
        packet_views(packets).len() == packets.len(),
        forall|i: int|
            0 <= i < packets.len() ==> #[trigger] packet_views(packets)[i] == packets[i]@,
        packet@ == (PacketView {
            from: packet.from@,
            to: packet.to@,
            content: packet.content@,
        }),
        Message::Text(text)@ == MessageView::Text(text@),
        Message::NewUser@ == MessageView::NewUser,
        Message::Quit(text)@ == MessageView::Quit(text@),
        Message::ServerQuit@ == MessageView::ServerQuit,
        Message::PromptUpdate@ == MessageView::PromptUpdate,
        Message::PromptSend(text)@ == MessageView::PromptSend(text@),
{
}

} // verus!

//! A connection: how the two sides introduce themselves, and who it belongs to.
//!
//! The server says hello, the client answers with its name. Both are sent as a
//! frame: a length in four bytes, the highest first, and as many bytes.

use vstd::prelude::*;
use vstd::slice::slice_to_vec;
use vstd::utf8::{
    decode_utf8, encode_utf8, encode_utf8_decode_utf8, encode_utf8_valid_utf8, is_ascii_chars,
    is_ascii_chars_encode_utf8, valid_utf8,
};

use crate::bytes::{
    be_bytes, be_value, law_bytes_from_the_highest, lemma_be_bytes, lemma_byte_ranges, u32_from_be,
    u32_to_be,
};
use crate::packet::{MessageView, Packet, PacketView, UserId};
use crate::stream::{farewell, user_view, Receiver};

verus! {

/// What the server says to a client that connects.
pub open spec fn welcome() -> Seq<char> {
    "chat-room 1.0"@
}

/// Bytes behind their length. Of a length that four bytes cannot hold, the
/// lower 32 bits are sent.
pub open spec fn frame(body: Seq<u8>) -> Seq<u8> {
    be_bytes(body.len(), 4) + body
}

/// What a side of a connection is told during the handshake.
#[derive(Debug, PartialEq, Eq)]
pub enum HandshakeEvent {
    /// The connection stands. A client has a name, a server has none.
    Begin(Option<UserId>),
    /// What was to be sent has been sent.
    Sent,
    /// The length of a frame has arrived.
    Length([u8; 4]),
    /// The body of a frame has arrived.
    Body(Vec<u8>),
}

/// What a side of a connection has to do next in the handshake.
#[derive(Debug, PartialEq, Eq)]
pub enum HandshakeAction {
    /// Send these bytes.
    Send(Vec<u8>),
    /// Wait for the length of a frame.
    ReceiveLength,
    /// Wait for the body of a frame, of this length.
    ReceiveBody(u32),
    /// Nothing: the two sides know each other, and this is the client's name.
    Finish(UserId),
    /// Nothing: the name is not UTF-8, and the handshake has failed.
    Reject,
}

/// How far the handshake has got.
enum Stage {
    Idle,
    ClientLength(UserId),
    ClientBody(UserId),
    ClientReply(UserId),
    ServerWelcome,
    ServerLength,
    ServerBody,
    Over,
}

/// The mathematical value of a [`HandshakeEvent`].
pub enum EventView {
    Begin(Option<Seq<char>>),
    Sent,
    Length(Seq<u8>),
    Body(Seq<u8>),
}

/// The mathematical value of a [`HandshakeAction`].
pub enum ActionView {
    Send(Seq<u8>),
    ReceiveLength,
    ReceiveBody(nat),
    Finish(Seq<char>),
    Reject,
}

/// How far a handshake has got. A client knows its name throughout.
pub enum StageView {
    /// It has not begun.
    Idle,
    /// The client waits for the length of the server's hello.
    ClientLength(Seq<char>),
    /// The client waits for the server's hello.
    ClientBody(Seq<char>),
    /// The client sends its name.
    ClientReply(Seq<char>),
    /// The server says hello.
    ServerWelcome,
    /// The server waits for the length of the client's name.
    ServerLength,
    /// The server waits for the client's name.
    ServerBody,
    /// It has succeeded or failed.
    Over,
}

impl View for HandshakeEvent {
    type V = EventView;

    open spec fn view(&self) -> EventView {
        match self {
            HandshakeEvent::Begin(name) => EventView::Begin(user_view(*name)),
            HandshakeEvent::Sent => EventView::Sent,
            HandshakeEvent::Length(header) => EventView::Length(header@),
            HandshakeEvent::Body(body) => EventView::Body(body@),
        }
    }
}

impl View for HandshakeAction {
    type V = ActionView;

    open spec fn view(&self) -> ActionView {
        match self {
            HandshakeAction::Send(bytes) => ActionView::Send(bytes@),
            HandshakeAction::ReceiveLength => ActionView::ReceiveLength,
            HandshakeAction::ReceiveBody(len) => ActionView::ReceiveBody(*len as nat),
            HandshakeAction::Finish(id) => ActionView::Finish(id@),
            HandshakeAction::Reject => ActionView::Reject,
        }
    }
}

impl View for Stage {
    type V = StageView;

    closed spec fn view(&self) -> StageView {
        match self {
            Stage::Idle => StageView::Idle,
            Stage::ClientLength(name) => StageView::ClientLength(name@),
            Stage::ClientBody(name) => StageView::ClientBody(name@),
            Stage::ClientReply(name) => StageView::ClientReply(name@),
            Stage::ServerWelcome => StageView::ServerWelcome,
            Stage::ServerLength => StageView::ServerLength,
            Stage::ServerBody => StageView::ServerBody,
            Stage::Over => StageView::Over,
        }
    }
}

impl StageView {
    /// Whether an event is one that this stage waits for.
    pub open spec fn expects(self, event: EventView) -> bool {
        match self {
            StageView::Idle => event is Begin,
            StageView::ClientLength(_) => event is Length,
            StageView::ClientBody(_) => event is Body,
            StageView::ClientReply(_) => event is Sent,
            StageView::ServerWelcome => event is Sent,
            StageView::ServerLength => event is Length,
            StageView::ServerBody => event is Body,
            StageView::Over => false,
        }
    }

    /// The stage that follows.
    pub open spec fn next(self, event: EventView) -> StageView {
        match self {
            StageView::Idle => match event->Begin_0 {
                Some(name) => StageView::ClientLength(name),
                None => StageView::ServerWelcome,
            },
            StageView::ClientLength(name) => StageView::ClientBody(name),
            StageView::ClientBody(name) => StageView::ClientReply(name),
            StageView::ServerWelcome => StageView::ServerLength,
            StageView::ServerLength => StageView::ServerBody,
            _ => StageView::Over,
        }
    }

    /// What is done on an event. A client reads the server's hello, whatever it
    /// says, and answers with its name; a server says hello and takes the
    /// answer, if it is UTF-8, for the name of the client.
    pub open spec fn action(self, event: EventView) -> ActionView {
        match self {
            StageView::Idle => match event->Begin_0 {
                Some(_) => ActionView::ReceiveLength,
                None => ActionView::Send(frame(encode_utf8(welcome()))),
            },
            StageView::ClientLength(_) => ActionView::ReceiveBody(be_value(event->Length_0)),
            StageView::ClientBody(name) => ActionView::Send(frame(encode_utf8(name))),
            StageView::ClientReply(name) => ActionView::Finish(name),
            StageView::ServerWelcome => ActionView::ReceiveLength,
            StageView::ServerLength => ActionView::ReceiveBody(be_value(event->Length_0)),
            _ => if valid_utf8(event->Body_0) {
                ActionView::Finish(decode_utf8(event->Body_0))
            } else {
                ActionView::Reject
            },
        }
    }

    /// The user that the connection belongs to once the event has been dealt
    /// with: a client that has given its name belongs to itself.
    pub open spec fn user(self, user: Option<Seq<char>>) -> Option<Seq<char>> {
        match self {
            StageView::ClientReply(name) => Some(name),
            _ => user,
        }
    }
}

/// `String::from_utf8`: the string that the bytes encode, where they are valid
/// UTF-8, and an error where they are not.
#[verifier::external_body]
fn string_from_utf8(bytes: Vec<u8>) -> (s: Option<String>)
    ensures
        match s {
            Some(s) => valid_utf8(bytes@) && s@ == decode_utf8(bytes@),
            None => !valid_utf8(bytes@),
        },
{
    String::from_utf8(bytes).ok()
}

/// Puts the length of some bytes before them.
fn framed(body: &str) -> (bytes: Vec<u8>)
    ensures
        bytes@ == frame(encode_utf8(body@)),
{
    let mut tail: Vec<u8> = slice_to_vec(body.as_bytes());
    let len: u64 = tail.len() as u64;
    let low: u32 = #[verifier::truncate]
    (len as u32);
    proof {
        assert(len as u32 == len % 0x1_0000_0000) by (bit_vector);
        lemma_low_bytes(len as nat);
    }
    let mut bytes: Vec<u8> = u32_to_be(low);
    bytes.append(&mut tail);
    assert(bytes@ =~= frame(encode_utf8(body@)));
    bytes
}

/// Four bytes hold the lower 32 bits.
proof fn lemma_low_bytes(n: nat)
    ensures
        be_bytes(n % 0x1_0000_0000, 4) == be_bytes(n, 4),
{
    let low = n % 0x1_0000_0000;
    let high = n / 0x1_0000_0000;
    let (n1, low1) = (n / 256, low / 256);
    let (n2, low2) = (n1 / 256, low1 / 256);
    let (n3, low3) = (n2 / 256, low2 / 256);
    assert(n == high * 0x1_0000_0000 + low);
    assert(n1 == high * 0x100_0000 + low1);
    assert(n2 == high * 0x1_0000 + low2);
    assert(n3 == high * 0x100 + low3);
    assert(be_bytes(low3, 1) == be_bytes(n3, 1)) by {
        reveal_with_fuel(be_bytes, 2);
    }
    assert(be_bytes(low2, 2) == be_bytes(n2, 2));
    assert(be_bytes(low1, 3) == be_bytes(n1, 3));
}

/// One side of a connection. `S` is what packets are handed to on their way to
/// the other side.
pub struct Connection<S> {
    user: Option<UserId>,
    outbox: Option<S>,
    stage: Stage,
}

impl<S> Connection<S> {
    /// The user that the connection belongs to. Only a client learns it.
    pub closed spec fn user(&self) -> Option<Seq<char>> {
        user_view(self.user)
    }

    /// Where packets are handed to, once the connection has been started.
    pub closed spec fn outbox(&self) -> Option<S> {
        self.outbox
    }

    /// How far the handshake has got.
    pub closed spec fn stage(&self) -> StageView {
        self.stage@
    }

    /// A connection on which nothing has been said.
    pub fn new() -> (conn: Connection<S>)
        ensures
            conn.user() is None,
            conn.outbox() is None,
            conn.stage() is Idle,
    {
        Connection { user: None, outbox: None, stage: Stage::Idle }
    }

    /// Whether an event is the one that the handshake waits for.
    pub fn awaits(&self, event: &HandshakeEvent) -> (r: bool)
        ensures
            r == self.stage().expects(event@),
    {
        match (&self.stage, event) {
            (Stage::Idle, HandshakeEvent::Begin(_)) => true,
            (Stage::ClientLength(_), HandshakeEvent::Length(_)) => true,
            (Stage::ClientBody(_), HandshakeEvent::Body(_)) => true,
            (Stage::ClientReply(_), HandshakeEvent::Sent) => true,
            (Stage::ServerWelcome, HandshakeEvent::Sent) => true,
            (Stage::ServerLength, HandshakeEvent::Length(_)) => true,
            (Stage::ServerBody, HandshakeEvent::Body(_)) => true,
            _ => false,
        }
    }

    /// Takes the next event of the handshake and says what to do.
    pub fn handshake(&mut self, event: HandshakeEvent) -> (action: HandshakeAction)
        requires
            old(self).stage().expects(event@),
        ensures
            action@ == old(self).stage().action(event@),
            final(self).stage() == old(self).stage().next(event@),
            final(self).user() == old(self).stage().user(old(self).user()),
            final(self).outbox() == old(self).outbox(),
    {
        let mut stage: Stage = Stage::Over;
        core::mem::swap(&mut stage, &mut self.stage);
        match (stage, event) {
            (Stage::Idle, HandshakeEvent::Begin(Some(name))) => {
                self.stage = Stage::ClientLength(name);
                HandshakeAction::ReceiveLength
            },
            (Stage::Idle, HandshakeEvent::Begin(None)) => {
                self.stage = Stage::ServerWelcome;
                HandshakeAction::Send(framed("chat-room 1.0"))
            },
            (Stage::ClientLength(name), HandshakeEvent::Length(header)) => {
                self.stage = Stage::ClientBody(name);
                HandshakeAction::ReceiveBody(u32_from_be(header))
            },
            (Stage::ClientBody(name), HandshakeEvent::Body(_)) => {
                let reply = framed(name.as_str());
                self.stage = Stage::ClientReply(name);
                HandshakeAction::Send(reply)
            },
            (Stage::ClientReply(name), HandshakeEvent::Sent) => {
                self.user = Some(name.clone());
                HandshakeAction::Finish(name)
            },
            (Stage::ServerWelcome, HandshakeEvent::Sent) => {
                self.stage = Stage::ServerLength;
                HandshakeAction::ReceiveLength
            },
            (Stage::ServerLength, HandshakeEvent::Length(header)) => {
                self.stage = Stage::ServerBody;
                HandshakeAction::ReceiveBody(u32_from_be(header))
            },
            (Stage::ServerBody, HandshakeEvent::Body(body)) => match string_from_utf8(body) {
                Some(id) => HandshakeAction::Finish(id),
                None => HandshakeAction::Reject,
            },
            _ => HandshakeAction::Reject,
        }
    }

    /// Starts the exchange of packets: those to be sent go to `outbox`, and the
    /// receiving end that is handed back takes what arrives.
    pub fn start(&mut self, outbox: S) -> (receiver: Receiver)
        ensures
            final(self).outbox() == Some(outbox),
            final(self).user() == old(self).user(),
            final(self).stage() == old(self).stage(),
            receiver.user() == old(self).user(),
            receiver.pending() == Seq::<u8>::empty(),
    {
        self.outbox = Some(outbox);
        let user = match &self.user {
            Some(id) => Some(id.clone()),
            None => None,
        };
        Receiver::new(user)
    }

    /// Whether the connection has been started.
    pub fn is_started(&self) -> (r: bool)
        ensures
            r == self.outbox() is Some,
    {
        self.outbox.is_some()
    }

    /// Where a packet is to be handed to, with a copy of it; nowhere, as long as
    /// the connection has not been started.
    pub fn send(&self, message: &Packet) -> (delivery: Option<(&S, Packet)>)
        ensures
            match delivery {
                Some((outbox, packet)) => {
                    &&& self.outbox() == Some(*outbox)
                    &&& packet@ == message@
                },
                None => self.outbox() is None,
            },
    {
        match &self.outbox {
            Some(outbox) => Some((outbox, message.clone())),
            None => None,
        }
    }
}

/// A frame tells the other side what was put into it: its first four bytes give
/// the length of the rest, and the rest is the body.
pub proof fn law_frame(body: Seq<u8>)
    requires
        body.len() < 0x1_0000_0000,
    ensures
        frame(body).len() == 4 + body.len(),
        be_value(frame(body).take(4)) == body.len(),
        frame(body).skip(4) == body,
{
    lemma_byte_ranges();
    lemma_be_bytes(body.len(), 4);
    assert(frame(body).take(4) =~= be_bytes(body.len(), 4));
    assert(frame(body).skip(4) =~= body);
}

/// The handshake: when each side is handed what the other one sends, both end
/// with the client's name. The client then belongs to itself, so that it takes
/// the end of the connection for its own leaving; the server's side belongs to
/// nobody.
pub proof fn law_handshake(name: Seq<char>)
    requires
        encode_utf8(name).len() < 0x1_0000_0000,
    ensures
        ({
            let hello = frame(encode_utf8(welcome()));
            let reply = frame(encode_utf8(name));
            let c0 = StageView::Idle;
            let c1 = c0.next(EventView::Begin(Some(name)));
            let c2 = c1.next(EventView::Length(hello.take(4)));
            let c3 = c2.next(EventView::Body(hello.skip(4)));
            let s0 = StageView::Idle;
            let s1 = s0.next(EventView::Begin(None));
            let s2 = s1.next(EventView::Sent);
            let s3 = s2.next(EventView::Length(reply.take(4)));
            // The server says hello.
            &&& s0.action(EventView::Begin(None)) == ActionView::Send(hello)
            // The client reads it to its end and answers.
            &&& c0.action(EventView::Begin(Some(name))) == ActionView::ReceiveLength
            &&& c1.expects(EventView::Length(hello.take(4)))
            &&& c1.action(EventView::Length(hello.take(4))) == ActionView::ReceiveBody(
                hello.skip(4).len(),
            )
            &&& c2.expects(EventView::Body(hello.skip(4)))
            &&& c2.action(EventView::Body(hello.skip(4))) == ActionView::Send(reply)
            &&& c3.expects(EventView::Sent)
            &&& c3.action(EventView::Sent) == ActionView::Finish(name)
            // The server reads the answer to its end and knows the name.
            &&& s1.expects(EventView::Sent)
            &&& s1.action(EventView::Sent) == ActionView::ReceiveLength
            &&& s2.expects(EventView::Length(reply.take(4)))
            &&& s2.action(EventView::Length(reply.take(4))) == ActionView::ReceiveBody(
                reply.skip(4).len(),
            )
            &&& s3.expects(EventView::Body(reply.skip(4)))
            &&& s3.action(EventView::Body(reply.skip(4))) == ActionView::Finish(name)
            // What either takes the end of the connection for.
            &&& farewell(c3.user(None)) == (PacketView {
                from: name,
                to: name,
                content: MessageView::Quit(name),
            })
            &&& farewell(s3.user(None)).content is ServerQuit
        }),
{
    reveal_strlit("chat-room 1.0");
    encode_utf8_valid_utf8(name);
    encode_utf8_decode_utf8(name);
    law_frame(encode_utf8(name));
    assert(is_ascii_chars(welcome()));
    is_ascii_chars_encode_utf8(welcome());
    law_frame(encode_utf8(welcome()));
}

/// A frame byte by byte: the lower 32 bits of the length, the highest byte first,
/// and then the body as it is.
pub proof fn law_frame_byte_by_byte(body: Seq<u8>)
    ensures
        ({
            let n = (body.len() % 0x1_0000_0000) as u32;
            frame(body) == seq![
                (n / 0x100_0000) as u8,
                (n / 0x1_0000 % 0x100) as u8,
                (n / 0x100 % 0x100) as u8,
                (n % 0x100) as u8,
            ] + body
        }),
{
    lemma_low_bytes(body.len());
    law_bytes_from_the_highest((body.len() % 0x1_0000_0000) as u32, Seq::empty());
}

/// What each stage of the handshake waits for, and nothing else.
pub proof fn law_what_each_stage_awaits(stage: StageView, event: EventView)
    ensures
        stage.expects(event) <==> match event {
            EventView::Begin(_) => stage is Idle,
            EventView::Sent => stage is ClientReply || stage is ServerWelcome,
            EventView::Length(_) => stage is ClientLength || stage is ServerLength,
            EventView::Body(_) => stage is ClientBody || stage is ServerBody,
        },
{
}

/// The client's side of the handshake, whatever the server says: the client reads
/// a length, as many bytes as it gives, answers with its name in a frame, and is
/// done; and from then on the connection belongs to it.
pub proof fn law_side_of_the_client(
    name: Seq<char>,
    header: Seq<u8>,
    hello: Seq<u8>,
    user: Option<Seq<char>>,
)
    requires
        header.len() == 4,
    ensures
        ({
            let begin = EventView::Begin(Some(name));
            let length = EventView::Length(header);
            let body = EventView::Body(hello);
            let first = StageView::ClientLength(name);
            let second = StageView::ClientBody(name);
            let third = StageView::ClientReply(name);
            &&& StageView::Idle.action(begin) == ActionView::ReceiveLength
            &&& StageView::Idle.next(begin) == first
            &&& StageView::Idle.user(user) == user
            &&& first.action(length) == ActionView::ReceiveBody(
                (0x100_0000 * header[0] + 0x1_0000 * header[1] + 0x100 * header[2]
                    + header[3]) as nat,
            )
            &&& first.next(length) == second
            &&& first.user(user) == user
            &&& second.action(body) == ActionView::Send(
                be_bytes(encode_utf8(name).len(), 4) + encode_utf8(name),
            )
            &&& second.next(body) == third
            &&& second.user(user) == user
            &&& third.action(EventView::Sent) == ActionView::Finish(name)
            &&& third.next(EventView::Sent) == StageView::Over
            &&& third.user(user) == Some(name)
        }),
{
    law_bytes_from_the_highest(0, header);
}

/// The server's side of the handshake, whatever the client says: the server says
/// hello in a frame, reads a length, as many bytes as it gives, and takes them for
/// the client's name, if they are UTF-8; if they are not, the handshake fails. The
/// connection belongs to nobody throughout.
pub proof fn law_side_of_the_server(header: Seq<u8>, answer: Seq<u8>, user: Option<Seq<char>>)
    requires
        header.len() == 4,
    ensures
        ({
            let begin = EventView::Begin(None);
            let length = EventView::Length(header);
            let body = EventView::Body(answer);
            &&& StageView::Idle.action(begin) == ActionView::Send(
                seq![0u8, 0u8, 0u8, 13u8] + encode_utf8("chat-room 1.0"@),
            )
            &&& StageView::Idle.next(begin) == StageView::ServerWelcome
            &&& StageView::Idle.user(user) == user
            &&& StageView::ServerWelcome.action(EventView::Sent) == ActionView::ReceiveLength
            &&& StageView::ServerWelcome.next(EventView::Sent) == StageView::ServerLength
            &&& StageView::ServerWelcome.user(user) == user
            &&& StageView::ServerLength.action(length) == ActionView::ReceiveBody(
                (0x100_0000 * header[0] + 0x1_0000 * header[1] + 0x100 * header[2]
                    + header[3]) as nat,
            )
            &&& StageView::ServerLength.next(length) == StageView::ServerBody
            &&& StageView::ServerLength.user(user) == user
            &&& valid_utf8(answer) ==> StageView::ServerBody.action(body) == ActionView::Finish(
                decode_utf8(answer),
            )
            &&& !valid_utf8(answer) ==> StageView::ServerBody.action(body) == ActionView::Reject
            &&& StageView::ServerBody.next(body) == StageView::Over
            &&& StageView::ServerBody.user(user) == user
        }),
{
    reveal_strlit("chat-room 1.0");
    assert(is_ascii_chars(welcome()));
    is_ascii_chars_encode_utf8(welcome());
    law_frame_byte_by_byte(encode_utf8(welcome()));
    law_bytes_from_the_highest(0, header);
}

/// The values of what a side is told and of what it has to do.
pub proof fn law_values_in_the_handshake(
    name: UserId,
    header: [u8; 4],
    bytes: Vec<u8>,
    len: u32,
)
    ensures
        HandshakeEvent::Begin(Some(name))@ == EventView::Begin(Some(name@)),
        HandshakeEvent::Begin(None)@ == EventView::Begin(None),
        HandshakeEvent::Sent@ == EventView::Sent,
        HandshakeEvent::Length(header)@ == EventView::Length(header@),
        HandshakeEvent::Body(bytes)@ == EventView::Body(bytes@),
        HandshakeAction::Send(bytes)@ == ActionView::Send(bytes@),
        HandshakeAction::ReceiveLength@ == ActionView::ReceiveLength,
        HandshakeAction::ReceiveBody(len)@ == ActionView::ReceiveBody(len as nat),
        HandshakeAction::Finish(name)@ == ActionView::Finish(name@),
        HandshakeAction::Reject@ == ActionView::Reject,
{
}

} // verus!

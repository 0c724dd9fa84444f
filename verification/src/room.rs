//! The room: who is in it, what it does with a packet, and what it remembers.
//!
//! In server mode the room holds a connection for each client, in client mode a
//! single one to the server.

use vstd::prelude::*;

use crate::connection::Connection;
use crate::packet::{packet_views, Message, MessageView, Packet, PacketView, UserId};
use crate::stream::user_view;
use crate::terminal::{op_views, packet_ops, print, TermOp, TermOpView};

verus! {

/// What is to be done about a packet.
#[derive(Debug, PartialEq, Eq)]
pub enum RoomAction {
    /// Put this on the terminal.
    Show(Vec<TermOp>),
    /// Make it visible.
    Flush,
    /// Send this over all connections.
    Send(Packet),
}

/// The mathematical value of a [`RoomAction`].
pub enum RoomActionView {
    Show(Seq<TermOpView>),
    Flush,
    Send(PacketView),
}

impl View for RoomAction {
    type V = RoomActionView;

    open spec fn view(&self) -> RoomActionView {
        match self {
            RoomAction::Show(ops) => RoomActionView::Show(op_views(ops@)),
            RoomAction::Flush => RoomActionView::Flush,
            RoomAction::Send(packet) => RoomActionView::Send(packet@),
        }
    }
}

/// The values of a list of actions.
pub open spec fn action_views(actions: Seq<RoomAction>) -> Seq<RoomActionView> {
    Seq::new(actions.len(), |i: int| actions[i]@)
}

/// A text typed in a room, as it is sent: from the client's name, or from
/// "server".
pub open spec fn typed(local: Option<Seq<char>>, text: Seq<char>) -> PacketView {
    let from = match local {
        Some(id) => id,
        None => "server"@,
    };
    PacketView { from, to: ""@, content: MessageView::Text(text) }
}

/// What a room does about a packet from its inbox. `local` is the name of the
/// client whose room it is; the room of a server has none.
pub open spec fn reaction(local: Option<Seq<char>>, packet: PacketView) -> Seq<RoomActionView> {
    match packet.content {
        MessageView::NewUser => seq![RoomActionView::Show(packet_ops(packet))],
        MessageView::Text(_) => {
            let shown = seq![RoomActionView::Show(packet_ops(packet)), RoomActionView::Flush];
            if local is None {
                shown.push(RoomActionView::Send(packet))
            } else {
                shown
            }
        },
        MessageView::PromptSend(text) => {
            let sent = typed(local, text);
            if local is None {
                seq![
                    RoomActionView::Show(packet_ops(sent)),
                    RoomActionView::Flush,
                    RoomActionView::Send(sent),
                ]
            } else {
                seq![RoomActionView::Send(sent)]
            }
        },
        _ => Seq::empty(),
    }
}

/// What a room remembers of a packet from its inbox: a server remembers the
/// texts, those that arrive and those that were typed.
pub open spec fn memory(local: Option<Seq<char>>, packet: PacketView) -> Seq<PacketView> {
    if local is Some {
        Seq::empty()
    } else {
        match packet.content {
            MessageView::Text(_) => seq![packet],
            MessageView::PromptSend(text) => seq![typed(local, text)],
            _ => Seq::empty(),
        }
    }
}

/// A room. `S` is what packets are handed to on their way over a connection.
pub struct Room<S> {
    connections: Vec<(UserId, Connection<S>)>,
    local_id: Option<UserId>,
    history: Vec<Packet>,
}

impl<S> Room<S> {
    /// The client whose room it is, if it is a client's.
    pub closed spec fn local(&self) -> Option<Seq<char>> {
        user_view(self.local_id)
    }

    /// The texts that the room remembers.
    pub closed spec fn remembered(&self) -> Seq<PacketView> {
        packet_views(self.history@)
    }

    /// The names under which the connections are held.
    pub closed spec fn names(&self) -> Seq<Seq<char>> {
        Seq::new(self.connections@.len(), |i: int| self.connections@[i].0@)
    }

    /// Where packets are handed to on their way over each connection.
    pub closed spec fn outboxes(&self) -> Seq<Option<S>> {
        Seq::new(self.connections@.len(), |i: int| self.connections@[i].1.outbox())
    }

    /// No two connections are held under the same name, all of them have been
    /// started, and a client remembers nothing and is connected to the server
    /// alone.
    pub open spec fn wf(&self) -> bool {
        &&& self.outboxes().len() == self.names().len()
        &&& self.names().no_duplicates()
        &&& forall|i: int| 0 <= i < self.outboxes().len() ==> #[trigger] self.outboxes()[i] is Some
        &&& self.local() is Some ==> {
            &&& self.remembered() == Seq::<PacketView>::empty()
            &&& self.names() == seq!["server"@]
        }
    }

    /// The room of a server, with nobody in it.
    pub fn create() -> (room: Room<S>)
        ensures
            room.wf(),
            room.local() is None,
            room.remembered() == Seq::<PacketView>::empty(),
            room.names() == Seq::<Seq<char>>::empty(),
            room.outboxes() == Seq::<Option<S>>::empty(),
    {
        let room: Room<S> = Room {
            connections: Vec::new(),
            local_id: None,
            history: Vec::new(),
        };
        assert(room.names() =~= Seq::<Seq<char>>::empty());
        assert(room.remembered() =~= Seq::<PacketView>::empty());
        assert(room.outboxes() =~= Seq::<Option<S>>::empty());
        room
    }

    /// The room of a client, with a connection to the server that has been
    /// started.
    pub fn connect(user_id: UserId, server: Connection<S>) -> (room: Room<S>)
        requires
            server.outbox() is Some,
        ensures
            room.wf(),
            room.local() == Some(user_id@),
            room.remembered() == Seq::<PacketView>::empty(),
            room.names() == seq!["server"@],
            room.outboxes() == seq![server.outbox()],
    {
        let room: Room<S> = Room {
            connections: vec![("server".to_owned(), server)],
            local_id: Some(user_id),
            history: Vec::new(),
        };
        assert(room.names() =~= seq!["server"@]);
        assert(room.remembered() =~= Seq::<PacketView>::empty());
        assert(room.outboxes() =~= seq![server.outbox()]);
        room
    }

    /// Whether the room is that of a server.
    pub fn is_server(&self) -> (r: bool)
        ensures
            r == self.local() is None,
    {
        self.local_id.is_none()
    }

    /// The texts that the room remembers.
    pub fn history(&self) -> (packets: &Vec<Packet>)
        ensures
            packet_views(packets@) == self.remembered(),
    {
        &self.history
    }

    /// Takes a client in whose handshake gave a name, if its connection has been
    /// started and nobody is there under that name.
    pub fn join(&mut self, user_id: UserId, conn: Connection<S>) -> (joined: bool)
        requires
            old(self).wf(),
            old(self).local() is None,
        ensures
            final(self).wf(),
            final(self).local() == old(self).local(),
            final(self).remembered() == old(self).remembered(),
            joined == (conn.outbox() is Some && !old(self).names().contains(user_id@)),
            joined ==> final(self).names() == old(self).names().push(user_id@),
            joined ==> final(self).outboxes() == old(self).outboxes().push(conn.outbox()),
            !joined ==> *final(self) == *old(self),
    {
        if !conn.is_started() {
            return false;
        }
        let mut i: usize = 0;
        while i < self.connections.len()
            invariant
                old(self).wf(),
                i <= self.connections@.len(),
                forall|j: int| 0 <= j < i ==> #[trigger] self.names()[j] != user_id@,
                *self == *old(self),
            decreases self.connections@.len() - i,
        {
            if self.connections[i].0 == user_id {
                assert(self.names()[i as int] == user_id@);
                return false;
            }
            i += 1;
        }
        let ghost name = user_id@;
        let ghost names = self.names();
        self.connections.push((user_id, conn));
        proof {
            assert(self.names() =~= names.push(name));
            assert(self.outboxes() =~= old(self).outboxes().push(conn.outbox()));
        }
        true
    }

    /// Where a packet is to be handed to, with a copy of it for each: to every
    /// connection of the room.
    pub fn send(&self, packet: &Packet) -> (deliveries: Vec<(&S, Packet)>)
        requires
            self.wf(),
        ensures
            deliveries@.len() == self.outboxes().len(),
            forall|i: int|
                0 <= i < deliveries@.len() ==> {
                    &&& Some(*(#[trigger] deliveries@[i]).0) == self.outboxes()[i]
                    &&& deliveries@[i].1@ == packet@
                },
    {
        let mut deliveries: Vec<(&S, Packet)> = Vec::new();
        let mut i: usize = 0;
        while i < self.connections.len()
            invariant
                self.wf(),
                i <= self.connections@.len(),
                deliveries@.len() == i,
                forall|j: int|
                    0 <= j < i ==> {
                        &&& Some(*(#[trigger] deliveries@[j]).0) == self.outboxes()[j]
                        &&& deliveries@[j].1@ == packet@
                    },
            decreases self.connections@.len() - i,
        {
            assert(self.outboxes()[i as int] is Some);
            if let Some(delivery) = self.connections[i].1.send(packet) {
                deliveries.push(delivery);
            }
            i += 1;
        }
        deliveries
    }

    /// Takes the next packet from the room's inbox, if there is one, and says
    /// what to do about it.
    pub fn update(&mut self, received: Option<Packet>) -> (actions: Vec<RoomAction>)
        requires
            old(self).wf(),
        ensures
            final(self).wf(),
            final(self).local() == old(self).local(),
            final(self).names() == old(self).names(),
            final(self).outboxes() == old(self).outboxes(),
            match received {
                Some(packet) => {
                    &&& action_views(actions@) == reaction(old(self).local(), packet@)
                    &&& final(self).remembered() == old(self).remembered() + memory(
                        old(self).local(),
                        packet@,
                    )
                },
                None => {
                    &&& actions@ == Seq::<RoomAction>::empty()
                    &&& final(self).remembered() == old(self).remembered()
                },
            },
    {
        let mut actions: Vec<RoomAction> = Vec::new();
        let message = match received {
            Some(message) => message,
            None => {
                return actions;
            },
        };
        match &message.content {
            Message::NewUser => {
                actions.push(RoomAction::Show(print(&message)));
            },
            Message::Text(_) => {
                actions.push(RoomAction::Show(print(&message)));
                actions.push(RoomAction::Flush);
                if self.is_server() {
                    actions.push(RoomAction::Send(message.clone()));
                    self.history.push(message.clone());
                }
            },
            Message::PromptSend(text) => {
                let from = match &self.local_id {
                    Some(id) => id.clone(),
                    None => "server".to_owned(),
                };
                let packet = Packet {
                    from,
                    to: "".to_owned(),
                    content: Message::Text(text.clone()),
                };
                if self.is_server() {
                    actions.push(RoomAction::Show(print(&packet)));
                    actions.push(RoomAction::Flush);
                    self.history.push(packet.clone());
                }
                actions.push(RoomAction::Send(packet));
            },
            _ => {},
        }
        proof {
            let local = old(self).local();
            assert(self.names() =~= old(self).names());
            assert(self.outboxes() =~= old(self).outboxes());
            assert(action_views(actions@) =~= reaction(local, message@));
            assert(self.remembered() =~= old(self).remembered() + memory(local, message@));
        }
        actions
    }
}

/// The room of a client has one connection, to the server; what it sends goes
/// there and nowhere else.
pub proof fn law_client_has_one_connection<S>(room: Room<S>)
    requires
        room.wf(),
        room.local() is Some,
    ensures
        room.names() == seq!["server"@],
        room.outboxes().len() == 1,
        room.outboxes()[0] is Some,
{
}

/// The packets among some actions that are sent.
pub open spec fn sent(actions: Seq<RoomActionView>) -> Seq<PacketView>
    decreases actions.len(),
{
    if actions.len() == 0 {
        Seq::empty()
    } else {
        match actions.last() {
            RoomActionView::Send(packet) => sent(actions.drop_last()).push(packet),
            _ => sent(actions.drop_last()),
        }
    }
}

/// All that a room does about the packets of its inbox, one after the other.
pub open spec fn course(local: Option<Seq<char>>, inbox: Seq<PacketView>) -> Seq<RoomActionView>
    decreases inbox.len(),
{
    if inbox.len() == 0 {
        Seq::empty()
    } else {
        course(local, inbox.drop_last()) + reaction(local, inbox.last())
    }
}

/// All that a room remembers of the packets of its inbox.
pub open spec fn memories(local: Option<Seq<char>>, inbox: Seq<PacketView>) -> Seq<PacketView>
    decreases inbox.len(),
{
    if inbox.len() == 0 {
        Seq::empty()
    } else {
        memories(local, inbox.drop_last()) + memory(local, inbox.last())
    }
}

/// The texts among the packets of an inbox that were typed at a client, as they
/// are sent.
pub open spec fn all_typed(id: Seq<char>, inbox: Seq<PacketView>) -> Seq<PacketView>
    decreases inbox.len(),
{
    if inbox.len() == 0 {
        Seq::empty()
    } else {
        match inbox.last().content {
            MessageView::PromptSend(text) => all_typed(id, inbox.drop_last()).push(
                typed(Some(id), text),
            ),
            _ => all_typed(id, inbox.drop_last()),
        }
    }
}

/// What is sent of two lists of actions is sent of both together.
proof fn lemma_sent_concat(a: Seq<RoomActionView>, b: Seq<RoomActionView>)
    ensures
        sent(a + b) == sent(a) + sent(b),
    decreases b.len(),
{
    if b.len() == 0 {
        assert(a + b =~= a);
    } else {
        lemma_sent_concat(a, b.drop_last());
        assert((a + b).drop_last() =~= a + b.drop_last());
        assert((a + b).last() == b.last());
    }
}

/// What is sent about a single packet: by a server what it remembers, by a
/// client what was typed.
proof fn lemma_sent_reaction(local: Option<Seq<char>>, packet: PacketView)
    ensures
        sent(reaction(local, packet)) == match packet.content {
            MessageView::Text(_) => if local is None {
                seq![packet]
            } else {
                Seq::empty()
            },
            MessageView::PromptSend(text) => seq![typed(local, text)],
            _ => Seq::empty(),
        },
        local is None ==> sent(reaction(local, packet)) == memory(local, packet),
{
    reveal_with_fuel(sent, 4);
    let actions = reaction(local, packet);
    if actions.len() > 0 {
        let fewer = actions.drop_last();
        assert(fewer.len() > 0 ==> fewer.drop_last().len() == actions.len() - 2);
    }
}

/// The history of a server: it is made of what the server has sent, text for
/// text and in the same order.
pub proof fn law_server_remembers_what_it_sends(inbox: Seq<PacketView>)
    ensures
        sent(course(None, inbox)) == memories(None, inbox),
    decreases inbox.len(),
{
    if inbox.len() > 0 {
        law_server_remembers_what_it_sends(inbox.drop_last());
        lemma_sent_concat(course(None, inbox.drop_last()), reaction(None, inbox.last()));
        lemma_sent_reaction(None, inbox.last());
    }
}

/// A client sends what was typed at it, in the same order, and nothing else; and
/// it remembers nothing.
pub proof fn law_client_sends_what_was_typed(id: Seq<char>, inbox: Seq<PacketView>)
    ensures
        sent(course(Some(id), inbox)) == all_typed(id, inbox),
        memories(Some(id), inbox) == Seq::<PacketView>::empty(),
    decreases inbox.len(),
{
    if inbox.len() > 0 {
        let earlier = inbox.drop_last();
        law_client_sends_what_was_typed(id, earlier);
        lemma_sent_concat(course(Some(id), earlier), reaction(Some(id), inbox.last()));
        lemma_sent_reaction(Some(id), inbox.last());
        assert(memories(Some(id), inbox) =~= Seq::<PacketView>::empty());
        assert(sent(course(Some(id), inbox)) =~= all_typed(id, inbox));
    }
}

/// The round of a text: what is typed at a client goes to the server and nowhere
/// else; the server shows it, remembers it and sends it as it is to all clients;
/// each client shows it, as the server did, and sends it no further.
pub proof fn law_round_of_a_text(author: Seq<char>, reader: Seq<char>, text: Seq<char>)
    ensures
        ({
            let note = PacketView { from: ""@, to: ""@, content: MessageView::PromptSend(text) };
            let packet = typed(Some(author), text);
            let shown = RoomActionView::Show(packet_ops(packet));
            &&& packet == (PacketView { from: author, to: ""@, content: MessageView::Text(text) })
            &&& reaction(Some(author), note) == seq![RoomActionView::Send(packet)]
            &&& reaction(None, packet) == seq![
                shown,
                RoomActionView::Flush,
                RoomActionView::Send(packet),
            ]
            &&& memory(None, packet) == seq![packet]
            &&& reaction(Some(reader), packet) == seq![shown, RoomActionView::Flush]
        }),
{
    let packet = typed(Some(author), text);
    let shown = RoomActionView::Show(packet_ops(packet));
    assert(reaction(None, packet) =~= seq![
        shown,
        RoomActionView::Flush,
        RoomActionView::Send(packet),
    ]);
}

/// What a server does about each packet, and what it remembers of it: a text that
/// arrives is shown, sent to all as it arrived, and remembered; and so is a text
/// that was typed, whole, as one from "server" to nobody in particular. A
/// newcomer is shown, and nothing is done about the rest.
pub proof fn law_what_a_server_does(packet: PacketView)
    ensures
        match packet.content {
            MessageView::Text(_) => {
                &&& reaction(None, packet) == seq![
                    RoomActionView::Show(packet_ops(packet)),
                    RoomActionView::Flush,
                    RoomActionView::Send(packet),
                ]
                &&& memory(None, packet) == seq![packet]
            },
            MessageView::PromptSend(text) => {
                let written = PacketView {
                    from: "server"@,
                    to: ""@,
                    content: MessageView::Text(text),
                };
                &&& reaction(None, packet) == seq![
                    RoomActionView::Show(packet_ops(written)),
                    RoomActionView::Flush,
                    RoomActionView::Send(written),
                ]
                &&& memory(None, packet) == seq![written]
                &&& reaction(None, packet) == reaction(None, written)
                &&& memory(None, packet) == memory(None, written)
            },
            MessageView::NewUser => {
                &&& reaction(None, packet) == seq![RoomActionView::Show(packet_ops(packet))]
                &&& memory(None, packet).len() == 0
            },
            MessageView::Quit(_) | MessageView::ServerQuit | MessageView::PromptUpdate => {
                &&& reaction(None, packet).len() == 0
                &&& memory(None, packet).len() == 0
            },
        },
{
    if packet.content is Text {
        assert(reaction(None, packet) =~= seq![
            RoomActionView::Show(packet_ops(packet)),
            RoomActionView::Flush,
            RoomActionView::Send(packet),
        ]);
    }
    if let MessageView::PromptSend(text) = packet.content {
        let written = PacketView { from: "server"@, to: ""@, content: MessageView::Text(text) };
        assert(reaction(None, written) =~= seq![
            RoomActionView::Show(packet_ops(written)),
            RoomActionView::Flush,
            RoomActionView::Send(written),
        ]);
    }
}

/// What the room of a client does about each packet: a text that arrives is
/// shown, a text that was typed is sent, whole, as one from the client to nobody
/// in particular, and a newcomer is shown. Nothing is done about the rest, and
/// nothing is remembered.
pub proof fn law_what_a_client_does(id: Seq<char>, packet: PacketView)
    ensures
        memory(Some(id), packet).len() == 0,
        match packet.content {
            MessageView::Text(_) => reaction(Some(id), packet) == seq![
                RoomActionView::Show(packet_ops(packet)),
                RoomActionView::Flush,
            ],
            MessageView::PromptSend(text) => reaction(Some(id), packet) == seq![
                RoomActionView::Send(
                    PacketView { from: id, to: ""@, content: MessageView::Text(text) },
                ),
            ],
            MessageView::NewUser => reaction(Some(id), packet) == seq![
                RoomActionView::Show(packet_ops(packet)),
            ],
            MessageView::Quit(_) | MessageView::ServerQuit | MessageView::PromptUpdate => reaction(
                Some(id),
                packet,
            ).len() == 0,
        },
{
}

/// A text as it is sent is the text that was typed, with nothing left out, under
/// the name of who typed it.
pub proof fn law_what_was_typed_is_sent(id: Seq<char>, text: Seq<char>)
    ensures
        typed(Some(id), text) == (PacketView {
            from: id,
            to: ""@,
            content: MessageView::Text(text),
        }),
        typed(None, text) == (PacketView {
            from: "server"@,
            to: ""@,
            content: MessageView::Text(text),
        }),
{
}

/// The values of actions are those of the actions, one for one.
pub proof fn law_values_of_actions(actions: Seq<RoomAction>, ops: Vec<TermOp>, packet: Packet)
    ensures
        action_views(actions).len() == actions.len(),
        forall|i: int|
            0 <= i < actions.len() ==> #[trigger] action_views(actions)[i] == actions[i]@,
        RoomAction::Show(ops)@ == RoomActionView::Show(op_views(ops@)),
        RoomAction::Flush@ == RoomActionView::Flush,
        RoomAction::Send(packet)@ == RoomActionView::Send(packet@),
{
}

/// When a room is in order: there is a started connection under each name, no
/// name is there twice, and a client has "server" as the only name and nothing to
/// remember.
pub proof fn law_room_in_order<S>(room: Room<S>)
    ensures
        room.wf() <==> {
            &&& room.names().len() == room.outboxes().len()
            &&& forall|i: int, j: int|
                0 <= i < j < room.names().len() ==> room.names()[i] != room.names()[j]
            &&& forall|i: int|
                0 <= i < room.outboxes().len() ==> #[trigger] room.outboxes()[i] is Some
            &&& room.local() is None || room.remembered().len() == 0 && room.names().len() == 1
                && room.names()[0] == "server"@
        },
{
    if room.local() is Some {
        if room.names().len() == 1 && room.names()[0] == "server"@ {
            assert(room.names() =~= seq!["server"@]);
        }
        if room.remembered().len() == 0 {
            assert(room.remembered() =~= Seq::<PacketView>::empty());
        }
    }
}

/// Nothing that a room has remembered is ever lost, and what it does about a
/// packet does not hang on what came before it: the course of a longer inbox goes
/// on where that of its beginning ended.
pub proof fn law_course_of_a_longer_inbox(
    local: Option<Seq<char>>,
    before: Seq<PacketView>,
    after: Seq<PacketView>,
)
    ensures
        course(local, before + after) == course(local, before) + course(local, after),
        memories(local, before + after) == memories(local, before) + memories(local, after),
    decreases after.len(),
{
    if after.len() == 0 {
        assert(before + after =~= before);
        assert(course(local, before) + course(local, after) =~= course(local, before));
        assert(memories(local, before) + memories(local, after) =~= memories(local, before));
    } else {
        law_course_of_a_longer_inbox(local, before, after.drop_last());
        assert((before + after).drop_last() =~= before + after.drop_last());
        assert(course(local, before + after) =~= course(local, before) + course(local, after));
        assert(memories(local, before + after) =~= memories(local, before) + memories(
            local,
            after,
        ));
    }
}

} // verus!

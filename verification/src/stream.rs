//! The receiving end of a connection: packets out of the bytes that arrive.

use vstd::prelude::*;
use vstd::slice::slice_subrange;

use crate::packet::{packet_views, Message, MessageView, Packet, PacketView, UserId};
use crate::wire::{
    fits, law_more_bytes, law_read_what_was_written, law_round_trip, read_packet, wire, Fault,
};

verus! {

/// What bytes that have arrived amount to.
pub struct Arrivals {
    /// The packets that are complete, in order.
    pub packets: Seq<PacketView>,
    /// The bytes behind them.
    pub rest: Seq<u8>,
    /// Whether the bytes behind them can never become a packet.
    pub broken: bool,
}

impl Arrivals {
    /// The same with some packets before it.
    pub open spec fn after(self, packets: Seq<PacketView>) -> Arrivals {
        Arrivals { packets: packets + self.packets, ..self }
    }
}

/// The packets that bytes hold one behind the other.
pub open spec fn arrivals(bytes: Seq<u8>) -> Arrivals
    decreases bytes.len(),
{
    match read_packet(bytes) {
        Ok(packet) => {
            proof {
                law_read_what_was_written(bytes);
            }
            arrivals(bytes.skip(wire(packet).len() as int)).after(seq![packet])
        },
        Err(fault) => Arrivals {
            packets: Seq::empty(),
            rest: bytes,
            broken: fault == Fault::Malformed,
        },
    }
}

/// Packets on the wire one behind the other.
pub open spec fn wire_all(packets: Seq<PacketView>) -> Seq<u8>
    decreases packets.len(),
{
    if packets.len() == 0 {
        Seq::empty()
    } else {
        wire(packets.first()) + wire_all(packets.skip(1))
    }
}

/// What a side of a connection tells its room when the other side is gone. The
/// side that knows its user says that this user has quit; the other one, which
/// knows none, says that the server has.
pub open spec fn farewell(user: Option<Seq<char>>) -> PacketView {
    match user {
        Some(id) => PacketView { from: id, to: id, content: MessageView::Quit(id) },
        None => PacketView { from: ""@, to: ""@, content: MessageView::ServerQuit },
    }
}

/// The value of an optional name.
pub open spec fn user_view(user: Option<UserId>) -> Option<Seq<char>> {
    match user {
        Some(id) => Some(id@),
        None => None,
    }
}

/// What came of bytes that arrived.
#[derive(Debug, PartialEq, Eq)]
pub struct Received {
    /// The packets for the inbox of the room, in order.
    pub packets: Vec<Packet>,
    /// Whether nothing more is to be read.
    pub ended: bool,
}

/// The receiving end of a connection.
pub struct Receiver {
    user: Option<UserId>,
    pending: Vec<u8>,
}

impl Receiver {
    /// The user on whose behalf the connection was made, if known.
    pub closed spec fn user(&self) -> Option<Seq<char>> {
        user_view(self.user)
    }

    /// The bytes that arrived and are part of no complete packet.
    pub closed spec fn pending(&self) -> Seq<u8> {
        self.pending@
    }

    /// A receiving end to which nothing has come.
    pub fn new(user: Option<UserId>) -> (receiver: Receiver)
        ensures
            receiver.user() == user_view(user),
            receiver.pending() == Seq::<u8>::empty(),
    {
        Receiver { user, pending: Vec::new() }
    }

    /// The packet that says that the other side is gone.
    pub fn farewell(&self) -> (packet: Packet)
        ensures
            packet@ == farewell(self.user()),
    {
        match &self.user {
            Some(id) => Packet {
                from: id.clone(),
                to: id.clone(),
                content: Message::Quit(id.clone()),
            },
            None => Packet {
                from: "".to_owned(),
                to: "".to_owned(),
                content: Message::ServerQuit,
            },
        }
    }

    /// Takes what was read: some bytes, or `None` where there is nothing more to
    /// read. Each packet that is complete is handed on; when the bytes end, or
    /// are no packet, the farewell is the last to be handed on.
    pub fn receive(&mut self, chunk: Option<Vec<u8>>) -> (r: Received)
        ensures
            final(self).user() == old(self).user(),
            match chunk {
                None => {
                    &&& packet_views(r.packets@) == seq![farewell(old(self).user())]
                    &&& r.ended
                    &&& final(self).pending() == old(self).pending()
                },
                Some(bytes) => {
                    let got = arrivals(old(self).pending() + bytes@);
                    &&& packet_views(r.packets@) == if got.broken {
                        got.packets.push(farewell(old(self).user()))
                    } else {
                        got.packets
                    }
                    &&& r.ended == got.broken
                    &&& final(self).pending() == got.rest
                },
            },
    {
        let mut packets: Vec<Packet> = Vec::new();
        let mut bytes: Vec<u8> = match chunk {
            None => {
                packets.push(self.farewell());
                assert(packet_views(packets@) =~= seq![farewell(self.user())]);
                return Received { packets, ended: true };
            },
            Some(bytes) => bytes,
        };
        self.pending.append(&mut bytes);
        let ghost all = self.pending@;
        let mut pos: usize = 0;
        let mut stop: Option<Fault> = None;
        proof {
            assert(all.skip(0) =~= all);
            assert(packet_views(packets@) + arrivals(all).packets =~= arrivals(all).packets);
        }
        while stop.is_none()
            invariant
                self.pending@ == all,
                self.user() == old(self).user(),
                pos <= all.len(),
                arrivals(all) == arrivals(all.skip(pos as int)).after(packet_views(packets@)),
                stop matches Some(fault) ==> read_packet(all.skip(pos as int)) == Err::<
                    PacketView,
                    Fault,
                >(fault),
            decreases
                all.len() - pos + if stop is None {
                    1int
                } else {
                    0int
                },
        {
            let ghost here = all.skip(pos as int);
            let rest = slice_subrange(self.pending.as_slice(), pos, self.pending.len());
            assert(rest@ =~= here);
            match Packet::decode(rest) {
                Ok((packet, used)) => {
                    let ghost before = packet_views(packets@);
                    proof {
                        law_read_what_was_written(here);
                    }
                    packets.push(packet);
                    pos = pos + used;
                    proof {
                        assert(all.skip(pos as int) =~= here.skip(used as int));
                        assert(packet_views(packets@) =~= before + seq![packet@]);
                        assert(before + (seq![packet@] + arrivals(all.skip(pos as int)).packets)
                            =~= packet_views(packets@) + arrivals(all.skip(pos as int)).packets);
                    }
                },
                Err(fault) => {
                    stop = Some(fault);
                },
            }
        }
        let broken: bool = matches!(stop, Some(Fault::Malformed));
        self.pending = self.pending.split_off(pos);
        proof {
            assert(self.pending@ =~= all.skip(pos as int));
            assert(arrivals(all).packets =~= packet_views(packets@));
        }
        if broken {
            let ghost before = packet_views(packets@);
            packets.push(self.farewell());
            assert(packet_views(packets@) =~= before.push(farewell(self.user())));
        }
        Received { packets, ended: broken }
    }
}

/// It does not matter which of three sequences are joined first.
proof fn lemma_concat_associates(a: Seq<u8>, b: Seq<u8>, c: Seq<u8>)
    ensures
        a + b + c == a + (b + c),
{
    assert(a + b + c =~= a + (b + c));
}

/// A packet at the start of some bytes is the first to arrive.
proof fn lemma_first_arrival(packet: PacketView, rest: Seq<u8>)
    requires
        fits(packet),
    ensures
        arrivals(wire(packet) + rest) == arrivals(rest).after(seq![packet]),
{
    law_round_trip(packet, rest);
}

/// Packets that were written one behind the other arrive in that order, none
/// lost and none added, and what follows them is left.
pub proof fn law_packets_arrive_in_order(packets: Seq<PacketView>, rest: Seq<u8>)
    requires
        forall|i: int| 0 <= i < packets.len() ==> fits(#[trigger] packets[i]),
    ensures
        arrivals(wire_all(packets) + rest) == arrivals(rest).after(packets),
    decreases packets.len(),
{
    if packets.len() == 0 {
        assert(wire_all(packets) + rest =~= rest);
        assert(packets + arrivals(rest).packets =~= arrivals(rest).packets);
    } else {
        let first = packets.first();
        let others = packets.skip(1);
        assert forall|i: int| 0 <= i < others.len() implies fits(#[trigger] others[i]) by {
            assert(others[i] == packets[i + 1]);
        }
        assert(fits(packets[0]));
        law_packets_arrive_in_order(others, rest);
        lemma_first_arrival(first, wire_all(others) + rest);
        assert(wire_all(packets) + rest == wire(first) + (wire_all(others) + rest)) by {
            lemma_concat_associates(wire(first), wire_all(others), rest);
        }
        assert(seq![first] + (others + arrivals(rest).packets) =~= packets
            + arrivals(rest).packets);
    }
}

/// How the bytes were cut up under way makes no difference: what a first part
/// amounts to, and then its leftover together with the second part, is what both
/// parts amount to together.
pub proof fn law_cutting_makes_no_difference(first: Seq<u8>, second: Seq<u8>)
    ensures
        ({
            let got = arrivals(first);
            if got.broken {
                &&& arrivals(first + second).broken
                &&& arrivals(first + second).packets == got.packets
            } else {
                arrivals(first + second) == arrivals(got.rest + second).after(got.packets)
            }
        }),
    decreases first.len(),
{
    law_more_bytes(first, second);
    law_read_what_was_written(first);
    match read_packet(first) {
        Ok(packet) => {
            let n = wire(packet).len() as int;
            let later = first.skip(n);
            law_cutting_makes_no_difference(later, second);
            assert((first + second).skip(n) =~= later + second);
            let got = arrivals(later);
            assert(seq![packet] + (got.packets + arrivals(got.rest + second).packets) =~= (
            seq![packet] + got.packets) + arrivals(got.rest + second).packets);
        },
        Err(Fault::Malformed) => {},
        Err(Fault::Truncated) => {
            assert(arrivals(first).packets + arrivals(first + second).packets =~= arrivals(
                first + second,
            ).packets);
        },
    }
}

/// What is handed on, chunk by chunk, of bytes that arrive in chunks.
pub open spec fn in_chunks(chunks: Seq<Seq<u8>>) -> Arrivals
    decreases chunks.len(),
{
    if chunks.len() == 0 {
        Arrivals { packets: Seq::empty(), rest: Seq::empty(), broken: false }
    } else {
        let before = in_chunks(chunks.drop_last());
        if before.broken {
            before
        } else {
            arrivals(before.rest + chunks.last()).after(before.packets)
        }
    }
}

/// The bytes of some chunks.
pub open spec fn whole(chunks: Seq<Seq<u8>>) -> Seq<u8>
    decreases chunks.len(),
{
    if chunks.len() == 0 {
        Seq::empty()
    } else {
        whole(chunks.drop_last()) + chunks.last()
    }
}

/// Nothing at all amounts to nothing.
proof fn lemma_no_arrivals()
    ensures
        arrivals(Seq::empty()) == (Arrivals {
            packets: Seq::empty(),
            rest: Seq::empty(),
            broken: false,
        }),
{
    assert(read_packet(Seq::empty()) == Err::<PacketView, Fault>(Fault::Truncated));
}

/// However many chunks the bytes arrive in, the same packets are handed on as if
/// they had arrived at once, and the connection breaks or goes on all the same.
pub proof fn law_chunks_make_no_difference(chunks: Seq<Seq<u8>>)
    ensures
        in_chunks(chunks).packets == arrivals(whole(chunks)).packets,
        in_chunks(chunks).broken == arrivals(whole(chunks)).broken,
        !in_chunks(chunks).broken ==> in_chunks(chunks).rest == arrivals(whole(chunks)).rest,
    decreases chunks.len(),
{
    if chunks.len() == 0 {
        lemma_no_arrivals();
    } else {
        law_chunks_make_no_difference(chunks.drop_last());
        law_cutting_makes_no_difference(whole(chunks.drop_last()), chunks.last());
    }
}

/// Packets one behind the other are the packets' bytes put together.
pub proof fn law_packets_one_behind_the_other(packets: Seq<PacketView>)
    ensures
        wire_all(packets) == packets.map_values(|packet: PacketView| wire(packet)).flatten(),
    decreases packets.len(),
{
    let parts = packets.map_values(|packet: PacketView| wire(packet));
    if packets.len() > 0 {
        let others = packets.skip(1);
        law_packets_one_behind_the_other(others);
        assert(parts.drop_first() =~= others.map_values(|packet: PacketView| wire(packet)));
    }
}

/// What bytes amount to: where they are packets one behind the other and then
/// something with which no packet begins, those are the packets that arrive, that
/// is what is left, and nothing more can come of it exactly when it is malformed.
pub proof fn law_what_arrives(packets: Seq<PacketView>, rest: Seq<u8>, fault: Fault)
    requires
        forall|i: int| 0 <= i < packets.len() ==> fits(#[trigger] packets[i]),
        read_packet(rest) == Err::<PacketView, Fault>(fault),
    ensures
        ({
            let bytes = packets.map_values(|packet: PacketView| wire(packet)).flatten() + rest;
            &&& arrivals(bytes).packets == packets
            &&& arrivals(bytes).rest == rest
            &&& arrivals(bytes).broken <==> fault == Fault::Malformed
        }),
{
    law_packets_one_behind_the_other(packets);
    law_packets_arrive_in_order(packets, rest);
    assert(packets + arrivals(rest).packets =~= packets);
}

/// No byte is lost: whatever arrives, the packets that were read and the bytes
/// that are left make it up, in that order, and no packet is left unread.
pub proof fn law_no_byte_is_lost(bytes: Seq<u8>)
    ensures
        ({
            let got = arrivals(bytes);
            &&& bytes == got.packets.map_values(|packet: PacketView| wire(packet)).flatten()
                + got.rest
            &&& read_packet(got.rest) is Err
            &&& got.broken <==> read_packet(got.rest) == Err::<PacketView, Fault>(Fault::Malformed)
        }),
    decreases bytes.len(),
{
    let got = arrivals(bytes);
    law_read_what_was_written(bytes);
    law_packets_one_behind_the_other(got.packets);
    if let Ok(packet) = read_packet(bytes) {
        let n = wire(packet).len() as int;
        let later = arrivals(bytes.skip(n));
        law_no_byte_is_lost(bytes.skip(n));
        law_packets_one_behind_the_other(later.packets);
        assert(got.packets.skip(1) =~= later.packets);
        lemma_concat_associates(wire(packet), wire_all(later.packets), later.rest);
        assert(bytes =~= wire(packet) + bytes.skip(n));
    } else {
        assert(wire_all(got.packets) =~= Seq::<u8>::empty());
        assert(bytes =~= wire_all(got.packets) + got.rest);
    }
}

/// What a room is told when the other side is gone: a user that is known has
/// quit, in its own name and addressed to itself; where none is known, the server
/// has quit.
pub proof fn law_farewells(id: Seq<char>)
    ensures
        farewell(Some(id)) == (PacketView { from: id, to: id, content: MessageView::Quit(id) }),
        farewell(None) == (PacketView {
            from: ""@,
            to: ""@,
            content: MessageView::ServerQuit,
        }),
{
}

/// The value of an optional name is that of the name, where there is one.
pub proof fn law_value_of_a_name(id: UserId)
    ensures
        user_view(Some(id)) == Some(id@),
        user_view(None) is None,
{
}

} // verus!

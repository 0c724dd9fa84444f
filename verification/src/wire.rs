//! The wire: packets as bytes.
//!
//! A packet goes over the wire field by field in the format of `bincode`: a
//! string as its length in bytes, in eight bytes, and its UTF-8 encoding; the
//! variant of the message as its tag, in four bytes; numbers with the lowest
//! byte first. There is nothing between two packets.

use vstd::prelude::*;
use vstd::slice::slice_subrange;
use vstd::utf8::{
    decode_utf8, decode_utf8_encode_utf8, encode_utf8, encode_utf8_decode_utf8,
    encode_utf8_valid_utf8, valid_utf8,
};

use crate::bytes::{
    law_bytes_from_the_lowest, law_value_from_the_lowest, le_bytes, le_value, lemma_byte_ranges,
    lemma_le_bytes, lemma_le_value,
};
use crate::packet::{Message, MessageView, Packet, PacketView};
use crate::text::byte_len;

verus! {

/// Why bytes do not begin with what was looked for.
#[derive(Clone, Copy, Debug, PartialEq, Eq)]
pub enum Fault {
    /// They end too early; more bytes may make up for it.
    Truncated,
    /// They stand for nothing, whatever follows.
    Malformed,
}

/// A string on the wire.
pub open spec fn wire_str(s: Seq<char>) -> Seq<u8> {
    le_bytes(encode_utf8(s).len(), 8) + encode_utf8(s)
}

/// A 32-bit number on the wire.
pub open spec fn wire_u32(n: u32) -> Seq<u8> {
    le_bytes(n as nat, 4)
}

/// The string that bytes begin with.
pub open spec fn read_str(bytes: Seq<u8>) -> Result<Seq<char>, Fault> {
    let len = le_value(bytes.take(8));
    if bytes.len() < 8 {
        Err(Fault::Truncated)
    } else if len > usize::MAX {
        Err(Fault::Malformed)
    } else if bytes.len() < 8 + len {
        Err(Fault::Truncated)
    } else if !valid_utf8(bytes.subrange(8, 8 + len as int)) {
        Err(Fault::Malformed)
    } else {
        Ok(decode_utf8(bytes.subrange(8, 8 + len as int)))
    }
}

/// The 32-bit number that bytes begin with.
pub open spec fn read_u32(bytes: Seq<u8>) -> Result<u32, Fault> {
    if bytes.len() < 4 {
        Err(Fault::Truncated)
    } else {
        Ok(le_value(bytes.take(4)) as u32)
    }
}

/// `bincode::serialize` of a string: it succeeds, and gives the length of the
/// string in bytes, in eight bytes with the lowest first, and then its bytes.
#[verifier::external_body]
fn serialize_str(s: &str) -> (bytes: Option<Vec<u8>>)
    ensures
        bytes is Some,
        bytes->0@ == wire_str(s@),
{
    bincode::serialize(s).ok()
}

/// `bincode::serialize` of a 32-bit number: it succeeds, and gives its four
/// bytes, the lowest first.
#[verifier::external_body]
fn serialize_u32(n: u32) -> (bytes: Option<Vec<u8>>)
    ensures
        bytes is Some,
        bytes->0@ == wire_u32(n),
{
    bincode::serialize(&n).ok()
}

/// `bincode::deserialize` of a string: it reads eight bytes as a length and as
/// many bytes of UTF-8 behind them, and pays no heed to what follows. Where the
/// bytes end too early the error is one of input and output; it is another one
/// where the length does not fit in a `usize` or the bytes are no UTF-8.
#[verifier::external_body]
fn deserialize_str(bytes: &[u8]) -> (r: Result<String, Fault>)
    ensures
        match r {
            Ok(s) => read_str(bytes@) == Ok::<Seq<char>, Fault>(s@),
            Err(fault) => read_str(bytes@) == Err::<Seq<char>, Fault>(fault),
        },
{
    match bincode::deserialize::<String>(bytes) {
        Ok(s) => Ok(s),
        Err(e) => match *e {
            bincode::ErrorKind::Io(_) => Err(Fault::Truncated),
            _ => Err(Fault::Malformed),
        },
    }
}

/// `bincode::deserialize` of a 32-bit number: it reads four bytes, the lowest
/// first, and pays no heed to what follows. Where there are fewer the error is
/// one of input and output.
#[verifier::external_body]
fn deserialize_u32(bytes: &[u8]) -> (r: Result<u32, Fault>)
    ensures
        r == read_u32(bytes@),
{
    match bincode::deserialize::<u32>(bytes) {
        Ok(n) => Ok(n),
        Err(e) => match *e {
            bincode::ErrorKind::Io(_) => Err(Fault::Truncated),
            _ => Err(Fault::Malformed),
        },
    }
}

/// The tag of a message: the number of its variant.
pub open spec fn tag(content: MessageView) -> u32 {
    match content {
        MessageView::Text(_) => 0,
        MessageView::NewUser => 1,
        MessageView::Quit(_) => 2,
        MessageView::ServerQuit => 3,
        MessageView::PromptUpdate => 4,
        MessageView::PromptSend(_) => 5,
    }
}

/// Whether messages with a tag carry a string.
pub open spec fn carries_text(tag: u32) -> bool {
    tag == 0 || tag == 2 || tag == 5
}

/// The string that a message carries, where it carries one.
pub open spec fn payload(content: MessageView) -> Seq<char> {
    match content {
        MessageView::Text(text) => text,
        MessageView::Quit(id) => id,
        MessageView::PromptSend(text) => text,
        _ => Seq::empty(),
    }
}

/// The message with a tag, and with the string that it carries.
pub open spec fn message(tag: u32, text: Seq<char>) -> MessageView {
    if tag == 0 {
        MessageView::Text(text)
    } else if tag == 1 {
        MessageView::NewUser
    } else if tag == 2 {
        MessageView::Quit(text)
    } else if tag == 3 {
        MessageView::ServerQuit
    } else if tag == 4 {
        MessageView::PromptUpdate
    } else {
        MessageView::PromptSend(text)
    }
}

/// A message on the wire.
pub open spec fn wire_message(content: MessageView) -> Seq<u8> {
    if carries_text(tag(content)) {
        wire_u32(tag(content)) + wire_str(payload(content))
    } else {
        wire_u32(tag(content))
    }
}

/// A packet on the wire.
pub open spec fn wire(packet: PacketView) -> Seq<u8> {
    wire_str(packet.from) + wire_str(packet.to) + wire_message(packet.content)
}

/// The message that bytes begin with.
pub open spec fn read_message(bytes: Seq<u8>) -> Result<MessageView, Fault> {
    match read_u32(bytes) {
        Err(fault) => Err(fault),
        Ok(tag) => if tag > 5 {
            Err(Fault::Malformed)
        } else if carries_text(tag) {
            match read_str(bytes.skip(4)) {
                Err(fault) => Err(fault),
                Ok(text) => Ok(message(tag, text)),
            }
        } else {
            Ok(message(tag, Seq::empty()))
        },
    }
}

/// The packet that bytes begin with.
pub open spec fn read_packet(bytes: Seq<u8>) -> Result<PacketView, Fault> {
    match read_str(bytes) {
        Err(fault) => Err(fault),
        Ok(from) => {
            let after_from = bytes.skip(wire_str(from).len() as int);
            match read_str(after_from) {
                Err(fault) => Err(fault),
                Ok(to) => {
                    let after_to = after_from.skip(wire_str(to).len() as int);
                    match read_message(after_to) {
                        Err(fault) => Err(fault),
                        Ok(content) => Ok(PacketView { from, to, content }),
                    }
                },
            }
        },
    }
}

/// A string that a machine can hold.
pub open spec fn fits_str(s: Seq<char>) -> bool {
    encode_utf8(s).len() <= usize::MAX
}

/// A packet that a machine can hold.
pub open spec fn fits(packet: PacketView) -> bool {
    fits_str(packet.from) && fits_str(packet.to) && fits_str(payload(packet.content))
}

/// What is read from bytes is what they begin with.
pub proof fn lemma_read_str(bytes: Seq<u8>)
    ensures
        read_str(bytes) matches Ok(s) ==> {
            &&& fits_str(s)
            &&& wire_str(s).len() == 8 + encode_utf8(s).len()
            &&& wire_str(s).len() <= bytes.len()
            &&& bytes.take(wire_str(s).len() as int) == wire_str(s)
        },
{
    if let Ok(s) = read_str(bytes) {
        let len = le_value(bytes.take(8));
        lemma_le_value(bytes.take(8));
        decode_utf8_encode_utf8(bytes.subrange(8, 8 + len as int));
        lemma_le_bytes(encode_utf8(s).len(), 8);
        assert(bytes.take(wire_str(s).len() as int) =~= wire_str(s));
    }
}

/// A string is read back from the wire, whatever follows it.
pub proof fn lemma_wire_str(s: Seq<char>, rest: Seq<u8>)
    requires
        fits_str(s),
    ensures
        wire_str(s).len() == 8 + encode_utf8(s).len(),
        read_str(wire_str(s) + rest) == Ok::<Seq<char>, Fault>(s),
        (wire_str(s) + rest).skip(wire_str(s).len() as int) == rest,
{
    let len = encode_utf8(s).len();
    let bytes = wire_str(s) + rest;
    lemma_byte_ranges();
    lemma_le_bytes(len, 8);
    assert(bytes.take(8) =~= le_bytes(len, 8));
    assert(bytes.subrange(8, 8 + len as int) =~= encode_utf8(s));
    encode_utf8_valid_utf8(s);
    encode_utf8_decode_utf8(s);
    assert(bytes.skip(wire_str(s).len() as int) =~= rest);
}

impl Packet {
    /// The packet as it goes over the wire.
    pub fn encode(&self) -> (bytes: Vec<u8>)
        ensures
            bytes@ == wire(self@),
    {
        let mut bytes: Vec<u8> = serialize_str(self.from.as_str()).unwrap();
        let mut to: Vec<u8> = serialize_str(self.to.as_str()).unwrap();
        bytes.append(&mut to);
        let (tag, text): (u32, Option<&String>) = match &self.content {
            Message::Text(text) => (0, Some(text)),
            Message::NewUser => (1, None),
            Message::Quit(id) => (2, Some(id)),
            Message::ServerQuit => (3, None),
            Message::PromptUpdate => (4, None),
            Message::PromptSend(text) => (5, Some(text)),
        };
        let mut number: Vec<u8> = serialize_u32(tag).unwrap();
        bytes.append(&mut number);
        if let Some(text) = text {
            let mut carried: Vec<u8> = serialize_str(text.as_str()).unwrap();
            bytes.append(&mut carried);
        }
        assert(bytes@ =~= wire(self@));
        bytes
    }

    /// The packet that bytes begin with, and how many of them it takes.
    pub fn decode(bytes: &[u8]) -> (r: Result<(Packet, usize), Fault>)
        ensures
            match r {
                Ok((packet, used)) => {
                    &&& read_packet(bytes@) == Ok::<PacketView, Fault>(packet@)
                    &&& used == wire(packet@).len()
                    &&& used <= bytes@.len()
                },
                Err(fault) => read_packet(bytes@) == Err::<PacketView, Fault>(fault),
            },
    {
        let total: usize = bytes.len();
        let from = match deserialize_str(bytes) {
            Ok(from) => from,
            Err(fault) => {
                return Err(fault);
            },
        };
        proof {
            lemma_read_str(bytes@);
        }
        let mut used: usize = 8 + byte_len(&from);
        let after_from = slice_subrange(bytes, used, total);
        assert(after_from@ =~= bytes@.skip(wire_str(from@).len() as int));
        let to = match deserialize_str(after_from) {
            Ok(to) => to,
            Err(fault) => {
                return Err(fault);
            },
        };
        proof {
            lemma_read_str(after_from@);
        }
        used = used + 8 + byte_len(&to);
        let after_to = slice_subrange(bytes, used, total);
        assert(after_to@ =~= after_from@.skip(wire_str(to@).len() as int));
        let tag: u32 = match deserialize_u32(after_to) {
            Ok(tag) => tag,
            Err(fault) => {
                return Err(fault);
            },
        };
        used = used + 4;
        proof {
            lemma_le_bytes(tag as nat, 4);
        }
        let content = if tag == 1 {
            Message::NewUser
        } else if tag == 3 {
            Message::ServerQuit
        } else if tag == 4 {
            Message::PromptUpdate
        } else if tag > 5 {
            return Err(Fault::Malformed);
        } else {
            let after_tag = slice_subrange(bytes, used, total);
            assert(after_tag@ =~= after_to@.skip(4));
            let text = match deserialize_str(after_tag) {
                Ok(text) => text,
                Err(fault) => {
                    return Err(fault);
                },
            };
            proof {
                lemma_read_str(after_tag@);
            }
            used = used + 8 + byte_len(&text);
            if tag == 0 {
                Message::Text(text)
            } else if tag == 2 {
                Message::Quit(text)
            } else {
                Message::PromptSend(text)
            }
        };
        Ok((Packet { from, to, content }, used))
    }
}

/// The tag of a message and what it carries make up the message.
proof fn lemma_message(content: MessageView)
    ensures
        tag(content) <= 5,
        message(tag(content), payload(content)) == content,
        !carries_text(tag(content)) ==> payload(content) == Seq::<char>::empty(),
{
}

/// The round trip: a packet is read back from the wire as it was written,
/// whatever follows it, and what follows it is left.
pub proof fn law_round_trip(packet: PacketView, rest: Seq<u8>)
    requires
        fits(packet),
    ensures
        read_packet(wire(packet) + rest) == Ok::<PacketView, Fault>(packet),
        (wire(packet) + rest).skip(wire(packet).len() as int) == rest,
{
    let bytes = wire(packet) + rest;
    let content = packet.content;
    let tail = wire_message(content) + rest;
    let middle = wire_str(packet.to) + tail;
    lemma_message(content);
    assert(bytes =~= wire_str(packet.from) + middle);
    lemma_wire_str(packet.from, middle);
    lemma_wire_str(packet.to, tail);
    lemma_byte_ranges();
    lemma_le_bytes(tag(content) as nat, 4);
    assert(tail.take(4) =~= wire_u32(tag(content)));
    if carries_text(tag(content)) {
        lemma_wire_str(payload(content), rest);
        assert(tail.skip(4) =~= wire_str(payload(content)) + rest);
    }
    assert(bytes.skip(wire(packet).len() as int) =~= rest);
}

/// What is read as a packet is what the bytes begin with.
pub proof fn law_read_what_was_written(bytes: Seq<u8>)
    ensures
        read_packet(bytes) matches Ok(packet) ==> {
            &&& fits(packet)
            &&& 20 <= wire(packet).len() <= bytes.len()
            &&& bytes.take(wire(packet).len() as int) == wire(packet)
        },
{
    if let Ok(packet) = read_packet(bytes) {
        lemma_read_str(bytes);
        let after_from = bytes.skip(wire_str(packet.from).len() as int);
        lemma_read_str(after_from);
        let after_to = after_from.skip(wire_str(packet.to).len() as int);
        lemma_le_value(after_to.take(4));
        lemma_byte_ranges();
        lemma_read_str(after_to.skip(4));
        assert(after_to.take(4) =~= wire_u32(tag(packet.content)));
        lemma_le_bytes(tag(packet.content) as nat, 4);
        assert(encode_utf8(Seq::<char>::empty()).len() == 0);
        let taken = bytes.take(wire(packet).len() as int);
        let content = wire_message(packet.content);
        assert(after_to.take(content.len() as int) =~= content) by {
            if carries_text(tag(packet.content)) {
                let carried = wire_str(payload(packet.content));
                assert(after_to.skip(4).take(carried.len() as int) == carried);
                assert(after_to.take(content.len() as int) =~= after_to.take(4)
                    + after_to.skip(4).take(carried.len() as int));
            }
        }
        assert(taken =~= bytes.take(wire_str(packet.from).len() as int) + after_from.take(
            wire_str(packet.to).len() as int,
        ) + after_to.take(content.len() as int));
    }
}

/// Bytes that follow do not change what was read as a string.
proof fn lemma_more_str(bytes: Seq<u8>, more: Seq<u8>)
    ensures
        read_str(bytes) != Err::<Seq<char>, Fault>(Fault::Truncated) ==> read_str(bytes + more)
            == read_str(bytes),
{
    if bytes.len() >= 8 {
        let len = le_value(bytes.take(8));
        assert((bytes + more).take(8) =~= bytes.take(8));
        if bytes.len() >= 8 + len {
            assert((bytes + more).subrange(8, 8 + len as int) =~= bytes.subrange(
                8,
                8 + len as int,
            ));
        }
    }
}

/// What has been read, or found to be malformed, stays so when more bytes
/// arrive: reading does not depend on how the bytes were cut up under way.
pub proof fn law_more_bytes(bytes: Seq<u8>, more: Seq<u8>)
    ensures
        read_packet(bytes) != Err::<PacketView, Fault>(Fault::Truncated) ==> read_packet(
            bytes + more,
        ) == read_packet(bytes),
{
    if read_packet(bytes) != Err::<PacketView, Fault>(Fault::Truncated) {
        lemma_more_str(bytes, more);
        lemma_read_str(bytes);
        if let Ok(from) = read_str(bytes) {
            let n = wire_str(from).len() as int;
            let after_from = bytes.skip(n);
            assert((bytes + more).skip(n) =~= after_from + more);
            lemma_more_str(after_from, more);
            lemma_read_str(after_from);
            if let Ok(to) = read_str(after_from) {
                let m = wire_str(to).len() as int;
                let after_to = after_from.skip(m);
                assert((after_from + more).skip(m) =~= after_to + more);
                assert((after_to + more).take(4) =~= after_to.take(4));
                assert((after_to + more).skip(4) =~= after_to.skip(4) + more);
                lemma_more_str(after_to.skip(4), more);
            }
        }
    }
}

/// A packet that has arrived in part is waited for: short of its last byte, it
/// is neither read nor taken for malformed.
pub proof fn law_part_of_a_packet(packet: PacketView, n: int)
    requires
        fits(packet),
        0 <= n < wire(packet).len(),
    ensures
        read_packet(wire(packet).take(n)) == Err::<PacketView, Fault>(Fault::Truncated),
{
    let part = wire(packet).take(n);
    let rest = wire(packet).skip(n);
    assert(part + rest =~= wire(packet));
    assert(wire(packet) + Seq::<u8>::empty() =~= wire(packet));
    law_round_trip(packet, Seq::empty());
    law_more_bytes(part, rest);
    law_read_what_was_written(part);
}

/// Two packets are never the same on the wire: where a packet stands at the
/// start of some bytes, no other packet does.
pub proof fn law_unambiguous(p: PacketView, after_p: Seq<u8>, q: PacketView, after_q: Seq<u8>)
    requires
        fits(p),
        fits(q),
        wire(p) + after_p == wire(q) + after_q,
    ensures
        p == q,
        after_p == after_q,
{
    law_round_trip(p, after_p);
    law_round_trip(q, after_q);
}

/// A string on the wire byte by byte: its length in eight bytes, the lowest
/// first, and then its UTF-8 encoding, all of it.
pub proof fn law_string_on_the_wire(s: Seq<char>)
    requires
        fits_str(s),
    ensures
        ({
            let n = encode_utf8(s).len() as u64;
            &&& n == encode_utf8(s).len()
            &&& wire_str(s) == seq![
                (n % 0x100) as u8,
                (n / 0x100 % 0x100) as u8,
                (n / 0x1_0000 % 0x100) as u8,
                (n / 0x100_0000 % 0x100) as u8,
                (n / 0x1_0000_0000 % 0x100) as u8,
                (n / 0x100_0000_0000 % 0x100) as u8,
                (n / 0x1_0000_0000_0000 % 0x100) as u8,
                (n / 0x100_0000_0000_0000) as u8,
            ] + encode_utf8(s)
        }),
{
    law_bytes_from_the_lowest(0, encode_utf8(s).len() as u64);
}

/// A 32-bit number on the wire byte by byte: four bytes, the lowest first.
pub proof fn law_number_on_the_wire(n: u32)
    ensures
        wire_u32(n) == seq![
            (n % 0x100) as u8,
            (n / 0x100 % 0x100) as u8,
            (n / 0x1_0000 % 0x100) as u8,
            (n / 0x100_0000) as u8,
        ],
{
    law_bytes_from_the_lowest(n, 0);
}

/// A packet on the wire: the sender, the addressee, four bytes for the kind of
/// message, and the string that the message carries, where it carries one.
pub proof fn law_packet_on_the_wire(packet: PacketView)
    ensures
        wire(packet) == wire_str(packet.from) + wire_str(packet.to) + match packet.content {
            MessageView::Text(text) => seq![0u8, 0u8, 0u8, 0u8] + wire_str(text),
            MessageView::NewUser => seq![1u8, 0u8, 0u8, 0u8],
            MessageView::Quit(id) => seq![2u8, 0u8, 0u8, 0u8] + wire_str(id),
            MessageView::ServerQuit => seq![3u8, 0u8, 0u8, 0u8],
            MessageView::PromptUpdate => seq![4u8, 0u8, 0u8, 0u8],
            MessageView::PromptSend(text) => seq![5u8, 0u8, 0u8, 0u8] + wire_str(text),
        },
{
    law_number_on_the_wire(tag(packet.content));
}

/// Which packets a machine can hold: those whose strings have no more bytes than
/// a `usize` can count.
pub proof fn law_packets_that_fit(packet: PacketView)
    ensures
        fits_str(packet.from) <==> encode_utf8(packet.from).len() <= usize::MAX,
        fits(packet) <==> {
            &&& encode_utf8(packet.from).len() <= usize::MAX
            &&& encode_utf8(packet.to).len() <= usize::MAX
            &&& packet.content matches MessageView::Text(text) ==> encode_utf8(text).len()
                <= usize::MAX
            &&& packet.content matches MessageView::Quit(id) ==> encode_utf8(id).len()
                <= usize::MAX
            &&& packet.content matches MessageView::PromptSend(text) ==> encode_utf8(text).len()
                <= usize::MAX
        },
{
    assert(encode_utf8(Seq::<char>::empty()).len() == 0);
}

/// When a string is read: exactly when the bytes begin with it.
pub proof fn law_when_a_string_is_read(bytes: Seq<u8>, s: Seq<char>)
    ensures
        read_str(bytes) == Ok::<Seq<char>, Fault>(s) <==> fits_str(s) && wire_str(s).is_prefix_of(
            bytes,
        ),
{
    lemma_read_str(bytes);
    let n = wire_str(s).len() as int;
    if fits_str(s) && wire_str(s).is_prefix_of(bytes) {
        lemma_wire_str(s, bytes.skip(n));
        assert(bytes =~= wire_str(s) + bytes.skip(n));
    }
    if read_str(bytes) == Ok::<Seq<char>, Fault>(s) {
        assert(bytes.subrange(0, n) =~= wire_str(s));
    }
}

/// What stands in the way of reading a string: bytes that end before the length
/// does, or before as many bytes as the length says, are waited for; a length
/// that no machine can hold, or bytes that are not UTF-8, are not.
pub proof fn law_why_no_string_is_read(bytes: Seq<u8>)
    ensures
        bytes.len() < 8 ==> read_str(bytes) == Err::<Seq<char>, Fault>(Fault::Truncated),
        bytes.len() >= 8 ==> {
            let len = bytes[0] + 0x100 * bytes[1] + 0x1_0000 * bytes[2] + 0x100_0000 * bytes[3]
                + 0x1_0000_0000 * bytes[4] + 0x100_0000_0000 * bytes[5] + 0x1_0000_0000_0000
                * bytes[6] + 0x100_0000_0000_0000 * bytes[7];
            &&& len > usize::MAX ==> read_str(bytes) == Err::<Seq<char>, Fault>(Fault::Malformed)
            &&& len <= usize::MAX && bytes.len() < 8 + len ==> read_str(bytes) == Err::<
                Seq<char>,
                Fault,
            >(Fault::Truncated)
            &&& len <= usize::MAX && bytes.len() >= 8 + len ==> {
                let body = bytes.subrange(8, 8 + len);
                &&& !valid_utf8(body) ==> read_str(bytes) == Err::<Seq<char>, Fault>(
                    Fault::Malformed,
                )
                &&& valid_utf8(body) ==> read_str(bytes) == Ok::<Seq<char>, Fault>(
                    decode_utf8(body),
                )
            }
        },
{
    if bytes.len() >= 8 {
        law_value_from_the_lowest(bytes.take(8));
    }
}

/// When a number is read: as soon as there are four bytes.
pub proof fn law_when_a_number_is_read(bytes: Seq<u8>)
    ensures
        bytes.len() < 4 ==> read_u32(bytes) == Err::<u32, Fault>(Fault::Truncated),
        bytes.len() >= 4 ==> {
            &&& read_u32(bytes) is Ok
            &&& read_u32(bytes)->Ok_0 == bytes[0] + 0x100 * bytes[1] + 0x1_0000 * bytes[2]
                + 0x100_0000 * bytes[3]
        },
{
    if bytes.len() >= 4 {
        law_value_from_the_lowest(bytes.take(4));
    }
}

/// When a packet is read: exactly when the bytes begin with it.
pub proof fn law_when_a_packet_is_read(bytes: Seq<u8>, packet: PacketView)
    ensures
        read_packet(bytes) == Ok::<PacketView, Fault>(packet) <==> fits(packet) && wire(
            packet,
        ).is_prefix_of(bytes),
{
    law_read_what_was_written(bytes);
    let n = wire(packet).len() as int;
    if fits(packet) && wire(packet).is_prefix_of(bytes) {
        law_round_trip(packet, bytes.skip(n));
        assert(bytes =~= wire(packet) + bytes.skip(n));
    }
    if read_packet(bytes) == Ok::<PacketView, Fault>(packet) {
        assert(bytes.subrange(0, n) =~= wire(packet));
    }
}

/// What stands in the way of reading a packet: what stands in the way of reading
/// its sender, then its addressee, then the four bytes for the kind of message,
/// which must be one that there is, and then the string that it carries.
pub proof fn law_why_no_packet_is_read(
    from: Seq<char>,
    to: Seq<char>,
    rest: Seq<u8>,
    fault: Fault,
)
    requires
        fits_str(from),
        fits_str(to),
    ensures
        read_str(rest) == Err::<Seq<char>, Fault>(fault) ==> {
            &&& read_packet(rest) == Err::<PacketView, Fault>(fault)
            &&& read_packet(wire_str(from) + rest) == Err::<PacketView, Fault>(fault)
        },
        rest.len() < 4 ==> read_packet(wire_str(from) + (wire_str(to) + rest)) == Err::<
            PacketView,
            Fault,
        >(Fault::Truncated),
        rest.len() >= 4 ==> {
            let kind = rest[0] + 0x100 * rest[1] + 0x1_0000 * rest[2] + 0x100_0000 * rest[3];
            &&& kind > 5 ==> read_packet(wire_str(from) + (wire_str(to) + rest)) == Err::<
                PacketView,
                Fault,
            >(Fault::Malformed)
            &&& (kind == 0 || kind == 2 || kind == 5) && read_str(rest.skip(4)) == Err::<
                Seq<char>,
                Fault,
            >(fault) ==> read_packet(wire_str(from) + (wire_str(to) + rest)) == Err::<
                PacketView,
                Fault,
            >(fault)
        },
{
    lemma_wire_str(from, rest);
    lemma_wire_str(from, wire_str(to) + rest);
    lemma_wire_str(to, rest);
    law_when_a_number_is_read(rest);
}

} // verus!

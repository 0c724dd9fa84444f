//! What holds of the program as a whole.

use vstd::prelude::*;

use crate::keys::{prompt_send, prompt_update, Key, KeyOutcomeView};
use crate::packet::{MessageView, PacketView};
use crate::prompt_laws::{after_typing, law_what_is_typed_is_sent, typable};
use crate::room::{law_round_of_a_text, memory, reaction, typed, RoomActionView};
use crate::stream::{arrivals, law_packets_arrive_in_order, wire_all, Arrivals};
use crate::terminal::packet_ops;
use crate::text::trimmed;
use crate::wire::{fits, wire};

verus! {

/// A single packet on the wire arrives as it was written.
proof fn lemma_packet_arrives(packet: PacketView)
    requires
        fits(packet),
    ensures
        arrivals(wire(packet)) == (Arrivals {
            packets: seq![packet],
            rest: Seq::empty(),
            broken: false,
        }),
{
    let one = seq![packet];
    let nothing = Seq::<u8>::empty();
    law_packets_arrive_in_order(one, nothing);
    assert(one.skip(1) =~= Seq::empty());
    reveal_with_fuel(wire_all, 2);
    assert(wire_all(one) + nothing =~= wire(packet));
    assert(arrivals(nothing).packets =~= Seq::empty());
    assert(one + arrivals(nothing).packets =~= one);
}

/// From the keys to the screens: a text that is typed into the empty prompt of a
/// client and sent with `Tab` goes over the wire to the server, which shows it,
/// remembers it and sends it over the wire to the clients, and each of them
/// shows it: under the name of its author, in its own lines, and without the
/// white space at its end.
pub proof fn law_from_the_keys_to_the_screens(
    author: Seq<char>,
    reader: Seq<char>,
    text: Seq<char>,
)
    requires
        typable(text),
        fits(typed(Some(author), trimmed(text))),
    ensures
        ({
            let packet = typed(Some(author), trimmed(text));
            let shown = RoomActionView::Show(packet_ops(packet));
            let arrived = Arrivals { packets: seq![packet], rest: Seq::empty(), broken: false };
            // At the author's keyboard.
            &&& after_typing(text).outcome(Key::Tab) == KeyOutcomeView::Post(
                seq![prompt_send(trimmed(text)), prompt_update()],
            )
            // In the author's room.
            &&& reaction(Some(author), prompt_send(trimmed(text))) == seq![
                RoomActionView::Send(packet),
            ]
            &&& reaction(Some(author), prompt_update()) == Seq::<RoomActionView>::empty()
            // On the way to the server, and on the way from there.
            &&& arrivals(wire(packet)) == arrived
            // In the server's room.
            &&& reaction(None, packet) == seq![
                shown,
                RoomActionView::Flush,
                RoomActionView::Send(packet),
            ]
            &&& memory(None, packet) == seq![packet]
            // In the reader's room.
            &&& reaction(Some(reader), packet) == seq![shown, RoomActionView::Flush]
            // What the packet says.
            &&& packet.from == author
            &&& packet.content == MessageView::Text(trimmed(text))
        }),
{
    law_what_is_typed_is_sent(text);
    law_round_of_a_text(author, reader, trimmed(text));
    lemma_packet_arrives(typed(Some(author), trimmed(text)));
}

} // verus!

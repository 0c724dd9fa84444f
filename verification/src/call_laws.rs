//! What calls of the library come to, told by what goes into them and what comes
//! out.
//!
//! Each law takes the arguments and the result of a call, or of several calls
//! one after the other, and says how they hang together.

use vstd::prelude::*;
use vstd::utf8::{decode_utf8, encode_utf8, valid_utf8};

use crate::args::{
    law_command_line_of_a_client, law_command_line_of_a_server, law_command_line_that_is_too_short,
    parse_args, ArgsError, Mode,
};
use crate::connection::{
    law_frame_byte_by_byte, law_side_of_the_client, law_side_of_the_server, Connection,
    HandshakeAction, HandshakeEvent, StageView,
};
use crate::keys::{Key, KeyOutcome};
use crate::packet::{packet_views, Message, MessageView, Packet, PacketView, UserId};
use crate::prompt::Prompt;
use crate::prompt_laws::{
    law_backspace_takes_out_what_is_before_the_cursor, law_enter_cuts_the_line_at_the_cursor,
    law_typed_character_stands_at_the_cursor, law_what_stands_in_the_lines_is_sent,
    law_where_the_arrows_lead,
};
use crate::room::{
    action_views, law_what_a_client_does, law_what_a_server_does, Room, RoomAction, RoomActionView,
};
use crate::screen_laws::{
    column, law_cursor_stands_where_typing_goes_on, law_prompt_is_drawn_line_by_line,
    law_what_is_written_is_the_text, written,
};
use crate::stream::{arrivals, law_no_byte_is_lost, law_what_arrives, Received, Receiver};
use crate::terminal::{op_views, packet_ops, print, TermOp, TermOpView};
use crate::text::{law_views, split_lines, views};
use crate::wire::{
    fits, law_packet_on_the_wire, law_read_what_was_written, law_round_trip,
    law_when_a_packet_is_read, read_packet, wire, wire_str, Fault,
};

verus! {

/// The packets that a program makes: a text with no particular sender or
/// addressee, and the two notes of the prompt, which have none at all.
pub proof fn law_calls_that_make_packets(text: &str, a: Packet, b: Packet, c: Packet)
    requires
        call_ensures(Packet::new_text, (text,), a),
        call_ensures(Packet::new_prompt_update, (), b),
        call_ensures(Packet::new_prompt_send, (text,), c),
    ensures
        a.from@ == "n/a"@ && a.to@ == "n/a"@,
        a.content@ == MessageView::Text(text@),
        b.from@ == ""@ && b.to@ == ""@,
        b.content@ == MessageView::PromptUpdate,
        c.from@ == ""@ && c.to@ == ""@,
        c.content@ == MessageView::PromptSend(text@),
{
}

/// A copy is what it was made of.
pub proof fn law_calls_that_copy(packet: Packet, copy: Packet, message: Message, same: Message)
    requires
        call_ensures(Packet::clone, (&packet,), copy),
        call_ensures(Message::clone, (&message,), same),
    ensures
        copy == packet,
        same == message,
{
}

/// What is encoded is the sender, the addressee, the kind of message in four
/// bytes, and the string that the message carries.
pub proof fn law_call_of_encode(packet: Packet, bytes: Vec<u8>)
    requires
        call_ensures(Packet::encode, (&packet,), bytes),
    ensures
        bytes@ == wire_str(packet.from@) + wire_str(packet.to@) + match packet.content {
            Message::Text(text) => seq![0u8, 0u8, 0u8, 0u8] + wire_str(text@),
            Message::NewUser => seq![1u8, 0u8, 0u8, 0u8],
            Message::Quit(id) => seq![2u8, 0u8, 0u8, 0u8] + wire_str(id@),
            Message::ServerQuit => seq![3u8, 0u8, 0u8, 0u8],
            Message::PromptUpdate => seq![4u8, 0u8, 0u8, 0u8],
            Message::PromptSend(text) => seq![5u8, 0u8, 0u8, 0u8] + wire_str(text@),
        },
{
    law_packet_on_the_wire(packet@);
}

/// What was encoded is decoded again, whatever follows it, and as many bytes are
/// used as there were.
pub proof fn law_decode_undoes_encode(
    packet: Packet,
    bytes: Vec<u8>,
    rest: Seq<u8>,
    arrived: &[u8],
    r: Result<(Packet, usize), Fault>,
)
    requires
        fits(packet@),
        call_ensures(Packet::encode, (&packet,), bytes),
        arrived@ == bytes@ + rest,
        call_ensures(Packet::decode, (arrived,), r),
    ensures
        r is Ok,
        r->Ok_0.0@ == packet@,
        r->Ok_0.1 == bytes@.len(),
{
    law_round_trip(packet@, rest);
}

/// What is decoded is what the bytes begin with; where nothing is decoded, they
/// begin with no packet.
pub proof fn law_call_of_decode(bytes: &[u8], r: Result<(Packet, usize), Fault>, other: PacketView)
    requires
        call_ensures(Packet::decode, (bytes,), r),
    ensures
        match r {
            Ok((packet, used)) => {
                &&& used <= bytes@.len()
                &&& bytes@.take(used as int) == wire(packet@)
            },
            Err(fault) => {
                &&& read_packet(bytes@) == Err::<PacketView, Fault>(fault)
                &&& !(fits(other) && wire(other).is_prefix_of(bytes@))
            },
        },
{
    law_read_what_was_written(bytes@);
    law_when_a_packet_is_read(bytes@, other);
}

/// Reading a command line with "--client" in it: the argument behind the first
/// "--client" is the address and the one behind the first "--name" is the name.
pub proof fn law_call_of_parse_args_for_a_client(
    args: &Vec<String>,
    client: int,
    name: int,
    r: Result<Mode, ArgsError>,
)
    requires
        args@.len() > 1,
        0 <= client < args@.len(),
        args@[client]@ == "--client"@,
        forall|i: int| 0 <= i < client ==> (#[trigger] args@[i])@ != "--client"@,
        0 <= name <= args@.len(),
        name < args@.len() ==> args@[name]@ == "--name"@,
        forall|i: int| 0 <= i < name ==> (#[trigger] args@[i])@ != "--name"@,
        call_ensures(parse_args, (args,), r),
    ensures
        client == args@.len() - 1 ==> r == Err::<Mode, ArgsError>(ArgsError::ClientWithoutAddress),
        client < args@.len() - 1 && name == args@.len() ==> r == Err::<Mode, ArgsError>(
            ArgsError::MissingName,
        ),
        client < args@.len() - 1 && name == args@.len() - 1 ==> r == Err::<Mode, ArgsError>(
            ArgsError::NameWithoutValue,
        ),
        client < args@.len() - 1 && name < args@.len() - 1 ==> {
            &&& r is Ok
            &&& r->Ok_0 is Client
            &&& r->Ok_0->Client_addr@ == args@[client + 1]@
            &&& r->Ok_0->name@ == args@[name + 1]@
        },
{
    let list = views(args@);
    law_views(args@);
    assert(list.len() == args@.len());
    assert forall|i: int| 0 <= i < client implies #[trigger] list[i] != "--client"@ by {
        assert(list[i] == args@[i]@);
    }
    assert forall|i: int| 0 <= i < name implies #[trigger] list[i] != "--name"@ by {
        assert(list[i] == args@[i]@);
    }
    assert(list[client] == args@[client]@);
    if name < args@.len() {
        assert(list[name] == args@[name]@);
    }
    law_command_line_of_a_client(list, client, name);
}

/// Reading a command line without "--client" in it: a server is asked for where
/// "--server" is there, and nothing that is known where it is not. A command line
/// with nothing behind the name of the program is too short.
pub proof fn law_call_of_parse_args_for_a_server(args: &Vec<String>, r: Result<Mode, ArgsError>)
    requires
        forall|i: int| 0 <= i < args@.len() ==> (#[trigger] args@[i])@ != "--client"@,
        call_ensures(parse_args, (args,), r),
    ensures
        args@.len() <= 1 ==> r == Err::<Mode, ArgsError>(ArgsError::TooFew),
        args@.len() > 1 && (exists|i: int|
            0 <= i < args@.len() && (#[trigger] args@[i])@ == "--server"@) ==> {
            &&& r is Ok
            &&& r->Ok_0 is Server
            &&& r->Ok_0->Server_addr@ == "127.0.0.1:1234"@
        },
        args@.len() > 1 && (forall|i: int|
            0 <= i < args@.len() ==> (#[trigger] args@[i])@ != "--server"@) ==> r == Err::<
            Mode,
            ArgsError,
        >(ArgsError::MissingMode),
{
    let list = views(args@);
    law_views(args@);
    assert forall|i: int| 0 <= i < list.len() implies #[trigger] list[i] != "--client"@ by {
        assert(list[i] == args@[i]@);
    }
    if args@.len() <= 1 {
        law_command_line_that_is_too_short(list);
    } else {
        law_command_line_of_a_server(list);
        if exists|i: int| 0 <= i < args@.len() && (#[trigger] args@[i])@ == "--server"@ {
            let i = choose|i: int| 0 <= i < args@.len() && (#[trigger] args@[i])@ == "--server"@;
            assert(list[i] == "--server"@);
        } else {
            assert forall|i: int| 0 <= i < list.len() implies #[trigger] list[i]
                != "--server"@ by {
                assert(list[i] == args@[i]@);
            }
        }
    }
}

/// What the user is told about a command line.
pub proof fn law_call_of_message(error: ArgsError, text: String)
    requires
        call_ensures(ArgsError::message, (error,), text),
    ensures
        text@ == match error {
            ArgsError::TooFew => "Not enough arguments"@,
            ArgsError::ClientWithoutAddress => "--client requires an argument after"@,
            ArgsError::NameWithoutValue => "--name requires an argument after"@,
            ArgsError::MissingName => "Missing --name argument"@,
            ArgsError::MissingMode => "Missing --client or --server argument"@,
        },
{
}

/// Printing a text writes its author in brackets and its lines, all but the first
/// behind blanks, each with a newline at its end.
pub proof fn law_call_of_print(packet: &Packet, text: String, ops: Vec<TermOp>)
    requires
        packet.content == Message::Text(text),
        call_ensures(print, (packet,), ops),
    ensures
        ({
            let lines = split_lines(text@);
            let pad = Seq::new(encode_utf8(packet.from@).len() + 3, |i: int| ' ');
            written(op_views(ops@)) == "["@ + packet.from@ + "] "@ + Seq::new(
                lines.len(),
                |i: int|
                    if i == 0 {
                        lines[i].push('\n')
                    } else {
                        pad + lines[i].push('\n')
                    },
            ).flatten()
        }),
{
    law_what_is_written_is_the_text(packet@, text@);
}

/// Printing a text, command by command.
pub proof fn law_call_of_print_command_by_command(packet: &Packet, ops: Vec<TermOp>)
    requires
        call_ensures(print, (packet,), ops),
    ensures
        op_views(ops@) == packet_ops(packet@),
        packet.content is NewUser ==> ops@.len() == 8,
        !(packet.content is NewUser) && !(packet.content is Text) ==> ops@.len() == 0,
{
    assert(op_views(ops@).len() == ops@.len());
}

/// A new prompt, and one that was cleared, has one line with nothing in it, and
/// the cursor before it.
pub proof fn law_calls_that_empty_a_prompt(made: Prompt, cleared: &mut Prompt)
    requires
        call_ensures(Prompt::new, (), made),
        call_ensures(Prompt::clear, (cleared,), ()),
    ensures
        made@.lines.len() == 1 && made@.lines[0].len() == 0,
        made@.row == 0 && made@.col == 0,
        final(cleared)@.lines.len() == 1 && final(cleared)@.lines[0].len() == 0,
        final(cleared)@.row == 0 && final(cleared)@.col == 0,
{
}

/// What a prompt hands out to be sent are its lines, each with a newline behind
/// it, up to the last character that is no white space.
pub proof fn law_call_of_text(prompt: &Prompt, text: String)
    requires
        call_ensures(Prompt::text, (prompt,), text),
    ensures
        ({
            let all = prompt@.lines.map_values(|line: Seq<char>| line.push('\n')).flatten();
            &&& text@.len() <= all.len()
            &&& text@ == all.take(text@.len() as int)
            &&& text@.len() > 0 ==> {
                let end = text@[text@.len() - 1];
                end != ' ' && end != '\t' && end != '\n' && end != '\u{b}' && end != '\u{c}'
                    && end != '\r'
            }
            &&& forall|i: int|
                text@.len() <= i < all.len() ==> {
                    ||| #[trigger] all[i] == ' '
                    ||| all[i] == '\t'
                    ||| all[i] == '\n'
                    ||| all[i] == '\u{b}'
                    ||| all[i] == '\u{c}'
                    ||| all[i] == '\r'
                }
        }),
{
    law_what_stands_in_the_lines_is_sent(prompt@);
}

/// The cursor is on the line being edited, at the column asked for or at the end
/// of the line, whichever comes first; of the length of the line, the lower 16
/// bits count.
pub proof fn law_call_of_cursor(prompt: &Prompt, cursor: (u16, u16))
    requires
        call_ensures(Prompt::cursor, (prompt,), cursor),
    ensures
        cursor.0 as int == if prompt@.col <= prompt@.lines[prompt@.row].len() as int % 65536 {
            prompt@.col
        } else {
            prompt@.lines[prompt@.row].len() as int % 65536
        },
        cursor.1 == prompt@.row,
{
}

/// After the prompt has been drawn, the terminal's cursor is as far behind the
/// label as the prompt's cursor is into its line; and the way back leads over the
/// lines above and the rule.
pub proof fn law_calls_that_draw(
    prompt: &Prompt,
    cursor: (u16, u16),
    drawn: Vec<TermOp>,
    back: Vec<TermOp>,
)
    requires
        prompt.wf(),
        call_ensures(Prompt::cursor, (prompt,), cursor),
        call_ensures(Prompt::print, (prompt,), drawn),
        call_ensures(Prompt::rewind, (prompt,), back),
    ensures
        column(op_views(drawn@)) == ("message "@ + "|"@).len() + cursor.0,
        op_views(back@) == seq![TermOpView::PreviousLine(cursor.1 + 1)],
{
    law_cursor_stands_where_typing_goes_on(prompt@);
}

/// The prompt is drawn line by line, whole and in order.
pub proof fn law_call_of_prompt_print(prompt: &Prompt, drawn: Vec<TermOp>)
    requires
        call_ensures(Prompt::print, (prompt,), drawn),
    ensures
        ({
            let lines = prompt@.lines;
            op_views(drawn@) == seq![
                TermOpView::Column(0),
                TermOpView::Print(Seq::new(30, |i: int| '—')),
                TermOpView::ClearToLineEnd,
                TermOpView::Print("\n"@),
                TermOpView::Column(0),
            ] + Seq::new(
                lines.len(),
                |i: int|
                    seq![
                        TermOpView::Print(
                            if i == 0 {
                                "message "@
                            } else {
                                "        "@
                            },
                        ),
                        TermOpView::Print("|"@),
                        TermOpView::Print(lines[i]),
                        TermOpView::ClearToLineEnd,
                        TermOpView::Print("\n"@),
                        TermOpView::Column(0),
                    ],
            ).flatten() + seq![
                TermOpView::ClearBelow,
                TermOpView::PreviousLine(lines.len() as int % 65536 - prompt@.row),
                TermOpView::Column(9 + prompt@.at()),
                TermOpView::Flush,
            ]
        }),
{
    law_prompt_is_drawn_line_by_line(prompt@);
}

/// Typing a character puts it where the cursor is.
pub proof fn law_call_of_put_char(prompt: &mut Prompt, ch: char)
    requires
        old(prompt).wf(),
        call_ensures(Prompt::put_char, (prompt, ch), ()),
    ensures
        ({
            let p = old(prompt)@;
            let q = final(prompt)@;
            if ch as int <= 127 {
                let line = p.lines[p.row];
                &&& q.lines.len() == p.lines.len()
                &&& q.lines[p.row] == line.take(p.at()) + seq![ch] + line.skip(p.at())
                &&& forall|i: int|
                    0 <= i < p.lines.len() && i != p.row ==> #[trigger] q.lines[i] == p.lines[i]
                &&& q.row == p.row
                &&& q.col == p.at() + 1
            } else {
                q == p
            }
        }),
{
    law_typed_character_stands_at_the_cursor(old(prompt)@, ch);
}

/// Backspace takes out what stands before the cursor, a character or a line break.
pub proof fn law_call_of_backspace(prompt: &mut Prompt)
    requires
        old(prompt).wf(),
        call_ensures(Prompt::backspace, (prompt,), ()),
    ensures
        ({
            let p = old(prompt)@;
            let q = final(prompt)@;
            if p.at() > 0 {
                let line = p.lines[p.row];
                &&& q.lines.len() == p.lines.len()
                &&& q.lines[p.row] == line.take(p.at() - 1) + line.skip(p.at())
                &&& forall|i: int|
                    0 <= i < p.lines.len() && i != p.row ==> #[trigger] q.lines[i] == p.lines[i]
                &&& q.row == p.row
                &&& q.col == p.col - 1
            } else if p.row > 0 {
                &&& q.lines == p.lines.take(p.row - 1) + seq![
                    p.lines[p.row - 1] + p.lines[p.row],
                ] + p.lines.skip(p.row + 1)
                &&& q.row == p.row - 1
                &&& q.col == p.lines[p.row - 1].len() as int % 65536
            } else {
                q == p
            }
        }),
{
    law_backspace_takes_out_what_is_before_the_cursor(old(prompt)@);
}

/// A new line cuts the line in two at the cursor.
pub proof fn law_call_of_newline(prompt: &mut Prompt)
    requires
        old(prompt).wf(),
        call_ensures(Prompt::newline, (prompt,), ()),
    ensures
        ({
            let p = old(prompt)@;
            let q = final(prompt)@;
            &&& q.lines == p.lines.take(p.row) + seq![
                p.lines[p.row].take(p.at()),
                p.lines[p.row].skip(p.at()),
            ] + p.lines.skip(p.row + 1)
            &&& q.row == p.row + 1
            &&& q.col == 0
        }),
{
    law_enter_cuts_the_line_at_the_cursor(old(prompt)@);
}

/// The arrows leave the text as it is. Left and right go by one character and
/// over the ends of the lines.
pub proof fn law_calls_that_move_sideways(left: &mut Prompt, right: &mut Prompt)
    requires
        old(left).wf(),
        old(right).wf(),
        call_ensures(Prompt::move_cursor_left, (left,), ()),
        call_ensures(Prompt::move_cursor_right, (right,), ()),
    ensures
        ({
            let p = old(left)@;
            let q = final(left)@;
            &&& q.lines == p.lines
            &&& p.at() > 0 ==> q.row == p.row && q.col == p.at() - 1
            &&& p.at() == 0 && p.row > 0 ==> q.row == p.row - 1 && q.col
                == p.lines[p.row - 1].len() as int % 65536
            &&& p.at() == 0 && p.row == 0 ==> q.row == 0 && q.col == 0
        }),
        ({
            let p = old(right)@;
            let q = final(right)@;
            let width = p.lines[p.row].len() as int % 65536;
            let height = p.lines.len() as int % 65536;
            &&& q.lines == p.lines
            &&& p.at() < width ==> q.row == p.row && q.col == p.at() + 1
            &&& p.at() == width && p.row + 1 < height ==> q.row == p.row + 1 && q.col == 0
            &&& p.at() == width && p.row + 1 >= height ==> q.row == p.row && q.col == p.col + 1
        }),
{
    law_where_the_arrows_lead(old(left)@);
    law_where_the_arrows_lead(old(right)@);
}

/// Up and down go by one line, within the prompt, and keep the column asked for.
pub proof fn law_calls_that_move_up_and_down(up: &mut Prompt, down: &mut Prompt)
    requires
        old(up).wf(),
        old(down).wf(),
        call_ensures(Prompt::move_cursor_up, (up,), ()),
        call_ensures(Prompt::move_cursor_down, (down,), ()),
    ensures
        ({
            let p = old(up)@;
            let q = final(up)@;
            &&& q.lines == p.lines
            &&& q.col == p.col
            &&& p.row > 0 ==> q.row == p.row - 1
            &&& p.row == 0 ==> q.row == 0
        }),
        ({
            let p = old(down)@;
            let q = final(down)@;
            let height = p.lines.len() as int % 65536;
            &&& q.lines == p.lines
            &&& q.col == p.col
            &&& p.row + 1 < height ==> q.row == p.row + 1
            &&& p.row + 1 >= height ==> q.row == height - 1
        }),
{
    law_where_the_arrows_lead(old(up)@);
    law_where_the_arrows_lead(old(down)@);
}

/// A key press does what the operation for that key does, and posts the note that
/// the prompt has changed; `Tab` posts what was typed before that, and empties the
/// prompt; `Esc` leaves.
pub proof fn law_call_of_handle_key(prompt: &mut Prompt, key: Key, outcome: KeyOutcome)
    requires
        call_ensures(Prompt::handle_key, (prompt, key), outcome),
    ensures
        ({
            let p = old(prompt)@;
            let q = final(prompt)@;
            let update = PacketView { from: ""@, to: ""@, content: MessageView::PromptUpdate };
            let send = PacketView {
                from: ""@,
                to: ""@,
                content: MessageView::PromptSend(p.content()),
            };
            &&& key is Esc <==> outcome is Exit
            &&& outcome matches KeyOutcome::Post(packets) ==> packet_views(packets@)
                == if key is Tab {
                seq![send, update]
            } else {
                seq![update]
            }
            &&& match key {
                Key::Char(ch) => q == p.put(ch),
                Key::Tab => q.lines == seq![Seq::<char>::empty()] && q.row == 0 && q.col == 0,
                Key::Enter => q == p.broken(),
                Key::Backspace => q == p.erased(),
                Key::Up => q == p.up(),
                Key::Down => q == p.down(),
                Key::Right => q == p.right(),
                Key::Left => q == p.left(),
                Key::Esc => q == p,
                Key::Other => q == p,
            }
        }),
{
}

/// What a prompt says that it accepts is what it can take, and what it says that
/// it can draw is what it can draw.
pub proof fn law_calls_that_ask_a_prompt(
    prompt: &Prompt,
    key: Key,
    takes: bool,
    drawable: bool,
)
    requires
        call_ensures(Prompt::accepts, (prompt, key), takes),
        call_ensures(Prompt::drawable, (prompt,), drawable),
    ensures
        prompt.wf() <==> prompt@.wf(),
        takes <==> match key {
            Key::Char(ch) => ch as int <= 127 ==> prompt@.at() < 65535,
            Key::Enter => prompt@.row < 65535,
            Key::Down => prompt@.row < 65535 && prompt@.lines.len() % 65536 != 0,
            Key::Right => {
                let at_end = prompt@.at() == prompt@.lines[prompt@.row].len() % 65536;
                let below = prompt@.row < prompt@.lines.len() % 65536 - 1;
                &&& at_end ==> prompt@.lines.len() % 65536 != 0
                &&& at_end && below || prompt@.col < 65535
            },
            _ => true,
        },
        drawable <==> prompt@.row <= prompt@.lines.len() as int % 65536 && prompt@.at() <= 65526
            && prompt@.row < 65535,
{
}

/// What can be asked of a prompt that is in order: all of it, short of a 16-bit
/// number that is too small.
pub proof fn law_what_can_be_asked_of_a_prompt(prompt: &mut Prompt, ch: char)
    requires
        old(prompt).wf(),
        old(prompt)@.lines.len() < 65535,
        old(prompt)@.col < 65535,
        old(prompt)@.at() <= 65526,
    ensures
        call_requires(Prompt::put_char, (prompt, ch)),
        call_requires(Prompt::backspace, (prompt,)),
        call_requires(Prompt::newline, (prompt,)),
        call_requires(Prompt::move_cursor_left, (prompt,)),
        call_requires(Prompt::move_cursor_right, (prompt,)),
        call_requires(Prompt::move_cursor_up, (prompt,)),
        call_requires(Prompt::move_cursor_down, (prompt,)),
        call_requires(Prompt::handle_key, (prompt, Key::Char(ch))),
        call_requires(Prompt::handle_key, (prompt, Key::Enter)),
        call_requires(Prompt::handle_key, (prompt, Key::Tab)),
        call_requires(Prompt::text, (&*old(prompt),)),
        call_requires(Prompt::print, (&*old(prompt),)),
        call_requires(Prompt::rewind, (&*old(prompt),)),
{
}

/// The handshake of a client, call by call, whatever the server says: it waits for
/// four bytes, then for as many as they say, answers with its name in a frame, and
/// is done; and the connection is then its own.
pub proof fn law_handshake_calls_of_a_client<S>(
    made: Connection<S>,
    conn: &mut Connection<S>,
    name: UserId,
    header: [u8; 4],
    hello: Vec<u8>,
    event: HandshakeEvent,
    action: HandshakeAction,
)
    requires
        call_ensures(Connection::<S>::new, (), made),
        call_ensures(Connection::<S>::handshake, (conn, event), action),
    ensures
        made.stage() == StageView::Idle && made.user() is None && made.outbox() is None,
        final(conn).outbox() == old(conn).outbox(),
        old(conn).stage() == StageView::Idle && event == HandshakeEvent::Begin(Some(name)) ==> {
            &&& action is ReceiveLength
            &&& final(conn).stage() == StageView::ClientLength(name@)
            &&& final(conn).user() == old(conn).user()
        },
        old(conn).stage() == StageView::ClientLength(name@) && event == HandshakeEvent::Length(
            header,
        ) ==> {
            &&& action is ReceiveBody
            &&& action->ReceiveBody_0 == 0x100_0000 * header[0] + 0x1_0000 * header[1] + 0x100
                * header[2] + header[3]
            &&& final(conn).stage() == StageView::ClientBody(name@)
            &&& final(conn).user() == old(conn).user()
        },
        old(conn).stage() == StageView::ClientBody(name@) && event == HandshakeEvent::Body(
            hello,
        ) ==> {
            let n = (encode_utf8(name@).len() % 0x1_0000_0000) as u32;
            &&& action is Send
            &&& action->Send_0@ == seq![
                (n / 0x100_0000) as u8,
                (n / 0x1_0000 % 0x100) as u8,
                (n / 0x100 % 0x100) as u8,
                (n % 0x100) as u8,
            ] + encode_utf8(name@)
            &&& final(conn).stage() == StageView::ClientReply(name@)
            &&& final(conn).user() == old(conn).user()
        },
        old(conn).stage() == StageView::ClientReply(name@) && event == HandshakeEvent::Sent ==> {
            &&& action is Finish
            &&& action->Finish_0@ == name@
            &&& final(conn).stage() == StageView::Over
            &&& final(conn).user() == Some(name@)
        },
{
    law_side_of_the_client(name@, header@, hello@, old(conn).user());
    law_frame_byte_by_byte(encode_utf8(name@));
}

/// The handshake of a server, call by call, whatever the client says: it says
/// hello, waits for four bytes, then for as many as they say, and takes those for
/// the client's name, if they are UTF-8. The connection belongs to nobody.
pub proof fn law_handshake_calls_of_a_server<S>(
    made: Connection<S>,
    conn: &mut Connection<S>,
    header: [u8; 4],
    answer: Vec<u8>,
    event: HandshakeEvent,
    action: HandshakeAction,
)
    requires
        call_ensures(Connection::<S>::new, (), made),
        call_ensures(Connection::<S>::handshake, (conn, event), action),
    ensures
        made.stage() == StageView::Idle && made.user() is None && made.outbox() is None,
        final(conn).outbox() == old(conn).outbox(),
        old(conn).stage() == StageView::Idle && event == HandshakeEvent::Begin(None) ==> {
            &&& action is Send
            &&& action->Send_0@ == seq![0u8, 0u8, 0u8, 13u8] + encode_utf8("chat-room 1.0"@)
            &&& final(conn).stage() == StageView::ServerWelcome
            &&& final(conn).user() == old(conn).user()
        },
        old(conn).stage() == StageView::ServerWelcome && event == HandshakeEvent::Sent ==> {
            &&& action is ReceiveLength
            &&& final(conn).stage() == StageView::ServerLength
            &&& final(conn).user() == old(conn).user()
        },
        old(conn).stage() == StageView::ServerLength && event == HandshakeEvent::Length(
            header,
        ) ==> {
            &&& action is ReceiveBody
            &&& action->ReceiveBody_0 == 0x100_0000 * header[0] + 0x1_0000 * header[1] + 0x100
                * header[2] + header[3]
            &&& final(conn).stage() == StageView::ServerBody
            &&& final(conn).user() == old(conn).user()
        },
        old(conn).stage() == StageView::ServerBody && event == HandshakeEvent::Body(answer) ==> {
            &&& valid_utf8(answer@) ==> action is Finish && action->Finish_0@ == decode_utf8(
                answer@,
            )
            &&& !valid_utf8(answer@) ==> action is Reject
            &&& final(conn).stage() == StageView::Over
            &&& final(conn).user() == old(conn).user()
        },
{
    law_side_of_the_server(header@, answer@, old(conn).user());
}

/// A connection waits for what its stage of the handshake calls for.
pub proof fn law_call_of_awaits<S>(conn: &Connection<S>, event: &HandshakeEvent, r: bool)
    requires
        call_ensures(Connection::<S>::awaits, (conn, event), r),
    ensures
        r <==> match event {
            HandshakeEvent::Begin(_) => conn.stage() is Idle,
            HandshakeEvent::Sent => conn.stage() is ClientReply || conn.stage() is ServerWelcome,
            HandshakeEvent::Length(_) => conn.stage() is ClientLength
                || conn.stage() is ServerLength,
            HandshakeEvent::Body(_) => conn.stage() is ClientBody || conn.stage() is ServerBody,
        },
{
}

/// A connection sends nothing before it has been started, and everything as it is
/// from then on, to where it was told to; the receiving end is the user's to whom
/// the connection belongs.
pub proof fn law_calls_on_a_connection<S>(
    made: Connection<S>,
    conn: &mut Connection<S>,
    outbox: S,
    receiver: Receiver,
    later: &Connection<S>,
    packet: &Packet,
    delivery: Option<(&S, Packet)>,
    started: bool,
)
    requires
        call_ensures(Connection::<S>::new, (), made),
        call_ensures(Connection::<S>::start, (conn, outbox), receiver),
        call_ensures(Connection::<S>::send, (later, packet), delivery),
        call_ensures(Connection::<S>::is_started, (later,), started),
    ensures
        receiver.user() == old(conn).user(),
        receiver.pending().len() == 0,
        final(conn).stage() == old(conn).stage(),
        final(conn).user() == old(conn).user(),
        final(conn).outbox() == Some(outbox),
        started <==> later.outbox() is Some,
        match later.outbox() {
            Some(to) => {
                &&& delivery is Some
                &&& *delivery->Some_0.0 == to
                &&& delivery->Some_0.1@ == packet@
            },
            None => delivery is None,
        },
        *later == made ==> delivery is None && !started,
        *later == *final(conn) ==> {
            &&& started
            &&& delivery is Some
            &&& *delivery->Some_0.0 == outbox
            &&& delivery->Some_0.1@ == packet@
        },
{
}

/// A farewell says that the user has quit, where one is known, and that the server
/// has, where none is.
pub proof fn law_call_of_farewell(
    id: UserId,
    named: Receiver,
    nameless: Receiver,
    a: Packet,
    b: Packet,
)
    requires
        call_ensures(Receiver::new, (Some(id),), named),
        call_ensures(Receiver::new, (None::<UserId>,), nameless),
        call_ensures(Receiver::farewell, (&named,), a),
        call_ensures(Receiver::farewell, (&nameless,), b),
    ensures
        a.from@ == id@ && a.to@ == id@ && a.content@ == MessageView::Quit(id@),
        b.from@ == ""@ && b.to@ == ""@ && b.content@ == MessageView::ServerQuit,
        named.pending().len() == 0,
        nameless.pending().len() == 0,
{
}

/// What is received: the packets that were written one behind the other come out
/// in that order, and what is behind them, and no packet yet, is kept for the next
/// time; where it can be none, the farewell comes last and the connection ends.
pub proof fn law_call_of_receive(
    receiver: &mut Receiver,
    chunk: Vec<u8>,
    packets: Seq<PacketView>,
    rest: Seq<u8>,
    fault: Fault,
    farewell: Packet,
    r: Received,
)
    requires
        forall|i: int| 0 <= i < packets.len() ==> fits(#[trigger] packets[i]),
        read_packet(rest) == Err::<PacketView, Fault>(fault),
        old(receiver).pending() + chunk@ == packets.map_values(
            |packet: PacketView| wire(packet),
        ).flatten() + rest,
        call_ensures(Receiver::farewell, (&*old(receiver),), farewell),
        call_ensures(Receiver::receive, (receiver, Some(chunk)), r),
    ensures
        final(receiver).pending() == rest,
        final(receiver).user() == old(receiver).user(),
        r.ended <==> fault == Fault::Malformed,
        packet_views(r.packets@) == if r.ended {
            packets + seq![farewell@]
        } else {
            packets
        },
{
    law_what_arrives(packets, rest, fault);
}

/// Whatever is received, the packets that come out and the bytes that are kept are
/// all of it, in that order.
pub proof fn law_nothing_received_is_lost(receiver: &mut Receiver, chunk: Vec<u8>, r: Received)
    requires
        call_ensures(Receiver::receive, (receiver, Some(chunk)), r),
    ensures
        ({
            let got = packet_views(r.packets@);
            let packets = if r.ended {
                got.drop_last()
            } else {
                got
            };
            &&& old(receiver).pending() + chunk@ == packets.map_values(
                |packet: PacketView| wire(packet),
            ).flatten() + final(receiver).pending()
            &&& r.ended <==> read_packet(final(receiver).pending()) == Err::<PacketView, Fault>(
                Fault::Malformed,
            )
            &&& read_packet(final(receiver).pending()) is Err
            &&& final(receiver).user() == old(receiver).user()
        }),
{
    law_no_byte_is_lost(old(receiver).pending() + chunk@);
    if r.ended {
        let got = packet_views(r.packets@);
        assert(got.drop_last() =~= arrivals(old(receiver).pending() + chunk@).packets);
    }
}

/// When there is nothing more to receive, the farewell comes out, alone, and the
/// connection ends.
pub proof fn law_call_of_receive_at_the_end(receiver: &mut Receiver, farewell: Packet, r: Received)
    requires
        call_ensures(Receiver::farewell, (&*old(receiver),), farewell),
        call_ensures(Receiver::receive, (receiver, None::<Vec<u8>>), r),
    ensures
        r.ended,
        r.packets@.len() == 1,
        r.packets@[0]@ == farewell@,
        final(receiver).pending() == old(receiver).pending(),
        final(receiver).user() == old(receiver).user(),
{
    assert(packet_views(r.packets@)[0] == farewell@);
    assert(packet_views(r.packets@).len() == r.packets@.len());
}

/// The room of a server begins with nobody in it and nothing remembered; the room
/// of a client with a connection to the server and its own name.
pub proof fn law_calls_that_make_a_room<S>(
    open: Room<S>,
    joined: Room<S>,
    id: UserId,
    server: Connection<S>,
    a: bool,
    b: bool,
)
    requires
        call_ensures(Room::<S>::create, (), open),
        call_ensures(Room::<S>::connect, (id, server), joined),
        call_ensures(Room::<S>::is_server, (&open,), a),
        call_ensures(Room::<S>::is_server, (&joined,), b),
    ensures
        open.wf() && joined.wf(),
        a && !b,
        open.local() is None,
        open.names().len() == 0 && open.outboxes().len() == 0 && open.remembered().len() == 0,
        joined.local() == Some(id@),
        joined.names() == seq!["server"@],
        joined.outboxes() == seq![server.outbox()],
        joined.remembered().len() == 0,
{
}

/// A client is taken in exactly when its connection has been started and nobody is
/// there under its name; it then comes last, and all else is as it was.
pub proof fn law_call_of_join<S>(room: &mut Room<S>, id: UserId, conn: Connection<S>, r: bool)
    requires
        call_ensures(Room::<S>::join, (room, id, conn), r),
    ensures
        r <==> conn.outbox() is Some && (forall|i: int|
            0 <= i < old(room).names().len() ==> #[trigger] old(room).names()[i] != id@),
        r ==> {
            &&& final(room).names() == old(room).names() + seq![id@]
            &&& final(room).outboxes() == old(room).outboxes() + seq![conn.outbox()]
            &&& final(room).remembered() == old(room).remembered()
            &&& final(room).local() == old(room).local()
        },
        !r ==> *final(room) == *old(room),
{
    let names = old(room).names();
    if forall|i: int| 0 <= i < names.len() ==> #[trigger] names[i] != id@ {
        assert(!names.contains(id@));
    } else {
        let i = choose|i: int| 0 <= i < names.len() && #[trigger] names[i] == id@;
        assert(names.contains(names[i]));
    }
    assert(names.push(id@) =~= names + seq![id@]);
    assert(old(room).outboxes().push(conn.outbox()) =~= old(room).outboxes() + seq![
        conn.outbox(),
    ]);
}

/// A packet goes to every connection of the room, as it is, once each and in
/// order.
pub proof fn law_call_of_room_send<S>(
    room: &Room<S>,
    packet: &Packet,
    deliveries: Vec<(&S, Packet)>,
)
    requires
        room.wf(),
        call_ensures(Room::<S>::send, (room, packet), deliveries),
    ensures
        deliveries@.len() == room.names().len(),
        forall|i: int|
            0 <= i < deliveries@.len() ==> {
                &&& Some(*(#[trigger] deliveries@[i]).0) == room.outboxes()[i]
                &&& deliveries@[i].1@ == packet@
            },
{
}

/// What a server does about the next packet, and what it remembers then.
pub proof fn law_call_of_update_of_a_server<S>(
    room: &mut Room<S>,
    packet: Packet,
    actions: Vec<RoomAction>,
)
    requires
        old(room).local() is None,
        call_ensures(Room::<S>::update, (room, Some(packet)), actions),
    ensures
        final(room).local() is None,
        final(room).names() == old(room).names(),
        final(room).outboxes() == old(room).outboxes(),
        match packet.content {
            Message::Text(_) => {
                &&& action_views(actions@) == seq![
                    RoomActionView::Show(packet_ops(packet@)),
                    RoomActionView::Flush,
                    RoomActionView::Send(packet@),
                ]
                &&& final(room).remembered() == old(room).remembered() + seq![packet@]
            },
            Message::PromptSend(text) => {
                let written = PacketView {
                    from: "server"@,
                    to: ""@,
                    content: MessageView::Text(text@),
                };
                &&& action_views(actions@) == seq![
                    RoomActionView::Show(packet_ops(written)),
                    RoomActionView::Flush,
                    RoomActionView::Send(written),
                ]
                &&& final(room).remembered() == old(room).remembered() + seq![written]
            },
            Message::NewUser => {
                &&& action_views(actions@) == seq![RoomActionView::Show(packet_ops(packet@))]
                &&& final(room).remembered() == old(room).remembered()
            },
            _ => {
                &&& actions@.len() == 0
                &&& final(room).remembered() == old(room).remembered()
            },
        },
{
    law_what_a_server_does(packet@);
    assert(action_views(actions@).len() == actions@.len());
    let kept = old(room).remembered();
    assert(kept + Seq::<PacketView>::empty() =~= kept);
}

/// What the room of a client does about the next packet; it remembers nothing.
pub proof fn law_call_of_update_of_a_client<S>(
    room: &mut Room<S>,
    id: Seq<char>,
    packet: Packet,
    actions: Vec<RoomAction>,
)
    requires
        old(room).local() == Some(id),
        call_ensures(Room::<S>::update, (room, Some(packet)), actions),
    ensures
        final(room).local() == Some(id),
        final(room).names() == old(room).names(),
        final(room).outboxes() == old(room).outboxes(),
        final(room).remembered() == old(room).remembered(),
        match packet.content {
            Message::Text(_) => action_views(actions@) == seq![
                RoomActionView::Show(packet_ops(packet@)),
                RoomActionView::Flush,
            ],
            Message::PromptSend(text) => action_views(actions@) == seq![
                RoomActionView::Send(
                    PacketView { from: id, to: ""@, content: MessageView::Text(text@) },
                ),
            ],
            Message::NewUser => action_views(actions@) == seq![
                RoomActionView::Show(packet_ops(packet@)),
            ],
            _ => actions@.len() == 0,
        },
{
    law_what_a_client_does(id, packet@);
    assert(action_views(actions@).len() == actions@.len());
    let kept = old(room).remembered();
    assert(kept + Seq::<PacketView>::empty() =~= kept);
}

/// Where no packet is there, nothing is done. What a room hands out of its history
/// is what it remembers, and it is a server's room where it is no client's.
pub proof fn law_other_calls_on_a_room<S>(
    room: &mut Room<S>,
    actions: Vec<RoomAction>,
    history: &Vec<Packet>,
    server: bool,
)
    requires
        call_ensures(Room::<S>::is_server, (&*old(room),), server),
        call_ensures(Room::<S>::update, (room, None::<Packet>), actions),
        call_ensures(Room::<S>::history, (&*old(room),), history),
    ensures
        server <==> old(room).local() is None,
        actions@.len() == 0,
        final(room).remembered() == old(room).remembered(),
        final(room).names() == old(room).names(),
        final(room).outboxes() == old(room).outboxes(),
        final(room).local() == old(room).local(),
        history@.len() == old(room).remembered().len(),
        forall|i: int|
            0 <= i < history@.len() ==> (#[trigger] history@[i])@ == old(room).remembered()[i],
{
    assert(packet_views(history@).len() == history@.len());
    assert forall|i: int| 0 <= i < history@.len() implies (#[trigger] history@[i])@
        == old(room).remembered()[i] by {
        assert(packet_views(history@)[i] == history@[i]@);
    }
}

/// What can be asked of a room that is in order, and of a connection that waits
/// for what it is told.
pub proof fn law_what_can_be_asked_of_a_room<S>(
    room: &mut Room<S>,
    id: UserId,
    conn: Connection<S>,
    started: Connection<S>,
    packet: Packet,
)
    requires
        old(room).wf(),
        started.outbox() is Some,
    ensures
        call_requires(Room::<S>::update, (room, Some(packet))),
        call_requires(Room::<S>::update, (room, None::<Packet>)),
        call_requires(Room::<S>::send, (&*old(room), &packet)),
        call_requires(Room::<S>::connect, (id, started)),
        old(room).local() is None ==> call_requires(Room::<S>::join, (room, id, conn)),
{
}

} // verus!

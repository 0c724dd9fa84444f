//! Drawing: what is put on the terminal, as a list of commands.

use vstd::prelude::*;
use vstd::utf8::encode_utf8;

use crate::packet::{Message, MessageView, Packet, PacketView};
use crate::text::{byte_len, repeated, split_lines, split_newlines, views};

verus! {

/// One command to the terminal.
#[derive(Debug, PartialEq, Eq)]
pub enum TermOp {
    /// Write a text at the cursor.
    Print(String),
    /// Write in bold from here on.
    Bold,
    /// Write without attributes from here on.
    Reset,
    /// Move to the start of the line that many lines down.
    NextLine(u16),
    /// Move to the start of the line that many lines up.
    PreviousLine(u16),
    /// Move to a column of the current line; the first is 0.
    Column(u16),
    /// Clear from the cursor to the end of the line.
    ClearToLineEnd,
    /// Clear from the cursor to the end of the screen.
    ClearBelow,
    /// Show what has been written so far.
    Flush,
}

/// The mathematical value of a [`TermOp`].
pub enum TermOpView {
    Print(Seq<char>),
    Bold,
    Reset,
    NextLine(int),
    PreviousLine(int),
    Column(int),
    ClearToLineEnd,
    ClearBelow,
    Flush,
}

impl View for TermOp {
    type V = TermOpView;

    open spec fn view(&self) -> TermOpView {
        match self {
            TermOp::Print(text) => TermOpView::Print(text@),
            TermOp::Bold => TermOpView::Bold,
            TermOp::Reset => TermOpView::Reset,
            TermOp::NextLine(n) => TermOpView::NextLine(*n as int),
            TermOp::PreviousLine(n) => TermOpView::PreviousLine(*n as int),
            TermOp::Column(n) => TermOpView::Column(*n as int),
            TermOp::ClearToLineEnd => TermOpView::ClearToLineEnd,
            TermOp::ClearBelow => TermOpView::ClearBelow,
            TermOp::Flush => TermOpView::Flush,
        }
    }
}

/// The values of a list of commands.
pub open spec fn op_views(ops: Seq<TermOp>) -> Seq<TermOpView> {
    Seq::new(ops.len(), |i: int| ops[i]@)
}

/// Spaces as wide as what stands before the first line of a text of `from`.
pub open spec fn padding(from: Seq<char>) -> Seq<char> {
    Seq::new(encode_utf8(from).len() + 3, |i: int| ' ')
}

/// How the lines of a text are drawn: each on a line of its own, all but the
/// first behind `pad`.
pub open spec fn line_ops(lines: Seq<Seq<char>>, pad: Seq<char>) -> Seq<TermOpView>
    decreases lines.len(),
{
    if lines.len() == 0 {
        Seq::empty()
    } else {
        let lead = if lines.len() > 1 {
            seq![TermOpView::Print(pad)]
        } else {
            Seq::empty()
        };
        line_ops(lines.drop_last(), pad) + lead + seq![
            TermOpView::Print(lines.last()),
            TermOpView::ClearToLineEnd,
            TermOpView::NextLine(1),
        ]
    }
}

/// How a packet is drawn. Only texts and newcomers are shown.
pub open spec fn packet_ops(packet: PacketView) -> Seq<TermOpView> {
    match packet.content {
        MessageView::NewUser => seq![
            TermOpView::Print(" |?| User "@),
            TermOpView::Bold,
            TermOpView::Print("["@),
            TermOpView::Print("unknowned"@),
            TermOpView::Print("]"@),
            TermOpView::Reset,
            TermOpView::Print(" has joined the room."@),
            TermOpView::NextLine(1),
        ],
        MessageView::Text(text) => seq![
            TermOpView::Bold,
            TermOpView::Print("["@),
            TermOpView::Print(packet.from),
            TermOpView::Print("] "@),
            TermOpView::Reset,
        ] + line_ops(split_lines(text), padding(packet.from)),
        _ => Seq::empty(),
    }
}

/// Draws a packet.
pub fn print(packet: &Packet) -> (ops: Vec<TermOp>)
    ensures
        op_views(ops@) == packet_ops(packet@),
{
    let mut ops: Vec<TermOp> = Vec::new();
    match &packet.content {
        Message::NewUser => {
            ops.push(TermOp::Print(" |?| User ".to_owned()));
            ops.push(TermOp::Bold);
            ops.push(TermOp::Print("[".to_owned()));
            ops.push(TermOp::Print("unknowned".to_owned()));
            ops.push(TermOp::Print("]".to_owned()));
            ops.push(TermOp::Reset);
            ops.push(TermOp::Print(" has joined the room.".to_owned()));
            ops.push(TermOp::NextLine(1));
            assert(op_views(ops@) =~= packet_ops(packet@));
        },
        Message::Text(text) => {
            ops.push(TermOp::Bold);
            ops.push(TermOp::Print("[".to_owned()));
            ops.push(TermOp::Print(packet.from.clone()));
            ops.push(TermOp::Print("] ".to_owned()));
            ops.push(TermOp::Reset);
            let ghost head = op_views(ops@);
            let mut pad = repeated(' ', byte_len(&packet.from));
            pad.push(' ');
            pad.push(' ');
            pad.push(' ');
            assert(pad@ =~= padding(packet.from@));
            let lines = split_newlines(text.as_str());
            let mut num: usize = 0;
            assert(op_views(ops@) =~= head + line_ops(views(lines@).take(0), pad@));
            while num < lines.len()
                invariant
                    num <= lines.len(),
                    op_views(ops@) == head + line_ops(views(lines@).take(num as int), pad@),
                decreases lines.len() - num,
            {
                let ghost before = op_views(ops@);
                if num > 0 {
                    ops.push(TermOp::Print(pad.clone()));
                }
                ops.push(TermOp::Print(lines[num].clone()));
                ops.push(TermOp::ClearToLineEnd);
                ops.push(TermOp::NextLine(1));
                proof {
                    let shown = views(lines@).take(num + 1);
                    assert(shown.drop_last() =~= views(lines@).take(num as int));
                    assert(shown.last() == lines@[num as int]@);
                    let lead = if num > 0 {
                        seq![TermOpView::Print(pad@)]
                    } else {
                        Seq::empty()
                    };
                    let line = seq![
                        TermOpView::Print(shown.last()),
                        TermOpView::ClearToLineEnd,
                        TermOpView::NextLine(1),
                    ];
                    assert(op_views(ops@) =~= before + (lead + line));
                    assert(op_views(ops@) =~= head + (line_ops(shown.drop_last(), pad@) + lead
                        + line));
                }
                num += 1;
            }
            assert(views(lines@).take(lines@.len() as int) =~= views(lines@));
        },
        _ => {
            assert(op_views(ops@) =~= packet_ops(packet@));
        },
    }
    ops
}

} // verus!

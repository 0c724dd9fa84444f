//! What holds of the screen: where the terminal's cursor ends up.

use vstd::prelude::*;
use vstd::utf8::{encode_utf8, is_ascii_chars, is_ascii_chars_encode_utf8};

use crate::packet::{MessageView, PacketView};
use crate::prompt::{prompt_lines, rule, PromptView};
use crate::terminal::{line_ops, op_views, packet_ops, padding, TermOp, TermOpView};
use crate::text::{law_lines_make_up_the_text, law_lines_of_a_text, split_lines};

verus! {

/// How many newlines a text has.
pub open spec fn newlines(s: Seq<char>) -> int
    decreases s.len(),
{
    if s.len() == 0 {
        0
    } else {
        newlines(s.drop_last()) + if s.last() == '\n' {
            1int
        } else {
            0
        }
    }
}

/// How many lines a command moves the terminal's cursor down; up, where it is
/// negative.
pub open spec fn rows_of(op: TermOpView) -> int {
    match op {
        TermOpView::Print(text) => newlines(text),
        TermOpView::NextLine(n) => n,
        TermOpView::PreviousLine(n) => -n,
        _ => 0,
    }
}

/// How many lines some commands move the terminal's cursor down.
pub open spec fn rows(ops: Seq<TermOpView>) -> int
    decreases ops.len(),
{
    if ops.len() == 0 {
        0
    } else {
        rows(ops.drop_last()) + rows_of(ops.last())
    }
}

/// A text without a newline has none.
proof fn lemma_no_newlines(s: Seq<char>)
    requires
        !s.contains('\n'),
    ensures
        newlines(s) == 0,
    decreases s.len(),
{
    if s.len() > 0 {
        let shorter = s.drop_last();
        assert forall|i: int| 0 <= i < shorter.len() implies shorter[i] != '\n' by {
            assert(shorter[i] == s[i]);
            assert(s.contains(s[i]));
        }
        assert(s.contains(s[s.len() - 1]));
        lemma_no_newlines(shorter);
    }
}

/// One command more.
proof fn lemma_rows_push(ops: Seq<TermOpView>, op: TermOpView)
    ensures
        rows(ops.push(op)) == rows(ops) + rows_of(op),
{
    assert(ops.push(op).drop_last() =~= ops);
}

/// Two lists of commands move as far as both together.
proof fn lemma_rows_concat(a: Seq<TermOpView>, b: Seq<TermOpView>)
    ensures
        rows(a + b) == rows(a) + rows(b),
    decreases b.len(),
{
    if b.len() == 0 {
        assert(a + b =~= a);
    } else {
        lemma_rows_concat(a, b.drop_last());
        assert((a + b).drop_last() =~= a + b.drop_last());
    }
}

/// The literals that are put on the screen.
proof fn lemma_literals()
    ensures
        newlines("\n"@) == 1,
        newlines("|"@) == 0,
        newlines("message "@) == 0,
        newlines("        "@) == 0,
        newlines("["@) == 0,
        newlines("] "@) == 0,
        newlines("]"@) == 0,
        newlines("unknowned"@) == 0,
        newlines(" |?| User "@) == 0,
        newlines(" has joined the room."@) == 0,
{
    reveal_strlit("\n");
    reveal_strlit("|");
    reveal_strlit("message ");
    reveal_strlit("        ");
    reveal_strlit("[");
    reveal_strlit("] ");
    reveal_strlit("]");
    reveal_strlit("unknowned");
    reveal_strlit(" |?| User ");
    reveal_strlit(" has joined the room.");
    reveal_with_fuel(newlines, 2);
    lemma_no_newlines("|"@);
    lemma_no_newlines("message "@);
    lemma_no_newlines("        "@);
    lemma_no_newlines("["@);
    lemma_no_newlines("] "@);
    lemma_no_newlines("]"@);
    lemma_no_newlines("unknowned"@);
    lemma_no_newlines(" |?| User "@);
    lemma_no_newlines(" has joined the room."@);
}

/// Each line of a prompt takes a line of the screen.
proof fn lemma_prompt_lines(lines: Seq<Seq<char>>)
    requires
        forall|i: int| 0 <= i < lines.len() ==> !(#[trigger] lines[i]).contains('\n'),
    ensures
        rows(prompt_lines(lines)) == lines.len(),
    decreases lines.len(),
{
    if lines.len() > 0 {
        let fewer = lines.drop_last();
        assert forall|i: int| 0 <= i < fewer.len() implies !(#[trigger] fewer[i]).contains(
            '\n',
        ) by {
            assert(fewer[i] == lines[i]);
        }
        lemma_prompt_lines(fewer);
        lemma_literals();
        assert(!lines[lines.len() - 1].contains('\n'));
        lemma_no_newlines(lines.last());
        let label = if lines.len() == 1 {
            "message "@
        } else {
            "        "@
        };
        let before = prompt_lines(fewer);
        let o1 = before.push(TermOpView::Print(label));
        let o2 = o1.push(TermOpView::Print("|"@));
        let o3 = o2.push(TermOpView::Print(lines.last()));
        let o4 = o3.push(TermOpView::ClearToLineEnd);
        let o5 = o4.push(TermOpView::Print("\n"@));
        let o6 = o5.push(TermOpView::Column(0));
        lemma_rows_push(before, TermOpView::Print(label));
        lemma_rows_push(o1, TermOpView::Print("|"@));
        lemma_rows_push(o2, TermOpView::Print(lines.last()));
        lemma_rows_push(o3, TermOpView::ClearToLineEnd);
        lemma_rows_push(o4, TermOpView::Print("\n"@));
        lemma_rows_push(o5, TermOpView::Column(0));
        assert(prompt_lines(lines) =~= o6);
    }
}

/// The prompt is drawn in place: drawing it leaves the cursor on the line being
/// edited, which is that many lines below the rule, and going back from there
/// leads to the line where drawing began. (Left out are lines into which a
/// newline was typed as a character, and prompts whose number of lines takes
/// more than 16 bits.)
pub proof fn law_prompt_is_drawn_in_place(p: PromptView)
    requires
        p.wf(),
        p.lines.len() <= u16::MAX,
        forall|i: int| 0 <= i < p.lines.len() ==> !(#[trigger] p.lines[i]).contains('\n'),
    ensures
        rows(p.drawing()) == 1 + p.row,
        rows(p.drawing() + p.way_back()) == 0,
{
    lemma_literals();
    lemma_prompt_lines(p.lines);
    assert forall|i: int| 0 <= i < rule().len() implies rule()[i] != '\n' by {}
    lemma_no_newlines(rule());
    let s0 = Seq::<TermOpView>::empty();
    let s1 = s0.push(TermOpView::Column(0));
    let s2 = s1.push(TermOpView::Print(rule()));
    let s3 = s2.push(TermOpView::ClearToLineEnd);
    let s4 = s3.push(TermOpView::Print("\n"@));
    let s5 = s4.push(TermOpView::Column(0));
    lemma_rows_push(s0, TermOpView::Column(0));
    lemma_rows_push(s1, TermOpView::Print(rule()));
    lemma_rows_push(s2, TermOpView::ClearToLineEnd);
    lemma_rows_push(s3, TermOpView::Print("\n"@));
    lemma_rows_push(s4, TermOpView::Column(0));
    let t0 = s5 + prompt_lines(p.lines);
    lemma_rows_concat(s5, prompt_lines(p.lines));
    let t1 = t0.push(TermOpView::ClearBelow);
    let t2 = t1.push(TermOpView::PreviousLine(p.height() - p.row));
    let t3 = t2.push(TermOpView::Column(9 + p.at()));
    let t4 = t3.push(TermOpView::Flush);
    lemma_rows_push(t0, TermOpView::ClearBelow);
    lemma_rows_push(t1, TermOpView::PreviousLine(p.height() - p.row));
    lemma_rows_push(t2, TermOpView::Column(9 + p.at()));
    lemma_rows_push(t3, TermOpView::Flush);
    assert(p.drawing() =~= t4);
    lemma_rows_push(t4, TermOpView::PreviousLine(p.row + 1));
    assert(p.drawing() + p.way_back() =~= t4.push(TermOpView::PreviousLine(p.row + 1)));
}

/// The cursor is put behind the label, which is nine columns wide on every line.
pub proof fn law_labels_are_nine_columns_wide()
    ensures
        ("message "@ + "|"@).len() == 9,
        ("        "@ + "|"@).len() == 9,
{
    reveal_strlit("message ");
    reveal_strlit("        ");
    reveal_strlit("|");
}

/// Each line of a text takes a line of the screen.
proof fn lemma_line_ops(lines: Seq<Seq<char>>, pad: Seq<char>)
    requires
        !pad.contains('\n'),
        forall|i: int| 0 <= i < lines.len() ==> !(#[trigger] lines[i]).contains('\n'),
    ensures
        rows(line_ops(lines, pad)) == lines.len(),
    decreases lines.len(),
{
    if lines.len() > 0 {
        let fewer = lines.drop_last();
        assert forall|i: int| 0 <= i < fewer.len() implies !(#[trigger] fewer[i]).contains(
            '\n',
        ) by {
            assert(fewer[i] == lines[i]);
        }
        lemma_line_ops(fewer, pad);
        assert(!lines[lines.len() - 1].contains('\n'));
        lemma_no_newlines(lines.last());
        lemma_no_newlines(pad);
        let before = line_ops(fewer, pad);
        let o1 = if lines.len() > 1 {
            before.push(TermOpView::Print(pad))
        } else {
            before
        };
        let o2 = o1.push(TermOpView::Print(lines.last()));
        let o3 = o2.push(TermOpView::ClearToLineEnd);
        let o4 = o3.push(TermOpView::NextLine(1));
        lemma_rows_push(before, TermOpView::Print(pad));
        lemma_rows_push(o1, TermOpView::Print(lines.last()));
        lemma_rows_push(o2, TermOpView::ClearToLineEnd);
        lemma_rows_push(o3, TermOpView::NextLine(1));
        assert(line_ops(lines, pad) =~= o4);
    }
}

/// A packet that is shown moves the prompt down by as many lines as it takes: a
/// text by as many as it has, a newcomer by one, and another packet by none.
/// (Left out are texts under a name with a newline.)
pub proof fn law_packet_takes_its_lines(packet: PacketView)
    requires
        packet.content is Text ==> !packet.from.contains('\n'),
    ensures
        rows(packet_ops(packet)) == match packet.content {
            MessageView::Text(text) => split_lines(text).len() as int,
            MessageView::NewUser => 1,
            _ => 0,
        },
{
    lemma_literals();
    let s0 = Seq::<TermOpView>::empty();
    match packet.content {
        MessageView::Text(text) => {
            let pad = padding(packet.from);
            assert forall|i: int| 0 <= i < pad.len() implies pad[i] != '\n' by {}
            law_lines_of_a_text(text);
            lemma_line_ops(split_lines(text), pad);
            lemma_no_newlines(packet.from);
            let s1 = s0.push(TermOpView::Bold);
            let s2 = s1.push(TermOpView::Print("["@));
            let s3 = s2.push(TermOpView::Print(packet.from));
            let s4 = s3.push(TermOpView::Print("] "@));
            let s5 = s4.push(TermOpView::Reset);
            lemma_rows_push(s0, TermOpView::Bold);
            lemma_rows_push(s1, TermOpView::Print("["@));
            lemma_rows_push(s2, TermOpView::Print(packet.from));
            lemma_rows_push(s3, TermOpView::Print("] "@));
            lemma_rows_push(s4, TermOpView::Reset);
            lemma_rows_concat(s5, line_ops(split_lines(text), pad));
            assert(packet_ops(packet) =~= s5 + line_ops(split_lines(text), pad));
        },
        MessageView::NewUser => {
            let s1 = s0.push(TermOpView::Print(" |?| User "@));
            let s2 = s1.push(TermOpView::Bold);
            let s3 = s2.push(TermOpView::Print("["@));
            let s4 = s3.push(TermOpView::Print("unknowned"@));
            let s5 = s4.push(TermOpView::Print("]"@));
            let s6 = s5.push(TermOpView::Reset);
            let s7 = s6.push(TermOpView::Print(" has joined the room."@));
            lemma_rows_push(s0, TermOpView::Print(" |?| User "@));
            lemma_rows_push(s1, TermOpView::Bold);
            lemma_rows_push(s2, TermOpView::Print("["@));
            lemma_rows_push(s3, TermOpView::Print("unknowned"@));
            lemma_rows_push(s4, TermOpView::Print("]"@));
            lemma_rows_push(s5, TermOpView::Reset);
            lemma_rows_push(s6, TermOpView::Print(" has joined the room."@));
            lemma_rows_push(s7, TermOpView::NextLine(1));
            assert(packet_ops(packet) =~= s7.push(TermOpView::NextLine(1)));
        },
        _ => {},
    }
}

/// The lines of a text stand under each other: the later ones are moved in as
/// far as the name before the first one reaches. (Left out are names that are
/// not ASCII: the padding counts bytes.)
pub proof fn law_lines_stand_under_each_other(from: Seq<char>)
    requires
        is_ascii_chars(from),
    ensures
        padding(from).len() == ("["@ + from + "] "@).len(),
{
    reveal_strlit("[");
    reveal_strlit("] ");
    is_ascii_chars_encode_utf8(from);
}

/// What some commands write on the terminal, with a newline for each line that
/// they go down.
pub open spec fn written(ops: Seq<TermOpView>) -> Seq<char>
    decreases ops.len(),
{
    if ops.len() == 0 {
        Seq::empty()
    } else {
        written(ops.drop_last()) + match ops.last() {
            TermOpView::Print(text) => text,
            TermOpView::NextLine(n) => Seq::new(n as nat, |i: int| '\n'),
            _ => Seq::empty(),
        }
    }
}

/// The column in which some commands leave the terminal's cursor that began in
/// the first one. A newline that is written keeps the column.
pub open spec fn column(ops: Seq<TermOpView>) -> int
    decreases ops.len(),
{
    if ops.len() == 0 {
        0
    } else {
        match ops.last() {
            TermOpView::Print(text) => column(ops.drop_last()) + text.len() - newlines(text),
            TermOpView::Column(n) => n,
            TermOpView::NextLine(_) => 0,
            TermOpView::PreviousLine(_) => 0,
            _ => column(ops.drop_last()),
        }
    }
}

/// What two lists of commands write is written by both together.
proof fn lemma_written_concat(a: Seq<TermOpView>, b: Seq<TermOpView>)
    ensures
        written(a + b) == written(a) + written(b),
    decreases b.len(),
{
    if b.len() == 0 {
        assert(a + b =~= a);
        assert(written(a) + written(b) =~= written(a));
    } else {
        lemma_written_concat(a, b.drop_last());
        assert((a + b).drop_last() =~= a + b.drop_last());
        assert(written(a + b) =~= written(a) + written(b));
    }
}

/// What a single command writes.
proof fn lemma_written_push(ops: Seq<TermOpView>, op: TermOpView)
    ensures
        written(ops.push(op)) == written(ops) + match op {
            TermOpView::Print(text) => text,
            TermOpView::NextLine(n) => Seq::new(n as nat, |i: int| '\n'),
            _ => Seq::empty(),
        },
{
    assert(ops.push(op).drop_last() =~= ops);
}

/// The padding is made of blanks, three more than the name has bytes.
pub proof fn law_padding_is_blank(from: Seq<char>)
    ensures
        padding(from).len() == encode_utf8(from).len() + 3,
        forall|i: int| 0 <= i < padding(from).len() ==> #[trigger] padding(from)[i] == ' ',
{
}

/// How the lines of a text are drawn, line by line.
proof fn lemma_line_by_line(lines: Seq<Seq<char>>, pad: Seq<char>)
    ensures
        line_ops(lines, pad) == Seq::new(
            lines.len(),
            |i: int|
                if i == 0 {
                    seq![
                        TermOpView::Print(lines[i]),
                        TermOpView::ClearToLineEnd,
                        TermOpView::NextLine(1),
                    ]
                } else {
                    seq![
                        TermOpView::Print(pad),
                        TermOpView::Print(lines[i]),
                        TermOpView::ClearToLineEnd,
                        TermOpView::NextLine(1),
                    ]
                },
        ).flatten(),
    decreases lines.len(),
{
    let parts = Seq::new(
        lines.len(),
        |i: int|
            if i == 0 {
                seq![
                    TermOpView::Print(lines[i]),
                    TermOpView::ClearToLineEnd,
                    TermOpView::NextLine(1),
                ]
            } else {
                seq![
                    TermOpView::Print(pad),
                    TermOpView::Print(lines[i]),
                    TermOpView::ClearToLineEnd,
                    TermOpView::NextLine(1),
                ]
            },
    );
    if lines.len() > 0 {
        let fewer = lines.drop_last();
        let fewer_parts = Seq::new(
            fewer.len(),
            |i: int|
                if i == 0 {
                    seq![
                        TermOpView::Print(fewer[i]),
                        TermOpView::ClearToLineEnd,
                        TermOpView::NextLine(1),
                    ]
                } else {
                    seq![
                        TermOpView::Print(pad),
                        TermOpView::Print(fewer[i]),
                        TermOpView::ClearToLineEnd,
                        TermOpView::NextLine(1),
                    ]
                },
        );
        let last = parts[parts.len() - 1];
        lemma_line_by_line(fewer, pad);
        assert forall|i: int| 0 <= i < fewer.len() implies parts[i] == fewer_parts[i] by {
            assert(fewer[i] == lines[i]);
        }
        assert(parts =~= fewer_parts.push(last));
        fewer_parts.lemma_flatten_push(last);
        assert(line_ops(lines, pad) =~= line_ops(fewer, pad) + last);
    }
}

/// A text on the screen, command by command: its author in bold and in brackets,
/// and then each of its lines, whole and in order, the later ones behind blanks.
pub proof fn law_text_is_drawn_line_by_line(packet: PacketView, text: Seq<char>)
    requires
        packet.content == MessageView::Text(text),
    ensures
        ({
            let lines = split_lines(text);
            let pad = Seq::new(encode_utf8(packet.from).len() + 3, |i: int| ' ');
            packet_ops(packet) == seq![
                TermOpView::Bold,
                TermOpView::Print("["@),
                TermOpView::Print(packet.from),
                TermOpView::Print("] "@),
                TermOpView::Reset,
            ] + Seq::new(
                lines.len(),
                |i: int|
                    if i == 0 {
                        seq![
                            TermOpView::Print(lines[i]),
                            TermOpView::ClearToLineEnd,
                            TermOpView::NextLine(1),
                        ]
                    } else {
                        seq![
                            TermOpView::Print(pad),
                            TermOpView::Print(lines[i]),
                            TermOpView::ClearToLineEnd,
                            TermOpView::NextLine(1),
                        ]
                    },
            ).flatten()
        }),
{
    let pad = Seq::new(encode_utf8(packet.from).len() + 3, |i: int| ' ');
    assert(pad =~= padding(packet.from));
    lemma_line_by_line(split_lines(text), pad);
}

/// What the lines of a text write.
proof fn lemma_lines_written(lines: Seq<Seq<char>>, pad: Seq<char>)
    ensures
        written(line_ops(lines, pad)) == Seq::new(
            lines.len(),
            |i: int|
                if i == 0 {
                    lines[i].push('\n')
                } else {
                    pad + lines[i].push('\n')
                },
        ).flatten(),
    decreases lines.len(),
{
    let parts = Seq::new(
        lines.len(),
        |i: int|
            if i == 0 {
                lines[i].push('\n')
            } else {
                pad + lines[i].push('\n')
            },
    );
    if lines.len() > 0 {
        let fewer = lines.drop_last();
        let fewer_parts = Seq::new(
            fewer.len(),
            |i: int|
                if i == 0 {
                    fewer[i].push('\n')
                } else {
                    pad + fewer[i].push('\n')
                },
        );
        let last = parts[parts.len() - 1];
        lemma_lines_written(fewer, pad);
        assert forall|i: int| 0 <= i < fewer.len() implies parts[i] == fewer_parts[i] by {
            assert(fewer[i] == lines[i]);
        }
        assert(parts =~= fewer_parts.push(last));
        fewer_parts.lemma_flatten_push(last);
        let before = line_ops(fewer, pad);
        let o1 = if lines.len() > 1 {
            before.push(TermOpView::Print(pad))
        } else {
            before
        };
        let o2 = o1.push(TermOpView::Print(lines.last()));
        let o3 = o2.push(TermOpView::ClearToLineEnd);
        let o4 = o3.push(TermOpView::NextLine(1));
        lemma_written_push(before, TermOpView::Print(pad));
        lemma_written_push(o1, TermOpView::Print(lines.last()));
        lemma_written_push(o2, TermOpView::ClearToLineEnd);
        lemma_written_push(o3, TermOpView::NextLine(1));
        assert(line_ops(lines, pad) =~= o4);
        assert(written(o4) =~= written(before) + last);
    }
}

/// What is written for a text is the text: its author in brackets, and then its
/// lines, which are the text itself with a newline at its end but for the blanks
/// before the later ones.
pub proof fn law_what_is_written_is_the_text(packet: PacketView, text: Seq<char>)
    requires
        packet.content == MessageView::Text(text),
    ensures
        ({
            let lines = split_lines(text);
            let pad = Seq::new(encode_utf8(packet.from).len() + 3, |i: int| ' ');
            &&& lines.map_values(|line: Seq<char>| line.push('\n')).flatten() == text.push('\n')
            &&& written(packet_ops(packet)) == "["@ + packet.from + "] "@ + Seq::new(
                lines.len(),
                |i: int|
                    if i == 0 {
                        lines[i].push('\n')
                    } else {
                        pad + lines[i].push('\n')
                    },
            ).flatten()
        }),
{
    let lines = split_lines(text);
    let pad = Seq::new(encode_utf8(packet.from).len() + 3, |i: int| ' ');
    law_lines_make_up_the_text(text);
    assert(pad =~= padding(packet.from));
    lemma_lines_written(lines, pad);
    let s0 = Seq::<TermOpView>::empty();
    let s1 = s0.push(TermOpView::Bold);
    let s2 = s1.push(TermOpView::Print("["@));
    let s3 = s2.push(TermOpView::Print(packet.from));
    let s4 = s3.push(TermOpView::Print("] "@));
    let s5 = s4.push(TermOpView::Reset);
    lemma_written_push(s0, TermOpView::Bold);
    lemma_written_push(s1, TermOpView::Print("["@));
    lemma_written_push(s2, TermOpView::Print(packet.from));
    lemma_written_push(s3, TermOpView::Print("] "@));
    lemma_written_push(s4, TermOpView::Reset);
    lemma_written_concat(s5, line_ops(lines, pad));
    assert(packet_ops(packet) =~= s5 + line_ops(lines, pad));
    assert(written(s5) =~= "["@ + packet.from + "] "@);
}

/// A newcomer on the screen, command by command; nothing is drawn for a packet
/// that is neither a text nor a newcomer.
pub proof fn law_newcomers_and_other_packets_on_the_screen(packet: PacketView)
    ensures
        packet.content == MessageView::NewUser ==> packet_ops(packet) == seq![
            TermOpView::Print(" |?| User "@),
            TermOpView::Bold,
            TermOpView::Print("["@),
            TermOpView::Print("unknowned"@),
            TermOpView::Print("]"@),
            TermOpView::Reset,
            TermOpView::Print(" has joined the room."@),
            TermOpView::NextLine(1),
        ],
        packet.content is Quit || packet.content is ServerQuit || packet.content is PromptUpdate
            || packet.content is PromptSend ==> packet_ops(packet).len() == 0,
{
}

/// How the lines of a prompt are drawn, line by line.
proof fn lemma_prompt_line_by_line(lines: Seq<Seq<char>>)
    ensures
        prompt_lines(lines) == Seq::new(
            lines.len(),
            |i: int|
                seq![
                    TermOpView::Print(
                        if i == 0 {
                            "message "@
                        } else {
                            "        "@
                        },
                    ),
                    TermOpView::Print("|"@),
                    TermOpView::Print(lines[i]),
                    TermOpView::ClearToLineEnd,
                    TermOpView::Print("\n"@),
                    TermOpView::Column(0),
                ],
        ).flatten(),
    decreases lines.len(),
{
    let parts = Seq::new(
        lines.len(),
        |i: int|
            seq![
                TermOpView::Print(
                    if i == 0 {
                        "message "@
                    } else {
                        "        "@
                    },
                ),
                TermOpView::Print("|"@),
                TermOpView::Print(lines[i]),
                TermOpView::ClearToLineEnd,
                TermOpView::Print("\n"@),
                TermOpView::Column(0),
            ],
    );
    if lines.len() > 0 {
        let fewer = lines.drop_last();
        let fewer_parts = Seq::new(
            fewer.len(),
            |i: int|
                seq![
                    TermOpView::Print(
                        if i == 0 {
                            "message "@
                        } else {
                            "        "@
                        },
                    ),
                    TermOpView::Print("|"@),
                    TermOpView::Print(fewer[i]),
                    TermOpView::ClearToLineEnd,
                    TermOpView::Print("\n"@),
                    TermOpView::Column(0),
                ],
        );
        let last = parts[parts.len() - 1];
        lemma_prompt_line_by_line(fewer);
        assert forall|i: int| 0 <= i < fewer.len() implies parts[i] == fewer_parts[i] by {
            assert(fewer[i] == lines[i]);
        }
        assert(parts =~= fewer_parts.push(last));
        fewer_parts.lemma_flatten_push(last);
        assert(prompt_lines(lines) =~= prompt_lines(fewer) + last);
    }
}

/// The prompt on the screen, command by command: a rule of thirty dashes, each
/// line whole and in order behind its label, nothing below, and the cursor moved
/// to where typing goes on.
pub proof fn law_prompt_is_drawn_line_by_line(p: PromptView)
    ensures
        ({
            let lines = p.lines;
            p.drawing() == seq![
                TermOpView::Column(0),
                TermOpView::Print(Seq::new(30, |i: int| '—')),
                TermOpView::ClearToLineEnd,
                TermOpView::Print("\n"@),
                TermOpView::Column(0),
            ] + Seq::new(
                lines.len(),
                |i: int|
                    seq![
                        TermOpView::Print(
                            if i == 0 {
                                "message "@
                            } else {
                                "        "@
                            },
                        ),
                        TermOpView::Print("|"@),
                        TermOpView::Print(lines[i]),
                        TermOpView::ClearToLineEnd,
                        TermOpView::Print("\n"@),
                        TermOpView::Column(0),
                    ],
            ).flatten() + seq![
                TermOpView::ClearBelow,
                TermOpView::PreviousLine(lines.len() as int % 65536 - p.row),
                TermOpView::Column(9 + p.at()),
                TermOpView::Flush,
            ]
        }),
        p.way_back() == seq![TermOpView::PreviousLine(p.row + 1)],
        p.can_draw() <==> p.row <= p.lines.len() as int % 65536 && p.at() <= 65526,
        p.can_rewind() <==> p.row < 65535,
{
    assert(rule() =~= Seq::new(30, |i: int| '—'));
    lemma_prompt_line_by_line(p.lines);
}

/// The terminal's cursor stands where typing goes on: on the line being edited,
/// and in the column of the character before which the next one goes in, which
/// is as far behind the label as the prompt's cursor is into its line.
pub proof fn law_cursor_stands_where_typing_goes_on(p: PromptView)
    requires
        p.wf(),
    ensures
        column(p.drawing()) == ("message "@ + "|"@).len() + p.at(),
        column(p.drawing()) == ("        "@ + "|"@).len() + p.at(),
        p.lines.len() <= u16::MAX && (forall|i: int|
            0 <= i < p.lines.len() ==> !(#[trigger] p.lines[i]).contains('\n')) ==> rows(
            p.drawing(),
        ) == 1 + p.row,
{
    law_labels_are_nine_columns_wide();
    let ops = p.drawing();
    assert(ops.last() == TermOpView::Flush);
    assert(ops.drop_last().last() == TermOpView::Column(9 + p.at()));
    assert(column(ops) == column(ops.drop_last()));
    if p.lines.len() <= u16::MAX && (forall|i: int|
        0 <= i < p.lines.len() ==> !(#[trigger] p.lines[i]).contains('\n')) {
        law_prompt_is_drawn_in_place(p);
    }
}

/// The values of commands are those of the commands, one for one.
pub proof fn law_values_of_commands(ops: Seq<TermOp>, text: String, n: u16)
    ensures
        op_views(ops).len() == ops.len(),
        forall|i: int| 0 <= i < ops.len() ==> #[trigger] op_views(ops)[i] == ops[i]@,
        TermOp::Print(text)@ == TermOpView::Print(text@),
        TermOp::Bold@ == TermOpView::Bold,
        TermOp::Reset@ == TermOpView::Reset,
        TermOp::NextLine(n)@ == TermOpView::NextLine(n as int),
        TermOp::PreviousLine(n)@ == TermOpView::PreviousLine(n as int),
        TermOp::Column(n)@ == TermOpView::Column(n as int),
        TermOp::ClearToLineEnd@ == TermOpView::ClearToLineEnd,
        TermOp::ClearBelow@ == TermOpView::ClearBelow,
        TermOp::Flush@ == TermOpView::Flush,
{
}

} // verus!

//! The prompt: the lines being typed and the place where typing goes on.
//!
//! Cursor positions are 16-bit numbers and line lengths are cut down to 16 bits
//! before they are compared with one, as [`narrow`] says.

use vstd::prelude::*;
use vstd::string::StringExecFns;
use vstd::utf8::is_ascii_chars;

use crate::keys::Key;
use crate::terminal::{op_views, TermOp, TermOpView};
use crate::text::{
    byte_len, join_lines, joined, lemma_joined_ascii, repeated, trim_end, trimmed, views,
};

verus! {

/// `n` as a 16-bit number: what is left of it modulo 2^16.
pub open spec fn narrow(n: nat) -> int {
    n as int % 65536
}

/// The mathematical value of a [`Prompt`].
pub struct PromptView {
    /// The lines, first to last.
    pub lines: Seq<Seq<char>>,
    /// The column asked for; it may lie beyond the end of the line.
    pub col: int,
    /// The index of the line that is being edited.
    pub row: int,
}

impl PromptView {
    /// A prompt with nothing typed.
    pub open spec fn fresh() -> PromptView {
        PromptView { lines: seq![Seq::<char>::empty()], col: 0, row: 0 }
    }

    /// The line being edited exists, all lines are ASCII, and the cursor fits in
    /// its 16-bit fields.
    pub open spec fn wf(self) -> bool {
        &&& 0 <= self.row < self.lines.len()
        &&& self.row <= u16::MAX
        &&& 0 <= self.col <= u16::MAX
        &&& forall|i: int| 0 <= i < self.lines.len() ==> is_ascii_chars(#[trigger] self.lines[i])
    }

    /// The line being edited.
    pub open spec fn line(self) -> Seq<char> {
        self.lines[self.row]
    }

    /// The length of the line being edited, as a 16-bit number.
    pub open spec fn width(self) -> int {
        narrow(self.line().len())
    }

    /// The number of lines, as a 16-bit number.
    pub open spec fn height(self) -> int {
        narrow(self.lines.len())
    }

    /// The column where typing goes on: the one asked for, or the end of the
    /// line where the line is shorter.
    pub open spec fn at(self) -> int {
        if self.col <= self.width() {
            self.col
        } else {
            self.width()
        }
    }

    /// One step to the left; from the start of a line, to the end of the line
    /// above.
    pub open spec fn left(self) -> PromptView {
        if self.at() == 0 && self.row > 0 {
            PromptView {
                col: narrow(self.lines[self.row - 1].len()),
                row: self.row - 1,
                ..self
            }
        } else if self.at() == 0 {
            PromptView { col: 0, ..self }
        } else {
            PromptView { col: self.at() - 1, ..self }
        }
    }

    /// Whether a step to the right leads to the line below.
    pub open spec fn wraps_right(self) -> bool {
        self.at() == self.width() && self.row < self.height() - 1
    }

    /// One step to the right; from the end of a line, to the start of the line
    /// below, if there is one.
    pub open spec fn right(self) -> PromptView {
        if self.wraps_right() {
            PromptView { col: 0, row: self.row + 1, ..self }
        } else {
            PromptView { col: self.col + 1, ..self }
        }
    }

    /// Whether a step to the right stays within 16-bit arithmetic.
    pub open spec fn can_right(self) -> bool {
        &&& self.at() == self.width() ==> self.height() > 0
        &&& self.wraps_right() || self.col < u16::MAX
    }

    /// One line up, if there is one.
    pub open spec fn up(self) -> PromptView {
        if self.row > 0 {
            PromptView { row: self.row - 1, ..self }
        } else {
            self
        }
    }

    /// One line down, but not below the last line.
    pub open spec fn down(self) -> PromptView {
        if self.row + 1 < self.height() {
            PromptView { row: self.row + 1, ..self }
        } else {
            PromptView { row: self.height() - 1, ..self }
        }
    }

    /// Whether a line down stays within 16-bit arithmetic.
    pub open spec fn can_down(self) -> bool {
        self.row < u16::MAX && self.height() > 0
    }

    /// Whether a character is one that the prompt takes: one that UTF-8 encodes
    /// in a single byte.
    pub open spec fn takes(ch: char) -> bool {
        ch <= '\u{7f}'
    }

    /// The character typed at the cursor, where the prompt takes it.
    pub open spec fn put(self, ch: char) -> PromptView {
        if PromptView::takes(ch) {
            PromptView {
                lines: self.lines.update(self.row, self.line().insert(self.at(), ch)),
                col: self.at() + 1,
                ..self
            }
        } else {
            self
        }
    }

    /// Whether typing a character stays within 16-bit arithmetic.
    pub open spec fn can_put(self, ch: char) -> bool {
        PromptView::takes(ch) ==> self.at() < u16::MAX
    }

    /// The character before the cursor erased; at the start of a line, the line
    /// joined to the one above, with the cursor where they meet.
    pub open spec fn erased(self) -> PromptView {
        if self.at() > 0 {
            PromptView {
                lines: self.lines.update(self.row, self.line().remove(self.at() - 1)),
                col: self.col - 1,
                ..self
            }
        } else if self.row > 0 {
            PromptView {
                lines: self.lines.update(
                    self.row - 1,
                    self.lines[self.row - 1] + self.line(),
                ).remove(self.row),
                col: narrow(self.lines[self.row - 1].len()),
                row: self.row - 1,
            }
        } else {
            self
        }
    }

    /// The line broken at the cursor, which moves to the start of the new line.
    pub open spec fn broken(self) -> PromptView {
        PromptView {
            lines: self.lines.update(self.row, self.line().take(self.at())).insert(
                self.row + 1,
                self.line().skip(self.at()),
            ),
            col: 0,
            row: self.row + 1,
        }
    }

    /// Whether breaking the line stays within 16-bit arithmetic.
    pub open spec fn can_break(self) -> bool {
        self.row < u16::MAX
    }

    /// How the prompt is drawn: a rule, the lines, and the cursor put where
    /// typing goes on.
    pub open spec fn drawing(self) -> Seq<TermOpView> {
        seq![
            TermOpView::Column(0),
            TermOpView::Print(rule()),
            TermOpView::ClearToLineEnd,
            TermOpView::Print("\n"@),
            TermOpView::Column(0),
        ] + prompt_lines(self.lines) + seq![
            TermOpView::ClearBelow,
            TermOpView::PreviousLine(self.height() - self.row),
            TermOpView::Column(9 + self.at()),
            TermOpView::Flush,
        ]
    }

    /// Whether drawing stays within 16-bit arithmetic.
    pub open spec fn can_draw(self) -> bool {
        self.row <= self.height() && 9 + self.at() <= u16::MAX
    }

    /// The way back from the cursor of the drawn prompt to its rule.
    pub open spec fn way_back(self) -> Seq<TermOpView> {
        seq![TermOpView::PreviousLine(self.row + 1)]
    }

    /// Whether the way back stays within 16-bit arithmetic.
    pub open spec fn can_rewind(self) -> bool {
        self.row < u16::MAX
    }

    /// What is sent when the prompt is sent: the lines, with a newline between
    /// them, and without the white space at the end.
    pub open spec fn content(self) -> Seq<char> {
        trimmed(joined(self.lines))
    }
}

/// The rule above the prompt.
pub open spec fn rule() -> Seq<char> {
    Seq::new(30, |i: int| '—')
}

/// How the lines of a prompt are drawn.
pub open spec fn prompt_lines(lines: Seq<Seq<char>>) -> Seq<TermOpView>
    decreases lines.len(),
{
    if lines.len() == 0 {
        Seq::empty()
    } else {
        let label = if lines.len() == 1 {
            "message "@
        } else {
            "        "@
        };
        prompt_lines(lines.drop_last()) + seq![
            TermOpView::Print(label),
            TermOpView::Print("|"@),
            TermOpView::Print(lines.last()),
            TermOpView::ClearToLineEnd,
            TermOpView::Print("\n"@),
            TermOpView::Column(0),
        ]
    }
}

/// The lines being typed, with a cursor `(column, line)`.
pub struct Prompt {
    text: Vec<String>,
    cursor: (u16, u16),
}

impl View for Prompt {
    type V = PromptView;

    closed spec fn view(&self) -> PromptView {
        PromptView {
            lines: views(self.text@),
            col: self.cursor.0 as int,
            row: self.cursor.1 as int,
        }
    }
}

/// The lower 16 bits of a length.
fn narrowed(n: usize) -> (r: u16)
    ensures
        r == narrow(n as nat),
{
    assert(n as u16 == n % 65536) by (bit_vector);
    #[verifier::truncate]
    (n as u16)
}

impl Prompt {
    /// The prompt is in a state that its operations keep.
    pub open spec fn wf(&self) -> bool {
        self@.wf()
    }

    /// An empty prompt.
    pub fn new() -> (prompt: Prompt)
        ensures
            prompt.wf(),
            prompt@ == PromptView::fresh(),
    {
        let prompt = Prompt { text: vec!["".to_owned()], cursor: (0, 0) };
        proof {
            reveal_strlit("");
            assert(""@ =~= Seq::<char>::empty());
            assert(prompt@.lines =~= PromptView::fresh().lines);
        }
        prompt
    }

    /// Throws away all that was typed.
    pub fn clear(&mut self)
        ensures
            final(self).wf(),
            final(self)@ == PromptView::fresh(),
    {
        self.text.clear();
        self.text.push("".to_owned());
        self.cursor = (0, 0);
        proof {
            reveal_strlit("");
            assert(""@ =~= Seq::<char>::empty());
            assert(self@.lines =~= PromptView::fresh().lines);
        }
    }

    /// What has been typed, as it is sent.
    pub fn text(&self) -> (content: String)
        requires
            self.wf(),
        ensures
            content@ == self@.content(),
    {
        let mut all = join_lines(&self.text);
        proof {
            lemma_joined_ascii(self@.lines);
        }
        trim_end(&mut all);
        all
    }

    /// The cursor, `(column, line)`, with the column inside the line.
    pub fn cursor(&self) -> (cursor: (u16, u16))
        requires
            self.wf(),
        ensures
            cursor.0 == self@.at(),
            cursor.1 == self@.row,
    {
        assert(self@.lines[self@.row] == self.text@[self@.row]@);
        let line_len: u16 = narrowed(byte_len(&self.text[self.cursor.1 as usize]));
        let col: u16 = if self.cursor.0 <= line_len {
            self.cursor.0
        } else {
            line_len
        };
        (col, self.cursor.1)
    }

    /// Draws the prompt.
    pub fn print(&self) -> (ops: Vec<TermOp>)
        requires
            self.wf(),
            self@.can_draw(),
        ensures
            op_views(ops@) == self@.drawing(),
    {
        let mut ops: Vec<TermOp> = Vec::new();
        ops.push(TermOp::Column(0));
        ops.push(TermOp::Print(repeated('—', 30)));
        ops.push(TermOp::ClearToLineEnd);
        ops.push(TermOp::Print("\n".to_owned()));
        ops.push(TermOp::Column(0));
        let ghost head = op_views(ops@);
        let ghost lines = self@.lines;
        assert(head =~= head + prompt_lines(lines.take(0)));
        assert(ops@[1]@ == TermOpView::Print(rule()));
        let mut num: usize = 0;
        while num < self.text.len()
            invariant
                num <= self.text.len(),
                lines == views(self.text@),
                op_views(ops@) == head + prompt_lines(lines.take(num as int)),
            decreases self.text.len() - num,
        {
            let ghost before = op_views(ops@);
            if num == 0 {
                ops.push(TermOp::Print("message ".to_owned()));
            } else {
                ops.push(TermOp::Print("        ".to_owned()));
            }
            ops.push(TermOp::Print("|".to_owned()));
            ops.push(TermOp::Print(self.text[num].clone()));
            ops.push(TermOp::ClearToLineEnd);
            ops.push(TermOp::Print("\n".to_owned()));
            ops.push(TermOp::Column(0));
            proof {
                let shown = lines.take(num + 1);
                assert(shown.drop_last() =~= lines.take(num as int));
                assert(shown.last() == lines[num as int]);
                let line = seq![
                    TermOpView::Print(
                        if num == 0 {
                            "message "@
                        } else {
                            "        "@
                        },
                    ),
                    TermOpView::Print("|"@),
                    TermOpView::Print(shown.last()),
                    TermOpView::ClearToLineEnd,
                    TermOpView::Print("\n"@),
                    TermOpView::Column(0),
                ];
                assert(op_views(ops@) =~= before + line);
                assert(op_views(ops@) =~= head + (prompt_lines(shown.drop_last()) + line));
            }
            num += 1;
        }
        assert(lines.take(lines.len() as int) =~= lines);
        let ghost before = op_views(ops@);
        ops.push(TermOp::ClearBelow);
        let cursor: (u16, u16) = self.cursor();
        ops.push(TermOp::PreviousLine(narrowed(self.text.len()) - cursor.1));
        ops.push(TermOp::Column(9 + cursor.0));
        ops.push(TermOp::Flush);
        proof {
            let tail = seq![
                TermOpView::ClearBelow,
                TermOpView::PreviousLine(self@.height() - self@.row),
                TermOpView::Column(9 + self@.at()),
                TermOpView::Flush,
            ];
            assert(op_views(ops@) =~= before + tail);
            assert(op_views(ops@) =~= self@.drawing());
        }
        ops
    }

    /// Goes back from the cursor of the drawn prompt to its rule, so that what
    /// is drawn next takes its place.
    pub fn rewind(&self) -> (ops: Vec<TermOp>)
        requires
            self.wf(),
            self@.can_rewind(),
        ensures
            op_views(ops@) == self@.way_back(),
    {
        let ops: Vec<TermOp> = vec![TermOp::PreviousLine(self.cursor.1 + 1)];
        assert(op_views(ops@) =~= self@.way_back());
        ops
    }

    /// Whether a key press stays within 16-bit arithmetic.
    pub fn accepts(&self, key: Key) -> (r: bool)
        requires
            self.wf(),
        ensures
            r == self@.can_press(key),
    {
        let at: u16 = self.cursor().0;
        match key {
            Key::Char(ch) => ch > '\u{7f}' || at < u16::MAX,
            Key::Enter => self.cursor.1 < u16::MAX,
            Key::Down => self.cursor.1 < u16::MAX && narrowed(self.text.len()) > 0,
            Key::Right => {
                assert(self@.lines[self@.row] == self.text@[self@.row]@);
                let line_len: u16 = narrowed(byte_len(&self.text[self.cursor.1 as usize]));
                let num_lines: u16 = narrowed(self.text.len());
                if at == line_len {
                    num_lines > 0 && (self.cursor.1 < num_lines - 1 || self.cursor.0 < u16::MAX)
                } else {
                    self.cursor.0 < u16::MAX
                }
            },
            _ => true,
        }
    }

    /// Whether drawing the prompt, and going back to its rule, stays within
    /// 16-bit arithmetic.
    pub fn drawable(&self) -> (r: bool)
        requires
            self.wf(),
        ensures
            r == (self@.can_draw() && self@.can_rewind()),
    {
        let cursor: (u16, u16) = self.cursor();
        cursor.1 <= narrowed(self.text.len()) && cursor.0 <= u16::MAX - 9 && cursor.1 < u16::MAX
    }

    /// Moves the cursor one step to the left.
    pub fn move_cursor_left(&mut self)
        requires
            old(self).wf(),
        ensures
            final(self).wf(),
            final(self)@ == old(self)@.left(),
    {
        let at: (u16, u16) = self.cursor();
        if at.0 == 0 && self.cursor.1 > 0 {
            self.cursor.1 = self.cursor.1 - 1;
            assert(self@.lines[self@.row] == self.text@[self@.row]@);
            self.cursor.0 = narrowed(byte_len(&self.text[self.cursor.1 as usize]));
        } else {
            self.cursor.0 = at.0.saturating_sub(1);
        }
    }

    /// Moves the cursor one step to the right. On the last line the column goes
    /// on beyond the end of the line.
    pub fn move_cursor_right(&mut self)
        requires
            old(self).wf(),
            old(self)@.can_right(),
        ensures
            final(self).wf(),
            final(self)@ == old(self)@.right(),
    {
        assert(self@.lines[self@.row] == self.text@[self@.row]@);
        let line_len: u16 = narrowed(byte_len(&self.text[self.cursor.1 as usize]));
        let num_lines: u16 = narrowed(self.text.len());
        if self.cursor().0 == line_len && self.cursor.1 < num_lines - 1 {
            self.cursor.1 = self.cursor.1 + 1;
            self.cursor.0 = 0;
        } else {
            self.cursor.0 = self.cursor.0 + 1;
        }
    }

    /// Moves the cursor one line up.
    pub fn move_cursor_up(&mut self)
        requires
            old(self).wf(),
        ensures
            final(self).wf(),
            final(self)@ == old(self)@.up(),
    {
        self.cursor.1 = self.cursor.1.saturating_sub(1);
    }

    /// Moves the cursor one line down.
    pub fn move_cursor_down(&mut self)
        requires
            old(self).wf(),
            old(self)@.can_down(),
        ensures
            final(self).wf(),
            final(self)@ == old(self)@.down(),
    {
        let last: u16 = narrowed(self.text.len()) - 1;
        let next: u16 = self.cursor.1 + 1;
        self.cursor.1 = if next <= last {
            next
        } else {
            last
        };
    }

    /// Types a character, if it is one that UTF-8 encodes in a single byte.
    pub fn put_char(&mut self, ch: char)
        requires
            old(self).wf(),
            old(self)@.can_put(ch),
        ensures
            final(self).wf(),
            final(self)@ == old(self)@.put(ch),
    {
        if ch <= '\u{7f}' {
            let cursor: (u16, u16) = self.cursor();
            let ghost before = self@;
            assert(self@.lines[self@.row] == self.text@[self@.row]@);
            self.text[cursor.1 as usize].insert(cursor.0 as usize, ch);
            self.cursor = (cursor.0 + 1, cursor.1);
            proof {
                let line = before.line().insert(before.at(), ch);
                assert(self@.lines =~= before.lines.update(before.row, line));
                assert(is_ascii_chars(line));
            }
        }
    }

    /// Erases the character before the cursor, or the line break there.
    pub fn backspace(&mut self)
        requires
            old(self).wf(),
        ensures
            final(self).wf(),
            final(self)@ == old(self)@.erased(),
    {
        let ghost before = self@;
        assert(before.lines[before.row] == self.text@[before.row]@);
        let at: u16 = self.cursor().0;
        if at == 0 {
            if self.cursor.1 > 0 {
                let cur_vpos: usize = self.cursor.1 as usize;
                let new_vpos: usize = cur_vpos - 1;
                assert(before.lines[before.row - 1] == self.text@[before.row - 1]@);
                let new_hpos: u16 = narrowed(byte_len(&self.text[new_vpos]));
                let cur_line = self.text[cur_vpos].clone();
                self.text[new_vpos].append(cur_line.as_str());
                self.text.remove(cur_vpos);
                self.cursor = (new_hpos, new_vpos as u16);
                proof {
                    let line = before.lines[before.row - 1] + before.line();
                    assert(self@.lines =~= before.lines.update(before.row - 1, line).remove(
                        before.row,
                    ));
                    assert(is_ascii_chars(line));
                }
            }
        } else {
            let pos: usize = at as usize - 1;
            self.text[self.cursor.1 as usize].remove(pos);
            self.cursor.0 = self.cursor.0 - 1;
            proof {
                let line = before.line().remove(before.at() - 1);
                assert(self@.lines =~= before.lines.update(before.row, line));
                assert(is_ascii_chars(line));
            }
        }
    }

    /// Breaks the line at the cursor.
    pub fn newline(&mut self)
        requires
            old(self).wf(),
            old(self)@.can_break(),
        ensures
            final(self).wf(),
            final(self)@ == old(self)@.broken(),
    {
        let ghost before = self@;
        assert(before.lines[before.row] == self.text@[before.row]@);
        let split_pos: usize = self.cursor().0 as usize;
        let new_line = self.text[self.cursor.1 as usize].split_off(split_pos);
        self.text.insert(self.cursor.1 as usize + 1, new_line);
        self.cursor = (0, self.cursor.1 + 1);
        proof {
            let kept = before.line().take(before.at());
            let moved = before.line().skip(before.at());
            assert(self@.lines =~= before.lines.update(before.row, kept).insert(
                before.row + 1,
                moved,
            ));
            assert(is_ascii_chars(kept));
            assert(is_ascii_chars(moved));
        }
    }
}

} // verus!

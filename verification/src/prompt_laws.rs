//! What holds of the prompt as a whole.

use vstd::prelude::*;
use vstd::utf8::{encode_scalar, encode_utf8, is_ascii_chars};

use crate::keys::Key;
use crate::prompt::{narrow, PromptView};
use crate::text::{
    joined, law_joined_is_all_lines, law_lines_of_a_text, law_only_white_space_is_cut_off,
    lemma_joined_concat, lemma_joined_one, split_lines, trimmed,
};

verus! {

/// Whether two prompts look the same: the same lines, and the cursor at the same
/// place.
pub open spec fn alike(p: PromptView, q: PromptView) -> bool {
    p.lines == q.lines && p.row == q.row && p.at() == q.at()
}

/// Every key leaves a prompt in order that was in order.
pub proof fn law_keys_keep_order(p: PromptView, key: Key)
    requires
        p.wf(),
        p.can_press(key),
    ensures
        p.pressed(key).wf(),
{
    let q = p.pressed(key);
    assert forall|i: int| 0 <= i < q.lines.len() implies is_ascii_chars(#[trigger] q.lines[i]) by {
        match key {
            Key::Char(_) | Key::Backspace | Key::Enter => {
                assert(is_ascii_chars(p.line()));
                if p.row > 0 {
                    assert(is_ascii_chars(p.lines[p.row - 1]));
                }
                if 0 <= i < p.lines.len() {
                    assert(is_ascii_chars(p.lines[i]));
                }
                if 0 < i {
                    assert(i - 1 < p.lines.len() ==> is_ascii_chars(p.lines[i - 1]));
                }
                if i + 1 < p.lines.len() {
                    assert(is_ascii_chars(p.lines[i + 1]));
                }
            },
            _ => {},
        }
    }
}

/// The arrows move the cursor and leave what was typed as it is.
pub proof fn law_arrows_keep_the_text(p: PromptView, key: Key)
    requires
        key == Key::Up || key == Key::Down || key == Key::Left || key == Key::Right,
    ensures
        p.pressed(key).lines == p.lines,
        p.pressed(key).content() == p.content(),
{
}

/// Backspace undoes a character that was typed. (A line of 65535 characters is
/// left out: one more, and its length is 0 in 16 bits.)
pub proof fn law_backspace_undoes_a_character(p: PromptView, ch: char)
    requires
        p.wf(),
        PromptView::takes(ch),
        p.can_put(ch),
        p.width() != u16::MAX,
    ensures
        alike(p.put(ch).erased(), p),
{
    let q = p.put(ch);
    assert(q.line() == p.line().insert(p.at(), ch));
    assert(q.width() == p.width() + 1);
    assert(q.at() == p.at() + 1);
    assert(q.line().remove(p.at()) =~= p.line());
    assert(q.erased().lines =~= p.lines);
}

/// Backspace undoes a line break that was typed.
pub proof fn law_backspace_undoes_a_line_break(p: PromptView)
    requires
        p.wf(),
        p.can_break(),
    ensures
        alike(p.broken().erased(), p),
{
    let q = p.broken();
    assert(q.lines[p.row] == p.line().take(p.at()));
    assert(q.line() == p.line().skip(p.at()));
    assert(q.lines[p.row] + q.line() =~= p.line());
    assert(q.erased().lines =~= p.lines);
}

/// A step to the left undoes a step to the right, but for one at the end of the
/// last line, where there is nothing to step to. (In a prompt whose first line
/// is empty neither leads anywhere, unless to a line below.)
pub proof fn law_left_undoes_right(p: PromptView)
    requires
        p.wf(),
        p.can_right(),
        p.at() < p.width() || p.wraps_right() || (p.row == 0 && p.width() == 0),
    ensures
        alike(p.right().left(), p),
{
}

/// A step to the right undoes a step to the left, but for one at the start of
/// the first line, where there is nothing to step to, unless the prompt is empty.
/// (From the start of a line the step leads up; the line has to be one that a
/// step down reaches.)
pub proof fn law_right_undoes_left(p: PromptView)
    requires
        p.wf(),
        p.at() > 0 || 0 < p.row < p.height() || (p.row == 0 && p.width() == 0 && p.height() == 1),
    ensures
        p.left().can_right(),
        alike(p.left().right(), p),
{
}

/// A line up undoes a line down, but for one on the last line, unless it is the
/// only one.
pub proof fn law_up_undoes_down(p: PromptView)
    requires
        p.wf(),
        p.row + 1 < p.height() || (p.row == 0 && p.height() == 1),
    ensures
        p.can_down(),
        p.down().up() == p,
{
}

/// A line down undoes a line up, but for one on the first line, unless it is the
/// only one. (The line has to be one that a step down reaches.)
pub proof fn law_down_undoes_up(p: PromptView)
    requires
        p.wf(),
        0 < p.row < p.height() || (p.row == 0 && p.height() == 1),
    ensures
        p.up().can_down(),
        p.up().down() == p,
{
}

/// Typing goes on inside the text, whatever column was asked for.
pub proof fn law_cursor_is_inside_the_text(p: PromptView)
    requires
        p.wf(),
    ensures
        0 <= p.at() <= p.line().len(),
        0 <= p.row < p.lines.len(),
{
}

/// A prompt that is far from the limits of its cursor takes every key, and can
/// be drawn.
pub proof fn law_ordinary_prompt_takes_every_key(p: PromptView, key: Key)
    requires
        p.wf(),
        p.lines.len() < u16::MAX,
        p.col < u16::MAX,
        p.line().len() <= u16::MAX - 9,
    ensures
        p.can_press(key),
        p.can_draw(),
        p.can_rewind(),
{
}

/// The prompt after a text has been typed into an empty one, each newline by
/// `Enter`.
pub open spec fn after_typing(s: Seq<char>) -> PromptView
    decreases s.len(),
{
    if s.len() == 0 {
        PromptView::fresh()
    } else {
        after_typing(s.drop_last()).pressed(key_for(s.last()))
    }
}

/// The key that types a character of a text.
pub open spec fn key_for(c: char) -> Key {
    if c == '\n' {
        Key::Enter
    } else {
        Key::Char(c)
    }
}

/// Whether a text is one that a prompt can hold: ASCII, and within the limits of
/// the cursor.
pub open spec fn typable(s: Seq<char>) -> bool {
    &&& is_ascii_chars(s)
    &&& split_lines(s).len() <= u16::MAX + 1
    &&& forall|i: int| 0 <= i < split_lines(s).len() ==> (#[trigger] split_lines(s)[i]).len()
        <= u16::MAX
}

/// The beginnings of what can be typed can be typed.
proof fn lemma_typable_prefix(s: Seq<char>)
    requires
        s.len() > 0,
        typable(s),
    ensures
        typable(s.drop_last()),
        split_lines(s.drop_last()).len() > 0,
        s.last() == '\n' ==> split_lines(s.drop_last()).len() <= u16::MAX,
        s.last() != '\n' ==> split_lines(s.drop_last()).last().len() < u16::MAX,
{
    let before = split_lines(s.drop_last());
    let lines = split_lines(s);
    law_lines_of_a_text(s.drop_last());
    assert forall|i: int| 0 <= i < before.len() implies (#[trigger] before[i]).len()
        <= u16::MAX by {
        assert(lines[i].len() <= u16::MAX);
    }
    if s.last() != '\n' {
        assert(lines[lines.len() - 1].len() == before.last().len() + 1);
    }
}

/// What is typed is what is sent: after a text has been typed into an empty
/// prompt, which takes each of its keys, the prompt holds the lines of the text,
/// with the cursor at their end; and `Tab` sends the text, without the white
/// space at its end.
pub proof fn law_what_is_typed_is_sent(s: Seq<char>)
    requires
        typable(s),
    ensures
        forall|k: int|
            0 <= k < s.len() ==> after_typing(#[trigger] s.take(k)).can_press(key_for(s[k])),
        after_typing(s).lines == split_lines(s),
        after_typing(s).row == split_lines(s).len() - 1,
        after_typing(s).at() == split_lines(s).last().len(),
        after_typing(s).col == split_lines(s).last().len(),
        after_typing(s).content() == trimmed(s),
    decreases s.len(),
{
    let q = after_typing(s);
    let lines = split_lines(s);
    law_lines_of_a_text(s);
    if s.len() == 0 {
    } else {
        lemma_typable_prefix(s);
        let before = split_lines(s.drop_last());
        let p = after_typing(s.drop_last());
        law_what_is_typed_is_sent(s.drop_last());
        assert(p.line() == before.last());
        if s.last() == '\n' {
            assert(p.line().take(p.at()) =~= p.line());
            assert(p.line().skip(p.at()) =~= Seq::empty());
            assert(q.lines =~= lines);
        } else {
            assert(s.last() == s[s.len() - 1]);
            assert(p.line().insert(p.at(), s.last()) =~= p.line().push(s.last()));
            assert(q.lines =~= lines);
        }
        assert(lines[lines.len() - 1].len() <= u16::MAX);
        assert forall|k: int| 0 <= k < s.len() implies after_typing(
            #[trigger] s.take(k),
        ).can_press(key_for(s[k])) by {
            if k < s.len() - 1 {
                assert(s.take(k) =~= s.drop_last().take(k));
                assert(s[k] == s.drop_last()[k]);
            } else {
                assert(s.take(k) =~= s.drop_last());
            }
        }
    }
    assert(s.push('\n').drop_last() =~= s);
    assert(trimmed(s.push('\n')) == trimmed(s));
}

/// A prompt is in order when its line exists, its cursor fits in 16 bits, and
/// every character of every line is ASCII.
pub proof fn law_what_order_is(p: PromptView)
    ensures
        p.wf() <==> {
            &&& 0 <= p.row < p.lines.len()
            &&& p.row <= 65535
            &&& 0 <= p.col <= 65535
            &&& forall|i: int, k: int|
                0 <= i < p.lines.len() && 0 <= k < p.lines[i].len() ==> 0 <= (
                #[trigger] p.lines[i][k]) as int <= 127
        },
{
    if p.wf() {
        assert forall|i: int, k: int|
            0 <= i < p.lines.len() && 0 <= k < p.lines[i].len() implies 0 <= (
        #[trigger] p.lines[i][k]) as int <= 127 by {
            assert(is_ascii_chars(p.lines[i]));
        }
    }
    if forall|i: int, k: int|
        0 <= i < p.lines.len() && 0 <= k < p.lines[i].len() ==> 0 <= (#[trigger] p.lines[i][k])
            as int <= 127 {
        assert forall|i: int| 0 <= i < p.lines.len() implies is_ascii_chars(
            #[trigger] p.lines[i],
        ) by {
            assert forall|k: int| 0 <= k < p.lines[i].len() implies '\0'
                <= #[trigger] p.lines[i][k] <= '\u{7f}' by {
                assert(0 <= p.lines[i][k] as int <= 127);
            }
        }
    }
}

/// Lengths are compared by their lower 16 bits: a length below 2^16 as it is, and
/// two lengths that are 2^16 apart alike.
pub proof fn law_lower_bits(n: nat)
    ensures
        n < 65536 ==> narrow(n) == n,
        narrow(n + 65536) == narrow(n),
        0 <= narrow(n) < 65536,
        narrow(n) == n as int % 65536,
{
}

/// Typing goes on at the column asked for, where the line reaches that far, and
/// at the end of the line otherwise.
pub proof fn law_where_typing_goes_on(p: PromptView)
    ensures
        p.line() == p.lines[p.row],
        p.width() == p.lines[p.row].len() as int % 65536,
        p.height() == p.lines.len() as int % 65536,
        p.col <= p.lines[p.row].len() as int % 65536 ==> p.at() == p.col,
        p.col > p.lines[p.row].len() as int % 65536 ==> p.at() == p.lines[p.row].len() as int
            % 65536,
{
}

/// An empty prompt has one line, with nothing in it, and the cursor before it.
pub proof fn law_empty_prompt()
    ensures
        PromptView::fresh().lines.len() == 1,
        PromptView::fresh().lines[0].len() == 0,
        PromptView::fresh().row == 0,
        PromptView::fresh().col == 0,
{
}

/// The characters that the prompt takes are those that UTF-8 encodes in one
/// byte.
pub proof fn law_what_the_prompt_takes(ch: char)
    ensures
        PromptView::takes(ch) <==> encode_utf8(seq![ch]).len() == 1,
        PromptView::takes(ch) <==> ch as int <= 127,
{
    let one = seq![ch];
    assert(one.drop_first() =~= Seq::empty());
    reveal_with_fuel(encode_utf8, 2);
    assert(encode_utf8(one).len() == encode_scalar(ch as u32).len());
}

/// A character that is typed stands at the cursor: the line is then what was
/// before the cursor, the character, and what was behind the cursor. The other
/// lines are as they were, and typing goes on behind the character. A character
/// that takes more than one byte changes nothing.
pub proof fn law_typed_character_stands_at_the_cursor(p: PromptView, ch: char)
    requires
        p.wf(),
    ensures
        ch as int <= 127 ==> {
            let line = p.lines[p.row];
            let q = p.put(ch);
            &&& q.lines.len() == p.lines.len()
            &&& q.lines[p.row] == line.take(p.at()) + seq![ch] + line.skip(p.at())
            &&& forall|i: int|
                0 <= i < p.lines.len() && i != p.row ==> #[trigger] q.lines[i] == p.lines[i]
            &&& q.row == p.row
            &&& q.col == p.at() + 1
        },
        ch as int > 127 ==> p.put(ch) == p,
        p.can_put(ch) <==> (ch as int <= 127 ==> p.at() < 65535),
{
    let line = p.lines[p.row];
    assert(line.insert(p.at(), ch) =~= line.take(p.at()) + seq![ch] + line.skip(p.at()));
}

/// Backspace takes the character before the cursor out of the line, and leaves
/// the rest. At the start of a line it takes the line break out: the line goes
/// behind the one above, and the cursor stands where they meet. At the start of
/// the first line it does nothing.
pub proof fn law_backspace_takes_out_what_is_before_the_cursor(p: PromptView)
    requires
        p.wf(),
    ensures
        p.at() > 0 ==> {
            let line = p.lines[p.row];
            let q = p.erased();
            &&& q.lines.len() == p.lines.len()
            &&& q.lines[p.row] == line.take(p.at() - 1) + line.skip(p.at())
            &&& forall|i: int|
                0 <= i < p.lines.len() && i != p.row ==> #[trigger] q.lines[i] == p.lines[i]
            &&& q.row == p.row
            &&& q.col == p.col - 1
        },
        p.at() == 0 && p.row > 0 ==> {
            let q = p.erased();
            &&& q.lines == p.lines.take(p.row - 1) + seq![p.lines[p.row - 1] + p.lines[p.row]]
                + p.lines.skip(p.row + 1)
            &&& q.row == p.row - 1
            &&& q.col == p.lines[p.row - 1].len() as int % 65536
        },
        p.at() == 0 && p.row == 0 ==> p.erased() == p,
{
    let line = p.lines[p.row];
    if p.at() > 0 {
        assert(line.remove(p.at() - 1) =~= line.take(p.at() - 1) + line.skip(p.at()));
    } else if p.row > 0 {
        assert(p.erased().lines =~= p.lines.take(p.row - 1) + seq![
            p.lines[p.row - 1] + p.lines[p.row],
        ] + p.lines.skip(p.row + 1));
    }
}

/// `Enter` cuts the line in two at the cursor: what was before the cursor stays,
/// what was behind it becomes the next line, and typing goes on at the start of
/// that one.
pub proof fn law_enter_cuts_the_line_at_the_cursor(p: PromptView)
    requires
        p.wf(),
    ensures
        p.broken().lines == p.lines.take(p.row) + seq![
            p.lines[p.row].take(p.at()),
            p.lines[p.row].skip(p.at()),
        ] + p.lines.skip(p.row + 1),
        p.broken().row == p.row + 1,
        p.broken().col == 0,
        p.can_break() <==> p.row < 65535,
{
    assert(p.broken().lines =~= p.lines.take(p.row) + seq![
        p.lines[p.row].take(p.at()),
        p.lines[p.row].skip(p.at()),
    ] + p.lines.skip(p.row + 1));
}

/// Where the arrows lead. Left and right go by one character, and over the ends
/// of the lines; up and down go by one line, within the prompt, and keep the
/// column asked for. The text is left as it is.
pub proof fn law_where_the_arrows_lead(p: PromptView)
    requires
        p.wf(),
    ensures
        p.left().lines == p.lines && p.right().lines == p.lines,
        p.up().lines == p.lines && p.down().lines == p.lines,
        // Left.
        p.at() > 0 ==> p.left().row == p.row && p.left().col == p.at() - 1,
        p.at() == 0 && p.row > 0 ==> p.left().row == p.row - 1 && p.left().col
            == p.lines[p.row - 1].len() as int % 65536,
        p.at() == 0 && p.row == 0 ==> p.left().row == 0 && p.left().col == 0,
        // Right.
        p.at() < p.lines[p.row].len() as int % 65536 ==> p.right().row == p.row && p.right().col
            == p.at() + 1,
        p.at() == p.lines[p.row].len() as int % 65536 && p.row + 1 < p.lines.len() as int % 65536
            ==> p.right().row == p.row + 1 && p.right().col == 0,
        p.at() == p.lines[p.row].len() as int % 65536 && p.row + 1 >= p.lines.len() as int % 65536
            ==> p.right().row == p.row && p.right().col == p.col + 1,
        p.can_right() <==> {
            if p.at() < p.lines[p.row].len() as int % 65536 {
                p.col < 65535
            } else {
                &&& p.lines.len() as int % 65536 > 0
                &&& p.row + 1 < p.lines.len() as int % 65536 || p.col < 65535
            }
        },
        // Up and down.
        p.up().col == p.col && p.down().col == p.col,
        p.row > 0 ==> p.up().row == p.row - 1,
        p.row == 0 ==> p.up().row == 0,
        p.row + 1 < p.lines.len() as int % 65536 ==> p.down().row == p.row + 1,
        p.row + 1 >= p.lines.len() as int % 65536 ==> p.down().row == p.lines.len() as int % 65536
            - 1,
        p.can_down() <==> p.row < 65535 && p.lines.len() as int % 65536 > 0,
{
}

/// What is sent is what stands in the lines, one after the other with newlines
/// between them, up to the last character that is no white space.
pub proof fn law_what_stands_in_the_lines_is_sent(p: PromptView)
    ensures
        ({
            let all = p.lines.map_values(|line: Seq<char>| line.push('\n')).flatten();
            let sent = p.content();
            &&& sent.len() <= all.len()
            &&& sent == all.take(sent.len() as int)
            &&& sent.len() > 0 ==> {
                let end = sent[sent.len() - 1];
                end != ' ' && end != '\t' && end != '\n' && end != '\u{b}' && end != '\u{c}'
                    && end != '\r'
            }
            &&& forall|i: int|
                sent.len() <= i < all.len() ==> {
                    ||| #[trigger] all[i] == ' '
                    ||| all[i] == '\t'
                    ||| all[i] == '\n'
                    ||| all[i] == '\u{b}'
                    ||| all[i] == '\u{c}'
                    ||| all[i] == '\r'
                }
        }),
{
    law_joined_is_all_lines(p.lines);
    law_only_white_space_is_cut_off(joined(p.lines));
}

/// The place of the cursor in the whole text: how many characters stand before
/// it, line breaks among them.
pub open spec fn place(p: PromptView) -> int {
    p.lines.take(p.row).map_values(|line: Seq<char>| line.push('\n')).flatten().len() + p.at()
}

/// The whole text, with a line break behind each line.
pub open spec fn whole_text(p: PromptView) -> Seq<char> {
    p.lines.map_values(|line: Seq<char>| line.push('\n')).flatten()
}

/// A prompt whose lines and whose number are within the limits of the cursor.
pub open spec fn ordinary(p: PromptView) -> bool {
    &&& p.wf()
    &&& p.lines.len() <= 65535
    &&& forall|i: int| 0 <= i < p.lines.len() ==> (#[trigger] p.lines[i]).len() <= 65535
}

/// The whole text is what stands above the line, the line, and what stands below.
proof fn lemma_whole_text(p: PromptView)
    requires
        0 <= p.row < p.lines.len(),
    ensures
        whole_text(p) == joined(p.lines),
        whole_text(p) == joined(p.lines.take(p.row)) + p.lines[p.row].push('\n') + joined(
            p.lines.skip(p.row + 1),
        ),
        place(p) == joined(p.lines.take(p.row)).len() + p.at(),
{
    let above = p.lines.take(p.row);
    let line = seq![p.lines[p.row]];
    let below = p.lines.skip(p.row + 1);
    law_joined_is_all_lines(p.lines);
    law_joined_is_all_lines(above);
    assert(p.lines =~= above + line + below);
    lemma_joined_concat(above + line, below);
    lemma_joined_concat(above, line);
    lemma_joined_one(p.lines[p.row]);
}

/// One line more above the cursor.
proof fn lemma_above(lines: Seq<Seq<char>>, row: int)
    requires
        0 <= row < lines.len(),
    ensures
        joined(lines.take(row + 1)) == joined(lines.take(row)) + lines[row].push('\n'),
        joined(lines.skip(row)) == lines[row].push('\n') + joined(lines.skip(row + 1)),
{
    let line = seq![lines[row]];
    assert(lines.take(row + 1) =~= lines.take(row) + line);
    assert(lines.skip(row) =~= line + lines.skip(row + 1));
    lemma_joined_concat(lines.take(row), line);
    lemma_joined_concat(line, lines.skip(row + 1));
    lemma_joined_one(lines[row]);
}

/// The last line is followed by nothing.
proof fn lemma_below_last(lines: Seq<Seq<char>>)
    ensures
        joined(lines.skip(lines.len() as int)).len() == 0,
{
    assert(lines.skip(lines.len() as int) =~= Seq::empty());
}

/// Typing, in the whole text: the character goes in at the place of the cursor,
/// and the cursor goes on by one.
pub proof fn law_typing_in_the_whole_text(p: PromptView, ch: char)
    requires
        ordinary(p),
        ch as int <= 127,
        p.lines[p.row].len() < 65535,
    ensures
        whole_text(p.put(ch)) == whole_text(p).take(place(p)) + seq![ch] + whole_text(p).skip(
            place(p),
        ),
        place(p.put(ch)) == place(p) + 1,
{
    let q = p.put(ch);
    let line = p.lines[p.row];
    law_typed_character_stands_at_the_cursor(p, ch);
    lemma_whole_text(p);
    lemma_whole_text(q);
    assert(q.lines.take(p.row) =~= p.lines.take(p.row));
    assert(q.lines.skip(p.row + 1) =~= p.lines.skip(p.row + 1));
    assert(whole_text(q) =~= whole_text(p).take(place(p)) + seq![ch] + whole_text(p).skip(
        place(p),
    ));
}

/// `Enter`, in the whole text: a line break goes in at the place of the cursor,
/// and the cursor goes on by one.
pub proof fn law_enter_in_the_whole_text(p: PromptView)
    requires
        ordinary(p),
    ensures
        whole_text(p.broken()) == whole_text(p).take(place(p)) + seq!['\n'] + whole_text(p).skip(
            place(p),
        ),
        place(p.broken()) == place(p) + 1,
{
    let q = p.broken();
    let line = p.lines[p.row];
    law_enter_cuts_the_line_at_the_cursor(p);
    lemma_whole_text(p);
    lemma_whole_text(q);
    lemma_above(q.lines, p.row);
    assert(q.lines[p.row] == line.take(p.at()));
    assert(q.lines[p.row + 1] == line.skip(p.at()));
    assert(q.lines.take(p.row) =~= p.lines.take(p.row));
    assert(q.lines.skip(q.row + 1) =~= p.lines.skip(p.row + 1));
    assert(whole_text(q) =~= whole_text(p).take(place(p)) + seq!['\n'] + whole_text(p).skip(
        place(p),
    ));
}

/// A character out of a line is out of the text.
proof fn lemma_out_of_a_line(above: Seq<char>, line: Seq<char>, below: Seq<char>, k: int)
    requires
        0 < k <= line.len(),
    ensures
        ({
            let all = above + line.push('\n') + below;
            let at = above.len() + k;
            above + (line.take(k - 1) + line.skip(k)).push('\n') + below == all.take(at - 1)
                + all.skip(at)
        }),
{
    let all = above + line.push('\n') + below;
    let at = above.len() + k;
    assert(above + (line.take(k - 1) + line.skip(k)).push('\n') + below =~= all.take(at - 1)
        + all.skip(at));
}

/// Two lines made one are the text without the break between them.
proof fn lemma_out_of_a_break(
    above: Seq<char>,
    upper: Seq<char>,
    lower: Seq<char>,
    below: Seq<char>,
)
    ensures
        ({
            let all = above + upper.push('\n') + lower.push('\n') + below;
            let at = (above + upper.push('\n')).len() as int;
            above + (upper + lower).push('\n') + below == all.take(at - 1) + all.skip(at)
        }),
{
    let all = above + upper.push('\n') + lower.push('\n') + below;
    let at = (above + upper.push('\n')).len() as int;
    assert(above + (upper + lower).push('\n') + below =~= all.take(at - 1) + all.skip(at));
}

/// Backspace inside a line.
proof fn lemma_erased_in_line(p: PromptView)
    requires
        ordinary(p),
        p.at() > 0,
    ensures
        whole_text(p.erased()) == whole_text(p).take(place(p) - 1) + whole_text(p).skip(place(p)),
        place(p.erased()) == place(p) - 1,
{
    let q = p.erased();
    law_backspace_takes_out_what_is_before_the_cursor(p);
    lemma_whole_text(p);
    lemma_whole_text(q);
    assert(q.lines.take(p.row) =~= p.lines.take(p.row));
    assert(q.lines.skip(p.row + 1) =~= p.lines.skip(p.row + 1));
    lemma_out_of_a_line(
        joined(p.lines.take(p.row)),
        p.lines[p.row],
        joined(p.lines.skip(p.row + 1)),
        p.at(),
    );
    assert(p.lines[p.row].len() <= 65535);
    assert(q.lines[q.row].len() == p.lines[p.row].len() - 1);
}

/// Backspace at the start of a line.
proof fn lemma_erased_break(p: PromptView)
    requires
        ordinary(p),
        p.at() == 0,
        p.row > 0,
        p.lines[p.row - 1].len() + p.lines[p.row].len() <= 65535,
    ensures
        whole_text(p.erased()) == whole_text(p).take(place(p) - 1) + whole_text(p).skip(place(p)),
        place(p.erased()) == place(p) - 1,
{
    let q = p.erased();
    let above = p.lines.take(p.row - 1);
    let one = seq![p.lines[p.row - 1] + p.lines[p.row]];
    let below = p.lines.skip(p.row + 1);
    law_backspace_takes_out_what_is_before_the_cursor(p);
    lemma_whole_text(p);
    lemma_whole_text(q);
    lemma_above(p.lines, p.row - 1);
    assert(q.lines == above + one + below);
    assert(q.lines[q.row] == one[0]);
    assert(q.lines.take(q.row) =~= above);
    assert(q.lines.skip(q.row + 1) =~= below);
    lemma_out_of_a_break(
        joined(above),
        p.lines[p.row - 1],
        p.lines[p.row],
        joined(below),
    );
}

/// Backspace, in the whole text: the character before the place of the cursor
/// goes out, be it a line break, and the cursor goes back by one; where there is
/// none, nothing changes. (Two lines that are to be joined have to fit in one.)
pub proof fn law_backspace_in_the_whole_text(p: PromptView)
    requires
        ordinary(p),
        p.at() == 0 && p.row > 0 ==> p.lines[p.row - 1].len() + p.lines[p.row].len() <= 65535,
    ensures
        place(p) > 0 ==> {
            &&& whole_text(p.erased()) == whole_text(p).take(place(p) - 1) + whole_text(p).skip(
                place(p),
            )
            &&& place(p.erased()) == place(p) - 1
        },
        place(p) == 0 ==> p.erased() == p,
{
    let q = p.erased();
    law_backspace_takes_out_what_is_before_the_cursor(p);
    lemma_whole_text(p);
    if p.at() > 0 {
        lemma_erased_in_line(p);
    } else if p.row > 0 {
        lemma_erased_break(p);
    } else {
        assert(p.lines.take(0) =~= Seq::empty());
    }
}

/// Left and right, in the whole text: the cursor goes back or on by one
/// character, line breaks among them, as long as there is one; the text stays.
pub proof fn law_arrows_in_the_whole_text(p: PromptView)
    requires
        ordinary(p),
    ensures
        whole_text(p.left()) == whole_text(p),
        place(p) > 0 ==> place(p.left()) == place(p) - 1,
        place(p) == 0 ==> place(p.left()) == 0,
        whole_text(p.right()) == whole_text(p),
        place(p) + 1 < whole_text(p).len() ==> place(p.right()) == place(p) + 1,
        place(p) + 1 == whole_text(p).len() ==> place(p.right()) == place(p),
        place(p) < whole_text(p).len(),
{
    law_where_the_arrows_lead(p);
    lemma_whole_text(p);
    lemma_whole_text(p.left());
    lemma_whole_text(p.right());
    assert(p.lines.take(0) =~= Seq::empty());
    assert(p.lines[p.row].len() <= 65535);
    if p.row > 0 {
        lemma_above(p.lines, p.row - 1);
        assert(p.lines[p.row - 1].len() <= 65535);
    }
    lemma_above(p.lines, p.row);
    if p.row + 1 < p.lines.len() {
        lemma_above(p.lines, p.row + 1);
    } else {
        lemma_below_last(p.lines);
    }
}

/// The empty prompt has an empty text: one line break, with the cursor before it.
pub proof fn law_empty_prompt_in_the_whole_text()
    ensures
        whole_text(PromptView::fresh()) == seq!['\n'],
        place(PromptView::fresh()) == 0,
{
    let p = PromptView::fresh();
    lemma_whole_text(p);
    assert(p.lines =~= seq![p.lines[0]]);
    lemma_joined_one(p.lines[0]);
    assert(p.lines.take(0) =~= Seq::empty());
    assert(whole_text(p) =~= seq!['\n']);
}

} // verus!

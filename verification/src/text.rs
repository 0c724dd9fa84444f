//! Strings: the `std` operations that the room relies on, and the splitting
//! and trimming that it does itself.

use vstd::prelude::*;
use vstd::string::StringExecFns;
use vstd::utf8::{encode_utf8, is_ascii_chars, is_ascii_chars_encode_utf8};

verus! {

/// `String::insert`: on an ASCII string, where byte and character positions
/// agree, the character goes in at `idx` and what followed moves up by one.
pub assume_specification[ String::insert ](s: &mut String, idx: usize, ch: char)
    requires
        is_ascii_chars(old(s)@),
        idx <= old(s)@.len(),
    ensures
        final(s)@ == old(s)@.insert(idx as int, ch),
;

/// `String::remove`: on an ASCII string the character at `idx` goes out and is
/// handed back.
pub assume_specification[ String::remove ](s: &mut String, idx: usize) -> (ch: char)
    requires
        is_ascii_chars(old(s)@),
        idx < old(s)@.len(),
    ensures
        ch == old(s)@[idx as int],
        final(s)@ == old(s)@.remove(idx as int),
;

/// `String::split_off`: on an ASCII string the first `at` characters stay and
/// the rest is handed back.
pub assume_specification[ String::split_off ](s: &mut String, at: usize) -> (rest: String)
    requires
        is_ascii_chars(old(s)@),
        at <= old(s)@.len(),
    ensures
        final(s)@ == old(s)@.take(at as int),
        rest@ == old(s)@.skip(at as int),
;

/// `String::push`: the character goes to the end.
pub assume_specification[ String::push ](s: &mut String, ch: char)
    ensures
        final(s)@ == old(s)@.push(ch),
;

/// The characters of ASCII that count as white space.
pub open spec fn is_space(c: char) -> bool {
    c == ' ' || '\u{9}' <= c <= '\u{d}'
}

/// `s` without the white space at its end.
pub open spec fn trimmed(s: Seq<char>) -> Seq<char>
    decreases s.len(),
{
    if s.len() > 0 && is_space(s.last()) {
        trimmed(s.drop_last())
    } else {
        s
    }
}

/// The lines one after the other, each with a newline behind it.
pub open spec fn joined(lines: Seq<Seq<char>>) -> Seq<char>
    decreases lines.len(),
{
    if lines.len() == 0 {
        Seq::empty()
    } else {
        joined(lines.drop_last()) + lines.last() + seq!['\n']
    }
}

/// The lines of a text: the pieces between its newlines. There is one more of
/// them than there are newlines.
pub open spec fn split_lines(s: Seq<char>) -> Seq<Seq<char>>
    decreases s.len(),
{
    if s.len() == 0 {
        seq![Seq::empty()]
    } else {
        let before = split_lines(s.drop_last());
        if s.last() == '\n' {
            before.push(Seq::empty())
        } else {
            before.drop_last().push(before.last().push(s.last()))
        }
    }
}

/// The values of the strings of a list.
pub open spec fn views(list: Seq<String>) -> Seq<Seq<char>> {
    Seq::new(list.len(), |i: int| list[i]@)
}

/// What was joined out of ASCII lines is ASCII.
pub proof fn lemma_joined_ascii(lines: Seq<Seq<char>>)
    requires
        forall|i: int| 0 <= i < lines.len() ==> is_ascii_chars(#[trigger] lines[i]),
    ensures
        is_ascii_chars(joined(lines)),
    decreases lines.len(),
{
    if lines.len() > 0 {
        assert(lines.last() == lines[lines.len() - 1]);
        assert forall|i: int| 0 <= i < lines.drop_last().len() implies is_ascii_chars(
            #[trigger] lines.drop_last()[i],
        ) by {
            assert(lines.drop_last()[i] == lines[i]);
        }
        lemma_joined_ascii(lines.drop_last());
    }
}

/// The number of bytes of a string, which for an ASCII string is the number of
/// its characters.
pub(crate) fn byte_len(s: &String) -> (n: usize)
    ensures
        n == encode_utf8(s@).len(),
        is_ascii_chars(s@) ==> n == s@.len(),
{
    proof {
        if is_ascii_chars(s@) {
            is_ascii_chars_encode_utf8(s@);
        }
    }
    s.as_str().as_bytes().len()
}

/// Joins the lines, each followed by a newline.
pub(crate) fn join_lines(lines: &Vec<String>) -> (all: String)
    ensures
        all@ == joined(views(lines@)),
{
    let mut all = String::new();
    let mut i: usize = 0;
    while i < lines.len()
        invariant
            i <= lines.len(),
            all@ == joined(views(lines@).take(i as int)),
        decreases lines.len() - i,
    {
        all.append(lines[i].as_str());
        all.push('\n');
        proof {
            let next = views(lines@).take(i + 1);
            assert(next.drop_last() =~= views(lines@).take(i as int));
            assert(next.last() == lines@[i as int]@);
            assert(joined(next) =~= joined(next.drop_last()) + next.last() + seq!['\n']);
        }
        i += 1;
    }
    assert(views(lines@).take(lines@.len() as int) =~= views(lines@));
    all
}

/// Splits a text at its newlines.
pub(crate) fn split_newlines(s: &str) -> (lines: Vec<String>)
    ensures
        views(lines@) == split_lines(s@),
{
    let mut lines: Vec<String> = Vec::new();
    let mut line = String::new();
    assert(views(lines@).push(line@) =~= split_lines(s@.take(0)));
    for c in it: s.chars()
        invariant
            it.seq() == s@,
            views(lines@).push(line@) == split_lines(s@.take(it.index() as int)),
    {
        let ghost before = views(lines@).push(line@);
        proof {
            let read = s@.take(it.index() + 1);
            assert(read.drop_last() =~= s@.take(it.index() as int));
            assert(read.last() == c);
            assert(before.drop_last() =~= views(lines@));
        }
        if c == '\n' {
            lines.push(line);
            line = String::new();
            assert(views(lines@).push(line@) =~= before.push(Seq::empty()));
        } else {
            line.push(c);
            assert(views(lines@).push(line@) =~= before.drop_last().push(before.last().push(c)));
        }
    }
    assert(s@.take(s@.len() as int) =~= s@);
    let ghost all = views(lines@).push(line@);
    lines.push(line);
    assert(views(lines@) =~= all);
    lines
}

/// A string made of one character, `n` times.
pub(crate) fn repeated(c: char, n: usize) -> (s: String)
    ensures
        s@ == Seq::new(n as nat, |i: int| c),
{
    let mut s = String::new();
    let mut i: usize = 0;
    while i < n
        invariant
            i <= n,
            s@ =~= Seq::new(i as nat, |j: int| c),
        decreases n - i,
    {
        s.push(c);
        i += 1;
    }
    s
}

/// Cuts the white space at the end of an ASCII string off.
pub(crate) fn trim_end(s: &mut String)
    requires
        is_ascii_chars(old(s)@),
    ensures
        final(s)@ == trimmed(old(s)@),
{
    let mut end: usize = byte_len(s);
    proof {
        is_ascii_chars_encode_utf8(s@);
        assert(s@.take(end as int) =~= s@);
    }
    while end > 0 && is_space_byte(s.as_str().as_bytes()[end - 1])
        invariant
            end <= s@.len(),
            s@ == old(s)@,
            is_ascii_chars(s@),
            s@.len() == encode_utf8(s@).len(),
            forall|i: int|
                #![trigger s@[i]]
                0 <= i < s@.len() ==> s@[i] as u8 == encode_utf8(s@)[i],
            trimmed(s@.take(end as int)) == trimmed(s@),
        decreases end,
    {
        assert(s@.take(end as int).drop_last() =~= s@.take(end - 1));
        end -= 1;
    }
    assert(s@.take(end as int).len() > 0 ==> s@.take(end as int).last() == s@[end - 1]);
    let _ = s.split_off(end);
}

/// Whether a byte stands for white space in ASCII.
fn is_space_byte(b: u8) -> (r: bool)
    ensures
        forall|c: char| '\0' <= c <= '\u{7f}' && c as u8 == b ==> r == #[trigger] is_space(c),
        r == (b == 9 || b == 10 || b == 11 || b == 12 || b == 13 || b == 32),
{
    b == 32 || (9 <= b && b <= 13)
}

/// Trimming cuts white space off the end, all of it, and nothing else.
pub proof fn law_trimmed(s: Seq<char>)
    ensures
        trimmed(s).len() <= s.len(),
        trimmed(s) == s.take(trimmed(s).len() as int),
        trimmed(s).len() > 0 ==> !is_space(trimmed(s).last()),
        forall|i: int| trimmed(s).len() <= i < s.len() ==> is_space(#[trigger] s[i]),
    decreases s.len(),
{
    if s.len() > 0 && is_space(s.last()) {
        let shorter = s.drop_last();
        law_trimmed(shorter);
        assert(s.take(trimmed(s).len() as int) =~= shorter.take(trimmed(s).len() as int));
        assert forall|i: int| trimmed(s).len() <= i < s.len() implies is_space(
            #[trigger] s[i],
        ) by {
            if i < shorter.len() {
                assert(s[i] == shorter[i]);
            }
        }
    } else {
        assert(s.take(s.len() as int) =~= s);
    }
}

/// The lines of a text hold all of it but the newlines between them.
pub proof fn law_lines_of_a_text(s: Seq<char>)
    ensures
        split_lines(s).len() > 0,
        joined(split_lines(s)) == s.push('\n'),
        forall|i: int|
            0 <= i < split_lines(s).len() ==> !(#[trigger] split_lines(s)[i]).contains('\n'),
    decreases s.len(),
{
    let lines = split_lines(s);
    if s.len() == 0 {
        reveal_with_fuel(joined, 2);
        assert(joined(lines) =~= s.push('\n'));
    } else {
        let before = split_lines(s.drop_last());
        law_lines_of_a_text(s.drop_last());
        assert(lines.drop_last() =~= if s.last() == '\n' {
            before
        } else {
            before.drop_last()
        });
        let most = s.drop_last();
        assert(s =~= most.push(s.last()));
        if s.last() != '\n' {
            let without_end = joined(before.drop_last()) + before.last();
            assert(joined(before).drop_last() =~= without_end);
            assert(most.push('\n').drop_last() =~= most);
            assert(joined(lines) =~= without_end.push(s.last()).push('\n'));
        }
        assert(joined(lines) =~= s.push('\n'));
        assert forall|i: int| 0 <= i < lines.len() implies !(#[trigger] lines[i]).contains(
            '\n',
        ) by {
            if i < lines.len() - 1 {
                assert(lines[i] == before[i]);
            } else if s.last() != '\n' {
                let last = before[before.len() - 1];
                assert(!last.contains('\n'));
                assert(lines[i] == last.push(s.last()));
                assert forall|k: int| 0 <= k < lines[i].len() implies lines[i][k] != '\n' by {
                    if k < last.len() {
                        assert(last[k] == lines[i][k]);
                        assert(last.contains(last[k]));
                    }
                }
            }
        }
    }
}

/// The white space of ASCII is made of six characters: the blank, the tab, the
/// newline, the vertical tab, the form feed and the carriage return.
pub proof fn law_white_space(c: char)
    ensures
        is_space(c) <==> (c == ' ' || c == '\t' || c == '\n' || c == '\u{b}' || c == '\u{c}' || c
            == '\r'),
{
}

/// Trimming leaves a text up to its last character that is no white space, and
/// cuts off white space alone: a blank, a tab, a newline, a vertical tab, a form
/// feed or a carriage return. A text that ends in none of these is left as it
/// is.
pub proof fn law_only_white_space_is_cut_off(s: Seq<char>)
    ensures
        trimmed(s).len() <= s.len(),
        trimmed(s) == s.take(trimmed(s).len() as int),
        forall|i: int|
            trimmed(s).len() <= i < s.len() ==> {
                ||| #[trigger] s[i] == ' '
                ||| s[i] == '\t'
                ||| s[i] == '\n'
                ||| s[i] == '\u{b}'
                ||| s[i] == '\u{c}'
                ||| s[i] == '\r'
            },
        trimmed(s).len() > 0 ==> {
            let end = trimmed(s)[trimmed(s).len() - 1];
            end != ' ' && end != '\t' && end != '\n' && end != '\u{b}' && end != '\u{c}' && end
                != '\r'
        },
        s.len() > 0 && s.last() != ' ' && s.last() != '\t' && s.last() != '\n' && s.last()
            != '\u{b}' && s.last() != '\u{c}' && s.last() != '\r' ==> trimmed(s) == s,
{
    law_trimmed(s);
    assert forall|i: int| trimmed(s).len() <= i < s.len() implies {
        ||| #[trigger] s[i] == ' '
        ||| s[i] == '\t'
        ||| s[i] == '\n'
        ||| s[i] == '\u{b}'
        ||| s[i] == '\u{c}'
        ||| s[i] == '\r'
    } by {
        law_white_space(s[i]);
    }
    if trimmed(s).len() > 0 {
        law_white_space(trimmed(s).last());
    }
    if s.len() > 0 {
        law_white_space(s.last());
    }
}

/// Joined lines are the lines in their order, a newline behind each, and nothing
/// else.
pub proof fn law_joined_is_all_lines(lines: Seq<Seq<char>>)
    ensures
        joined(lines) == lines.map_values(|line: Seq<char>| line.push('\n')).flatten(),
    decreases lines.len(),
{
    let ended = lines.map_values(|line: Seq<char>| line.push('\n'));
    if lines.len() > 0 {
        let fewer = lines.drop_last();
        let fewer_ended = fewer.map_values(|line: Seq<char>| line.push('\n'));
        law_joined_is_all_lines(fewer);
        assert(ended =~= fewer_ended.push(lines.last().push('\n')));
        fewer_ended.lemma_flatten_push(lines.last().push('\n'));
        assert(joined(lines) =~= ended.flatten());
    }
}

/// A text is its lines with a newline between them, and no line has a newline in
/// it: nothing of the text is lost, moved or added.
pub proof fn law_lines_make_up_the_text(s: Seq<char>)
    ensures
        split_lines(s).len() > 0,
        split_lines(s).map_values(|line: Seq<char>| line.push('\n')).flatten() == s.push('\n'),
        forall|i: int, k: int|
            0 <= i < split_lines(s).len() && 0 <= k < split_lines(s)[i].len()
                ==> #[trigger] split_lines(s)[i][k] != '\n',
{
    law_lines_of_a_text(s);
    law_joined_is_all_lines(split_lines(s));
    assert forall|i: int, k: int|
        0 <= i < split_lines(s).len() && 0 <= k < split_lines(s)[i].len() implies
        #[trigger] split_lines(s)[i][k] != '\n' by {
        assert(split_lines(s)[i].contains(split_lines(s)[i][k]));
    }
}

/// The values of a list of strings are those of its strings, one for one.
pub proof fn law_views(list: Seq<String>)
    ensures
        views(list).len() == list.len(),
        forall|i: int| 0 <= i < list.len() ==> #[trigger] views(list)[i] == list[i]@,
{
}

/// Lines joined in two parts are the lines joined.
pub proof fn lemma_joined_concat(a: Seq<Seq<char>>, b: Seq<Seq<char>>)
    ensures
        joined(a + b) == joined(a) + joined(b),
    decreases b.len(),
{
    if b.len() == 0 {
        assert(a + b =~= a);
        assert(joined(a) + joined(b) =~= joined(a));
    } else {
        lemma_joined_concat(a, b.drop_last());
        assert((a + b).drop_last() =~= a + b.drop_last());
        assert(joined(a + b) =~= joined(a) + joined(b));
    }
}

/// A single line joined is the line with a newline behind it.
pub proof fn lemma_joined_one(line: Seq<char>)
    ensures
        joined(seq![line]) == line.push('\n'),
{
    reveal_with_fuel(joined, 2);
    assert(joined(seq![line]) =~= line.push('\n'));
}

} // verus!

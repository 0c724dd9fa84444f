use chat_room::{Key, KeyOutcome, Message, Packet, Prompt, TermOp};

fn type_keys(prompt: &mut Prompt, text: &str) {
    for c in text.chars() {
        let key = if c == '\n' { Key::Enter } else { Key::Char(c) };
        assert!(prompt.accepts(key));
        prompt.handle_key(key);
    }
}

fn typed(text: &str) -> Prompt {
    let mut prompt = Prompt::new();
    type_keys(&mut prompt, text);
    prompt
}

fn printed(prompt: &Prompt) -> Vec<String> {
    assert!(prompt.drawable());
    let mut texts = Vec::new();
    for op in prompt.print() {
        if let TermOp::Print(text) = op {
            texts.push(text);
        }
    }
    texts
}

#[test]
fn new_prompt_is_empty() {
    let prompt = Prompt::new();
    assert_eq!(prompt.text(), "");
    assert_eq!(prompt.cursor(), (0, 0));
}

#[test]
fn typed_text_is_what_is_sent() {
    let prompt = typed("hello\n  world");
    assert_eq!(prompt.text(), "hello\n  world");
    assert_eq!(prompt.cursor(), (7, 1));
}

#[test]
fn white_space_at_the_end_is_cut_off() {
    assert_eq!(typed("  a b \t\n\n  \n").text(), "  a b");
    assert_eq!(typed(" \n \n").text(), "");
    assert_eq!(typed("a\u{1f}").text(), "a\u{1f}");
    assert_eq!(typed("a\u{b}\u{c}\r ").text(), "a");
}

#[test]
fn only_single_byte_characters_are_taken() {
    let mut prompt = typed("a");
    prompt.put_char('é');
    prompt.put_char('—');
    assert_eq!(prompt.text(), "a");
    assert_eq!(prompt.cursor(), (1, 0));
    prompt.put_char('\u{7f}');
    assert_eq!(prompt.cursor(), (2, 0));
    prompt.put_char('\u{80}');
    assert_eq!(prompt.cursor(), (2, 0));
}

#[test]
fn characters_go_in_at_the_cursor() {
    let mut prompt = typed("ac");
    prompt.move_cursor_left();
    prompt.put_char('b');
    assert_eq!(prompt.text(), "abc");
    assert_eq!(prompt.cursor(), (2, 0));
}

#[test]
fn backspace_undoes_a_character() {
    let mut prompt = typed("ab\ncd");
    prompt.move_cursor_left();
    let before = (prompt.text(), prompt.cursor());
    prompt.put_char('x');
    assert_eq!(prompt.text(), "ab\ncxd");
    prompt.backspace();
    assert_eq!((prompt.text(), prompt.cursor()), before);
}

#[test]
fn backspace_undoes_a_line_break() {
    let mut prompt = typed("abcd");
    prompt.move_cursor_left();
    let before = (prompt.text(), prompt.cursor());
    prompt.newline();
    assert_eq!(prompt.text(), "abc\nd");
    assert_eq!(prompt.cursor(), (0, 1));
    prompt.backspace();
    assert_eq!((prompt.text(), prompt.cursor()), before);
}

#[test]
fn backspace_joins_lines() {
    let mut prompt = typed("one\ntwo\nthree");
    prompt.move_cursor_up();
    for _ in 0..3 {
        prompt.move_cursor_left();
    }
    assert_eq!(prompt.cursor(), (0, 1));
    prompt.backspace();
    assert_eq!(prompt.text(), "onetwo\nthree");
    assert_eq!(prompt.cursor(), (3, 0));
}

#[test]
fn backspace_at_the_start_does_nothing() {
    let mut prompt = typed("a");
    prompt.move_cursor_left();
    prompt.backspace();
    assert_eq!(prompt.text(), "a");
    assert_eq!(prompt.cursor(), (0, 0));
}

#[test]
fn backspace_counts_from_the_column_asked_for() {
    let mut prompt = typed("abcdef\nxy");
    prompt.move_cursor_up();
    for _ in 0..6 {
        prompt.move_cursor_right();
    }
    // The cursor went on to the line below at the end of the first one.
    assert_eq!(prompt.cursor(), (1, 1));
    let mut prompt = typed("ab");
    prompt.move_cursor_right();
    prompt.move_cursor_right();
    prompt.backspace();
    assert_eq!(prompt.text(), "a");
    assert_eq!(prompt.cursor(), (1, 0));
}

#[test]
fn left_goes_to_the_line_above() {
    let mut prompt = typed("ab\n");
    assert_eq!(prompt.cursor(), (0, 1));
    prompt.move_cursor_left();
    assert_eq!(prompt.cursor(), (2, 0));
    prompt.move_cursor_left();
    prompt.move_cursor_left();
    prompt.move_cursor_left();
    assert_eq!(prompt.cursor(), (0, 0));
}

#[test]
fn left_undoes_right_and_right_undoes_left() {
    let mut prompt = typed("ab\ncd");
    for _ in 0..4 {
        prompt.move_cursor_left();
    }
    assert_eq!(prompt.cursor(), (1, 0));
    for _ in 0..3 {
        let before = prompt.cursor();
        prompt.move_cursor_right();
        prompt.move_cursor_left();
        assert_eq!(prompt.cursor(), before);
        prompt.move_cursor_left();
        prompt.move_cursor_right();
        assert_eq!(prompt.cursor(), before);
        prompt.move_cursor_right();
    }
    assert_eq!(prompt.cursor(), (1, 1));
}

#[test]
fn right_at_the_end_goes_nowhere_and_left_comes_back_inside() {
    let mut prompt = typed("ab");
    prompt.move_cursor_right();
    assert_eq!(prompt.cursor(), (2, 0));
    prompt.move_cursor_left();
    assert_eq!(prompt.cursor(), (1, 0));
}

#[test]
fn up_and_down_keep_the_column_asked_for() {
    let mut prompt = typed("abc\nd\nefg");
    assert_eq!(prompt.cursor(), (3, 2));
    prompt.move_cursor_up();
    assert_eq!(prompt.cursor(), (1, 1));
    prompt.move_cursor_up();
    assert_eq!(prompt.cursor(), (3, 0));
    prompt.move_cursor_up();
    assert_eq!(prompt.cursor(), (3, 0));
    for _ in 0..5 {
        prompt.move_cursor_down();
    }
    assert_eq!(prompt.cursor(), (3, 2));
    assert_eq!(prompt.text(), "abc\nd\nefg");
}

#[test]
fn clear_throws_all_away() {
    let mut prompt = typed("a\nb");
    prompt.clear();
    assert_eq!(prompt.text(), "");
    assert_eq!(prompt.cursor(), (0, 0));
}

#[test]
fn tab_sends_and_clears() {
    let mut prompt = typed("hi\nthere \n");
    let outcome = prompt.handle_key(Key::Tab);
    assert_eq!(
        outcome,
        KeyOutcome::Post(vec![
            Packet::new_prompt_send("hi\nthere"),
            Packet::new_prompt_update(),
        ])
    );
    assert_eq!(prompt.text(), "");
    assert_eq!(prompt.cursor(), (0, 0));
}

#[test]
fn keys_ask_for_the_prompt_to_be_drawn() {
    let mut prompt = Prompt::new();
    let keys = [
        Key::Char('a'),
        Key::Enter,
        Key::Backspace,
        Key::Up,
        Key::Down,
        Key::Right,
        Key::Left,
        Key::Other,
    ];
    for key in keys {
        assert!(prompt.accepts(key));
        assert_eq!(
            prompt.handle_key(key),
            KeyOutcome::Post(vec![Packet {
                from: String::new(),
                to: String::new(),
                content: Message::PromptUpdate,
            }])
        );
    }
}

#[test]
fn escape_leaves() {
    let mut prompt = typed("a");
    assert_eq!(prompt.handle_key(Key::Esc), KeyOutcome::Exit);
    assert_eq!(prompt.text(), "a");
}

#[test]
fn drawing_of_a_prompt() {
    let mut prompt = typed("ab\nc");
    prompt.move_cursor_left();
    let rule = "—".repeat(30);
    let text = |s: &str| TermOp::Print(s.to_owned());
    assert_eq!(
        prompt.print(),
        vec![
            TermOp::Column(0),
            text(&rule),
            TermOp::ClearToLineEnd,
            text("\n"),
            TermOp::Column(0),
            text("message "),
            text("|"),
            text("ab"),
            TermOp::ClearToLineEnd,
            text("\n"),
            TermOp::Column(0),
            text("        "),
            text("|"),
            text("c"),
            TermOp::ClearToLineEnd,
            text("\n"),
            TermOp::Column(0),
            TermOp::ClearBelow,
            TermOp::PreviousLine(1),
            TermOp::Column(9),
            TermOp::Flush,
        ]
    );
    assert_eq!(prompt.rewind(), vec![TermOp::PreviousLine(2)]);
}

#[test]
fn drawing_and_rewinding_end_where_they_began() {
    let mut prompt = typed("one\ntwo\nthree\nfour");
    prompt.move_cursor_up();
    let mut ops = prompt.print();
    ops.extend(prompt.rewind());
    let mut row: i64 = 0;
    for op in ops {
        match op {
            TermOp::Print(text) => row += text.matches('\n').count() as i64,
            TermOp::NextLine(n) => row += n as i64,
            TermOp::PreviousLine(n) => row -= n as i64,
            _ => {}
        }
    }
    assert_eq!(row, 0);
}

#[test]
fn lines_are_drawn_as_they_are() {
    let prompt = typed("a  \n\n b");
    let texts = printed(&prompt);
    assert!(texts.contains(&"a  ".to_owned()));
    assert!(texts.contains(&" b".to_owned()));
    assert!(texts.contains(&"".to_owned()));
}

#[test]
fn a_line_can_be_65535_characters_long() {
    let mut prompt = Prompt::new();
    for _ in 0..65535 {
        assert!(prompt.accepts(Key::Char('x')));
        prompt.put_char('x');
    }
    assert_eq!(prompt.cursor(), (65535, 0));
    assert!(!prompt.accepts(Key::Char('x')));
    assert!(prompt.accepts(Key::Char('é')));
    assert!(!prompt.accepts(Key::Right));
    assert!(!prompt.drawable());
    // One character more and the length of the line is 0 in 16 bits.
    prompt.move_cursor_left();
    assert!(prompt.accepts(Key::Char('y')));
    prompt.put_char('y');
    assert_eq!(prompt.cursor(), (0, 0));
}

#[test]
fn up_undoes_down_and_down_undoes_up() {
    let mut prompt = typed("a\nb\nc");
    prompt.move_cursor_up();
    prompt.move_cursor_down();
    assert_eq!(prompt.cursor(), (1, 2));
    prompt.move_cursor_up();
    prompt.move_cursor_up();
    prompt.move_cursor_down();
    prompt.move_cursor_up();
    assert_eq!(prompt.cursor(), (1, 0));
}

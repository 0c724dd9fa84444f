//! Keys: what a key press does to the prompt, and what it makes the room do.

use vstd::prelude::*;

use crate::packet::{packet_views, MessageView, Packet, PacketView};
use crate::prompt::{Prompt, PromptView};

verus! {

/// What happened on the keyboard.
#[derive(Clone, Copy, Debug, PartialEq, Eq)]
pub enum Key {
    Char(char),
    Tab,
    Enter,
    Backspace,
    Up,
    Down,
    Right,
    Left,
    Esc,
    /// Any other key, or an event that is not about a key.
    Other,
}

/// What is to be done after a key press.
#[derive(Debug, PartialEq, Eq)]
pub enum KeyOutcome {
    /// Leave the program.
    Exit,
    /// Put these packets into the room's own inbox, in this order.
    Post(Vec<Packet>),
}

/// The mathematical value of a [`KeyOutcome`].
pub enum KeyOutcomeView {
    Exit,
    Post(Seq<PacketView>),
}

impl View for KeyOutcome {
    type V = KeyOutcomeView;

    open spec fn view(&self) -> KeyOutcomeView {
        match self {
            KeyOutcome::Exit => KeyOutcomeView::Exit,
            KeyOutcome::Post(packets) => KeyOutcomeView::Post(packet_views(packets@)),
        }
    }
}

/// The note that the prompt has changed.
pub open spec fn prompt_update() -> PacketView {
    PacketView { from: ""@, to: ""@, content: MessageView::PromptUpdate }
}

/// The note that a text is to be sent.
pub open spec fn prompt_send(text: Seq<char>) -> PacketView {
    PacketView { from: ""@, to: ""@, content: MessageView::PromptSend(text) }
}

impl PromptView {
    /// The prompt after a key press.
    pub open spec fn pressed(self, key: Key) -> PromptView {
        match key {
            Key::Char(ch) => self.put(ch),
            Key::Tab => PromptView::fresh(),
            Key::Enter => self.broken(),
            Key::Backspace => self.erased(),
            Key::Up => self.up(),
            Key::Down => self.down(),
            Key::Right => self.right(),
            Key::Left => self.left(),
            Key::Esc => self,
            Key::Other => self,
        }
    }

    /// Whether a key press stays within 16-bit arithmetic.
    pub open spec fn can_press(self, key: Key) -> bool {
        match key {
            Key::Char(ch) => self.can_put(ch),
            Key::Enter => self.can_break(),
            Key::Down => self.can_down(),
            Key::Right => self.can_right(),
            _ => true,
        }
    }

    /// What a key press makes the room do. `Tab` sends what has been typed,
    /// `Esc` leaves, and all but `Esc` ask for the prompt to be drawn again.
    pub open spec fn outcome(self, key: Key) -> KeyOutcomeView {
        match key {
            Key::Esc => KeyOutcomeView::Exit,
            Key::Tab => KeyOutcomeView::Post(
                seq![prompt_send(self.content()), prompt_update()],
            ),
            _ => KeyOutcomeView::Post(seq![prompt_update()]),
        }
    }
}

impl Prompt {
    /// Takes a key press.
    pub fn handle_key(&mut self, key: Key) -> (outcome: KeyOutcome)
        requires
            old(self).wf(),
            old(self)@.can_press(key),
        ensures
            final(self).wf(),
            final(self)@ == old(self)@.pressed(key),
            outcome@ == old(self)@.outcome(key),
    {
        let mut packets: Vec<Packet> = Vec::new();
        match key {
            Key::Char(ch) => {
                self.put_char(ch);
            },
            Key::Tab => {
                packets.push(Packet::new_prompt_send(self.text().as_str()));
                self.clear();
            },
            Key::Enter => {
                self.newline();
            },
            Key::Backspace => {
                self.backspace();
            },
            Key::Up => {
                self.move_cursor_up();
            },
            Key::Down => {
                self.move_cursor_down();
            },
            Key::Right => {
                self.move_cursor_right();
            },
            Key::Left => {
                self.move_cursor_left();
            },
            Key::Esc => {
                return KeyOutcome::Exit;
            },
            Key::Other => {},
        }
        packets.push(Packet::new_prompt_update());
        proof {
            let posted = if key == Key::Tab {
                seq![prompt_send(old(self)@.content()), prompt_update()]
            } else {
                seq![prompt_update()]
            };
            assert(packet_views(packets@) =~= posted);
        }
        KeyOutcome::Post(packets)
    }
}

/// What each key does to the prompt: a character is typed, `Enter` breaks the
/// line, `Backspace` erases, the arrows move the cursor, `Tab` leaves an empty
/// prompt, and the other keys change nothing.
pub proof fn law_what_each_key_does(p: PromptView, ch: char)
    ensures
        p.pressed(Key::Char(ch)) == p.put(ch),
        p.pressed(Key::Enter) == p.broken(),
        p.pressed(Key::Backspace) == p.erased(),
        p.pressed(Key::Up) == p.up(),
        p.pressed(Key::Down) == p.down(),
        p.pressed(Key::Right) == p.right(),
        p.pressed(Key::Left) == p.left(),
        p.pressed(Key::Tab).lines == seq![Seq::<char>::empty()],
        p.pressed(Key::Tab).col == 0,
        p.pressed(Key::Tab).row == 0,
        p.pressed(Key::Esc) == p,
        p.pressed(Key::Other) == p,
{
}

/// Which key presses are ruled out: those for which a 16-bit number is too small.
pub proof fn law_which_keys_can_be_pressed(p: PromptView, ch: char)
    ensures
        p.can_press(Key::Char(ch)) <==> (ch as int <= 127 ==> p.at() < 65535),
        p.can_press(Key::Enter) <==> p.row < 65535,
        p.can_press(Key::Down) <==> p.row < 65535 && p.lines.len() % 65536 != 0,
        p.can_press(Key::Right) <==> {
            let at_end = p.at() == p.lines[p.row].len() % 65536;
            let below = p.row < p.lines.len() % 65536 - 1;
            &&& at_end ==> p.lines.len() % 65536 != 0
            &&& at_end && below || p.col < 65535
        },
        p.can_press(Key::Backspace),
        p.can_press(Key::Up),
        p.can_press(Key::Left),
        p.can_press(Key::Tab),
        p.can_press(Key::Esc),
        p.can_press(Key::Other),
{
}

/// What each key makes the room do: `Esc` leaves; `Tab` first posts the note that
/// the prompt's content is to be sent; and every key but `Esc` posts, last, the
/// note that the prompt has changed.
pub proof fn law_what_each_key_posts(p: PromptView, key: Key)
    ensures
        key == Key::Esc <==> p.outcome(key) == KeyOutcomeView::Exit,
        key == Key::Tab ==> p.outcome(key) == KeyOutcomeView::Post(
            seq![
                PacketView {
                    from: ""@,
                    to: ""@,
                    content: MessageView::PromptSend(p.content()),
                },
                PacketView { from: ""@, to: ""@, content: MessageView::PromptUpdate },
            ],
        ),
        key != Key::Esc && key != Key::Tab ==> p.outcome(key) == KeyOutcomeView::Post(
            seq![PacketView { from: ""@, to: ""@, content: MessageView::PromptUpdate }],
        ),
{
}

/// The values of what is to be done after a key press.
pub proof fn law_values_of_outcomes(packets: Vec<Packet>)
    ensures
        KeyOutcome::Exit@ == KeyOutcomeView::Exit,
        KeyOutcome::Post(packets)@ == KeyOutcomeView::Post(packet_views(packets@)),
{
}

} // verus!

//! The logic of a small chat room: a prompt to type at, packets that go over the
//! wire, and a room that shows them and passes them on.
//!
//! Nothing here reads or writes anything. What is to be drawn, sent or waited
//! for is handed back as a value, and what was read comes in as one.

pub mod args;
pub mod bytes;
pub mod call_laws;
pub mod chat_laws;
pub mod connection;
pub mod keys;
pub mod packet;
pub mod prompt;
pub mod prompt_laws;
pub mod room;
pub mod screen_laws;
pub mod stream;
pub mod terminal;
pub mod text;
pub mod wire;

pub use args::{parse_args, ArgsError, Mode, ModeView};
pub use connection::{Connection, HandshakeAction, HandshakeEvent};
pub use keys::{Key, KeyOutcome, KeyOutcomeView};
pub use packet::{Message, MessageView, Packet, PacketView, UserId};
pub use prompt::{Prompt, PromptView};
pub use room::{Room, RoomAction, RoomActionView};
pub use stream::{Received, Receiver};
pub use terminal::{print, TermOp, TermOpView};
pub use wire::Fault;

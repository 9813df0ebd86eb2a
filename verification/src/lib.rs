//! Parser for a single line of IRC protocol text (client-to-server syntax,
//! including IRCv3 message tags as used by Twitch chat).
//!
//! A line has the shape
//! `['@' tags SPACE] [':' source SPACE] command SPACE parameters CRLF`.
//! [`message`] splits one such line into a structured [`Message`] and hands
//! back the input that follows the terminating CRLF, so a caller can loop
//! over a larger buffer. The grammar itself is stated as spec functions in
//! [`grammar`], and the executable parser is proved to agree with it exactly,
//! on every input.

pub mod grammar;
pub mod laws;
pub mod model;
pub mod parser;

pub use model::ErrorKind;
pub use model::Message;
pub use model::MessageView;
pub use model::ParseError;
pub use parser::message;

//! The decisions of a chat-protocol gateway: decoding protocol lines,
//! dispatching chat commands, counting skip votes and pacing reconnects.

pub mod backoff;
pub mod dispatch;
pub mod endpoints;
pub mod message_laws;
pub mod message_parser;
pub mod session;
pub mod text;
pub mod votes;

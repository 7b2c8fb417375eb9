//! A small text chat service: a wire protocol of three-letter opcodes, a
//! registry of named client sessions, the join handshake, and the dispatcher
//! that turns one decoded request into registry changes and outbound messages.
//!
//! All delivery decisions are computed here as plain values: a caller performs
//! the actual socket writes and hands raw received bytes back in.

mod client;
mod client_list;
mod logger;
mod protocol;
mod server;

pub use client::classify_join_reply;
pub use client::encode_join;
pub use client::parse_message;
pub use client::parse_response;
pub use client::ClientError;
pub use client::JoinReply;
pub use client::ResponseEvent;
pub use client_list::ClientList;
pub use client_list::Delivery;
pub use client_list::RegistryError;
pub use logger::LogMessagType;
pub use protocol::parse_request;
pub use protocol::trim_zeros;
pub use protocol::Request;
pub use server::handle_command;
pub use server::handle_request;
pub use server::handshake;
pub use server::DispatchOutcome;
pub use server::HandshakeOutcome;

//! wire-whisper: a single-room chat over a length-delimited binary protocol.
//!
//! This is the logic of the chat, without sockets, clocks and tasks:
//!
//! - The wire protocol: [`validated`] usernames and message bodies, the
//!   [`frame`]s and their [`payload`] format, and the [`codec`] that frames
//!   them on a stream of bytes ([`buffer`]).
//! - The server: the [`hub`] that knows who is in the room and routes frames
//!   to their [`mailbox`]es, the [`session`] that answers one client, and the
//!   loop that [`accept`]s connections.
//! - The client: the [`command`]s that a user types, and what the [`client`]
//!   does about them and about the server's frames.
//!
//! What waits for the outside world stands around this library: it hands in
//! events, and carries out the actions that it gets back.

pub mod accept;
pub mod buffer;
pub mod client;
pub mod codec;
pub mod command;
pub mod frame;
pub mod hub;
pub mod limits;
pub mod mailbox;
pub mod payload;
pub mod session;
pub mod text;
pub mod validated;

pub use codec::{encode_frame, ClientSideCodec, PostcardCodec, ProtocolError, ServerSideCodec};
pub use command::{parse_command, Command};
pub use frame::{ClientFrame, Payload, ServerFrame};
pub use hub::{ClaimHandle, Hub};
pub use limits::{
    MAX_BODY_BYTES, MAX_FRAME_BYTES, MAX_USERNAME_BYTES, MIN_USERNAME_BYTES, PROTOCOL_VERSION,
    SESSION_QUEUE_DEPTH,
};
pub use mailbox::{channel, Address, Mailbox};
pub use payload::PayloadError;
pub use session::Session;
pub use validated::{
    validate_body_bytes, validate_username_bytes, MessageBody, UserName, ValidationError,
};

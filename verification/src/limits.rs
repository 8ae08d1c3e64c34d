//! Protocol constants.

use vstd::prelude::*;

verus! {

/// Wire protocol version. Bumped on any backwards-incompatible change.
///
/// Servers reject a `Hello` with a different version.
pub const PROTOCOL_VERSION: u8 = 1;

/// Hard cap for the payload of a single frame, in bytes.
///
/// Large enough for every frame that the server sends (see
/// [`crate::frame::law_largest_message_fits`]) and no larger than needed for
/// that by much: a forged length prefix can claim at most this many bytes.
pub const MAX_FRAME_BYTES: usize = 8 * 1024;

/// Hard cap for a chat message body, in bytes.
pub const MAX_BODY_BYTES: usize = 4096;

/// Hard cap for a username, in bytes (and code points: usernames are ASCII).
pub const MAX_USERNAME_BYTES: usize = 32;

/// Minimum number of bytes in a username.
pub const MIN_USERNAME_BYTES: usize = 1;

/// Bound on the outgoing mailbox of each session.
///
/// A receiver that lets this many frames queue up is slow; further frames are
/// dropped for it rather than holding up the publisher.
pub const SESSION_QUEUE_DEPTH: usize = 256;

} // verus!

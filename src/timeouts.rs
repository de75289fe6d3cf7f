//! The least time, in seconds, that the participants of an SMTP session should wait for a reply
//! (RFC 5321, section 4.5.3.2).
//!
//! Some delay from transmission and processing is to be expected in a session; these tell it
//! apart from a session that timed out. [`SERVER_TIMEOUT`] is the only one that a server
//! enforces; the others are what clients are expected to wait, kept for testing and
//! completeness. A "minute" is sixty seconds.
use vstd::prelude::*;

verus! {

/// A very strict timeout for how long participants should wait for anything.
///
/// RFC 5321 does not specify it: it is for spotting unusual performance in tests and logs.
pub const EXPECTED: u64 = 3;

/// How long a client should wait, once the connection is accepted, for the opening `220` reply
/// (section 4.5.3.2.1).
pub const INITIAL_220_MESSAGE: u64 = 2 * 60;

/// How long a client should wait for a reply after sending `MAIL` (section 4.5.3.2.2).
pub const MAIL: u64 = 5 * 60;

/// How long a client should wait for a reply after sending `RCPT` (section 4.5.3.2.3). Mailing
/// lists and aliases take time to expand, so this may need to be longer.
pub const RCPT: u64 = 5 * 60;

/// How long a client should wait for the `354` reply after sending `DATA` (section 4.5.3.2.4).
pub const DATA_INITIALIZATION: u64 = 2 * 60;

/// How long a client should wait for a chunk of data sent with TCP `send` to be taken (section
/// 4.5.3.2.5).
pub const DATA_BLOCK: u64 = 3 * 60;

/// How long a client should wait for the `250` reply once all the data is sent (section
/// 4.5.3.2.6). The server now processes and delivers the message, and ending too early could
/// duplicate it.
pub const DATA_TERMINATION: u64 = 10 * 60;

/// How long a server should wait for the next command from a client (section 4.5.3.2.7).
pub const SERVER_TIMEOUT: u64 = 5 * 60;

} // verus!

//! The greatest length, in bytes, of the items of SMTP (RFC 5321, section 4.5.3.1).
//!
//! These are minimums of what clients and servers must be able to handle: a party may exceed them
//! but should be prepared to be refused by the other.
use vstd::prelude::*;

verus! {

/// The local part of a mailbox, such as the user name of an address (section 4.5.3.1.1).
pub const LOCAL_PART: usize = 64;

/// A domain name or number (section 4.5.3.1.2).
pub const DOMAIN: usize = 255;

/// A reverse-path or forward-path, punctuation and separators included (section 4.5.3.1.3).
pub const PATH: usize = 256;

/// A command line, the verb and the line ending included (section 4.5.3.1.4).
pub const COMMAND_LINE: usize = 512;

/// A reply line, the code and the line ending included (section 4.5.3.1.5).
pub const REPLY_LINE: usize = 512;

/// A text line, the line ending included (section 4.5.3.1.6).
pub const TEXT_LINE: usize = 1_000;

/// A message, headers and body included (section 4.5.3.1.7). Given how email has grown, raising
/// it is especially recommended.
pub const MESSAGE: usize = 64_000;

} // verus!

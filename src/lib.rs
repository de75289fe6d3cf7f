//! Receiving half of an SMTP gateway.
//!
//! The library holds the protocol engine of an SMTP server: the line type that every line on the
//! wire must satisfy (US-ASCII, `CRLF` line endings only), the command line parser, the command
//! dispatcher and the per-connection session state machine. Sockets, timers and tasks are left to
//! the caller, which feeds the session what it read and writes back what the session answers.
use vstd::prelude::*;

pub mod command;
pub mod commands;
pub mod connection;
pub mod max_lengths;
pub mod str;
pub mod timeouts;

verus! {

/// Whether `c` may appear in a domain name as SMTP sees one: an ASCII letter or digit, a dash or
/// a period.
pub open spec fn is_domain_char(c: char) -> bool {
    ||| 'a' <= c <= 'z'
    ||| 'A' <= c <= 'Z'
    ||| '0' <= c <= '9'
    ||| c == '-'
    ||| c == '.'
}

/// Whether every character of `s` may appear in a domain name.
pub open spec fn is_domain_name(s: Seq<char>) -> bool {
    forall|i: int| 0 <= i < s.len() ==> is_domain_char(#[trigger] s[i])
}

/// Tests whether a string is a domain name as SMTP considers one (RFC 5321, section 2.3.5):
/// every character is an ASCII letter or digit, a dash (`'-'`) or a period (`'.'`).
pub fn is_smtp_domain_name(s: &str) -> (r: bool)
    ensures
        r == is_domain_name(s@),
{
    broadcast use vstd::string::is_ascii_spec_bytes;

    if !s.is_ascii() {
        return false;
    }
    let bytes = s.as_bytes();
    assert(bytes@ =~= Seq::new(s@.len(), |i| s@[i] as u8));
    let mut i: usize = 0;
    while i < bytes.len()
        invariant
            s.is_ascii(),
            bytes@ =~= Seq::new(s@.len(), |i| s@[i] as u8),
            0 <= i <= bytes@.len(),
            forall|j: int| 0 <= j < i ==> is_domain_char(#[trigger] s@[j]),
        decreases bytes@.len() - i,
    {
        let b = bytes[i];
        assert(b == s@[i as int] as u8);
        // 'a'..='z', 'A'..='Z', '0'..='9', '-' and '.'
        if !(0x61 <= b && b <= 0x7a || 0x41 <= b && b <= 0x5a || 0x30 <= b && b <= 0x39 || b == 0x2d
            || b == 0x2e) {
            return false;
        }
        i += 1;
    }
    true
}

} // verus!

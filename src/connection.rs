//! SMTP sessions: what the server answers to each line, and the state of one connection.
use crate::command::{bytes_in, error_reason, parse, parse_spec, uppercase_range, CommandView};
use crate::commands::{
    append_str, bytes_eq, hello, lemma_ascii_str, hello_text, lemma_ascii_concat, lemma_domain_ascii,
    not_implemented, not_implemented_text, quit, quit_text, syntax_error, syntax_error_text,
    unrecognized, unrecognized_text,
};
use crate::str::{is_ascii_bytes, normalize, SmtpString, CR, LF};
use crate::{is_domain_name, is_smtp_domain_name};
use vstd::prelude::*;
use vstd::string::StringSliceAdditionalSpecFns;

verus! {

/// Why a session ended.
#[derive(PartialEq, Eq, Structural, Debug, Clone, Copy)]
pub enum CloseReason {
    /// The client asked to quit the session.
    ClientQuit,
    /// The client closed its side of the connection.
    ClientDisconnected,
    /// The client sent nothing for longer than the server waits.
    TimedOut,
    /// The server failed.
    ImplementationError,
}

/// Whether, and why, the connection is to be closed after a reply.
#[derive(PartialEq, Eq, Structural, Debug, Clone, Copy)]
pub enum ShouldClose {
    /// The connection stays open.
    Keep,
    /// The connection is to be closed, for the given reason.
    Close(CloseReason),
}

/// Whether `s` ends with `CRLF`.
pub open spec fn ends_with_crlf(s: Seq<u8>) -> bool {
    s.len() >= 2 && s[s.len() - 2] == CR && s[s.len() - 1] == LF
}

/// Whether `verb` is one of the minimum implementation set that this server recognizes without
/// implementing it.
pub open spec fn is_unimplemented_verb(verb: Seq<u8>) -> bool {
    ||| verb == "EHLO".spec_bytes()
    ||| verb == "MAIL".spec_bytes()
    ||| verb == "RCPT".spec_bytes()
    ||| verb == "DATA".spec_bytes()
    ||| verb == "RSET".spec_bytes()
    ||| verb == "NOOP".spec_bytes()
    ||| verb == "VRFY".spec_bytes()
}

/// The reply of the server for `domain` to the command `c`, and whether the session goes on.
pub open spec fn dispatch_text(domain: Seq<u8>, c: CommandView) -> (Seq<u8>, ShouldClose) {
    let verb = bytes_in(c.line, c.verb);
    if verb == "HELO".spec_bytes() {
        (hello_text(domain, c), ShouldClose::Keep)
    } else if verb == "QUIT".spec_bytes() {
        (quit_text(), ShouldClose::Close(CloseReason::ClientQuit))
    } else if is_unimplemented_verb(verb) {
        (not_implemented_text(), ShouldClose::Keep)
    } else {
        (unrecognized_text(), ShouldClose::Keep)
    }
}

/// The reply of the server for `domain` to the line `line`, and whether the session goes on.
///
/// A line that does not end with `CRLF`, that holds a byte that is not US-ASCII, or that is not a
/// command is answered with a syntax error and the session goes on. Any other line is
/// normalized, parsed and dispatched on its verb.
pub open spec fn response(domain: Seq<u8>, line: Seq<u8>) -> (Seq<u8>, ShouldClose) {
    if !ends_with_crlf(line) {
        (syntax_error_text("no trailing CRLF".spec_bytes()), ShouldClose::Keep)
    } else if !is_ascii_bytes(line) {
        (syntax_error_text("invalid character".spec_bytes()), ShouldClose::Keep)
    } else {
        match parse_spec(normalize(line)) {
            Err(e) => (syntax_error_text(error_reason(e)), ShouldClose::Keep),
            Ok(c) => dispatch_text(domain, c),
        }
    }
}

/// Turning letters to uppercase keeps US-ASCII bytes US-ASCII.
proof fn lemma_uppercase_keeps_ascii(s: Seq<u8>, start: int, end: int)
    requires
        is_ascii_bytes(s),
    ensures
        is_ascii_bytes(uppercase_range(s, start, end)),
{
    assert forall|i: int| 0 <= i < s.len() implies #[trigger] uppercase_range(s, start, end)[i]
        <= 0x7f by {
        assert(s[i] <= 0x7f);
    }
}

/// Replies to a parsed command on behalf of the server for `domain`, going by its verb: `HELO`
/// and `QUIT` are answered, the rest of the minimum implementation set of RFC 5321 (section
/// 4.5.1) is recognized as not implemented, and any other verb is not recognized.
pub fn dispatch(domain: &str, command: &crate::command::Command) -> (r: (SmtpString, ShouldClose))
    requires
        is_domain_name(domain@),
        is_ascii_bytes(command@.line),
    ensures
        r.0@ == normalize(dispatch_text(domain.spec_bytes(), command@).0),
        r.1 == dispatch_text(domain.spec_bytes(), command@).1,
{
    let verb = command.verb();
    if bytes_eq(verb, "HELO") {
        hello(domain, command)
    } else if bytes_eq(verb, "QUIT") {
        quit(command)
    } else if bytes_eq(verb, "EHLO") || bytes_eq(verb, "MAIL") || bytes_eq(verb, "RCPT")
        || bytes_eq(verb, "DATA") || bytes_eq(verb, "RSET") || bytes_eq(verb, "NOOP") || bytes_eq(
        verb,
        "VRFY",
    ) {
        not_implemented(command)
    } else {
        unrecognized(command)
    }
}

/// Replies to a line from the client on behalf of the server for `domain`.
///
/// Lines that do not end with `CRLF` must not be recognized (RFC 5321, section 2.3.8), and SMTP
/// uses US-ASCII only: such lines get a syntax error, as do lines that are not commands. A
/// malformed line never closes the session.
pub fn handle(domain: &str, line: &[u8]) -> (r: (SmtpString, ShouldClose))
    requires
        is_domain_name(domain@),
    ensures
        r.0@ == normalize(response(domain.spec_bytes(), line@).0),
        r.1 == response(domain.spec_bytes(), line@).1,
{
    let n = line.len();
    if !(n >= 2 && line[n - 2] == CR && line[n - 1] == LF) {
        let reason = "no trailing CRLF";
        proof {
            reveal_strlit("no trailing CRLF");
            lemma_ascii_str(reason);
        }
        return (syntax_error(reason), ShouldClose::Keep);
    }
    let valid = match SmtpString::from_bytes(line) {
        Ok(v) => v,
        Err(_) => {
            let reason = "invalid character";
            proof {
                reveal_strlit("invalid character");
                lemma_ascii_str(reason);
            }
            return (syntax_error(reason), ShouldClose::Keep);
        },
    };
    let bytes = valid.into_bytes();
    let ghost normalized = bytes@;
    match parse(bytes) {
        Err(e) => {
            let reason = e.message();
            proof {
                reveal_strlit("empty command");
                reveal_strlit("command consists only of whitespace");
                lemma_ascii_str("empty command");
                lemma_ascii_str("command consists only of whitespace");
                reveal_strlit("command has no verb");
                lemma_ascii_str("command has no verb");
            }
            (syntax_error(reason), ShouldClose::Keep)
        },
        Ok(command) => {
            proof {
                lemma_uppercase_keeps_ascii(
                    normalized,
                    command@.verb.0,
                    command@.verb.1,
                );
            }
            dispatch(domain, &command)
        },
    }
}

/// The greeting that the server for `domain` sends as a session opens (RFC 5321, section 4.2).
pub open spec fn greeting_text(domain: Seq<u8>) -> Seq<u8> {
    "220 ".spec_bytes() + domain + " SMTP service ready\r\n".spec_bytes()
}

/// Where a session stands.
#[derive(PartialEq, Eq, Structural, Debug, Clone, Copy)]
pub enum Phase {
    /// The connection was accepted and the greeting is not sent yet.
    Greeting,
    /// The greeting was sent; lines are read and answered.
    Serving,
    /// The session ended, for the given reason.
    Terminated(CloseReason),
}

/// What the transport reports to a serving session.
#[derive(Debug)]
pub enum Event {
    /// A line was read, up to and including its line feed (or up to the end of the stream).
    Line(Vec<u8>),
    /// Zero bytes were read: the client closed its side of the connection.
    Disconnected,
    /// No line arrived within the time the server waits.
    TimedOut,
}

/// What the transport is to do after an event.
#[derive(Debug)]
pub enum Action {
    /// Write the reply and read the next line.
    Reply(SmtpString),
    /// Write the reply, then close the connection for the given reason.
    ReplyAndClose(SmtpString, CloseReason),
    /// Close the connection for the given reason, without a reply.
    Close(CloseReason),
}

/// The state of one SMTP session, from the accepted connection to its end.
///
/// The session greets the client, then answers each line it is handed, until the client quits,
/// disconnects or times out. It does no I/O itself: the caller reads, writes and keeps time.
#[derive(Debug)]
pub struct Session {
    domain: String,
    phase: Phase,
}

impl Session {
    #[verifier::type_invariant]
    spec fn well_formed(self) -> bool {
        is_domain_name(self.domain@)
    }

    /// The domain name of the server.
    pub closed spec fn spec_domain(&self) -> Seq<char> {
        self.domain@
    }

    /// Where the session stands.
    pub closed spec fn spec_phase(&self) -> Phase {
        self.phase
    }

    /// The bytes of the domain name of the server.
    pub open spec fn domain_bytes(&self) -> Seq<u8> {
        vstd::utf8::encode_utf8(self.spec_domain())
    }

    /// Opens a session for the server whose domain name is `domain`, or gives `None` when
    /// `domain` is not a domain name.
    pub fn new(domain: &str) -> (r: Option<Session>)
        ensures
            r is Some <==> is_domain_name(domain@),
            r matches Some(s) ==> s.spec_domain() == domain@ && s.spec_phase() == Phase::Greeting,
    {
        if is_smtp_domain_name(domain) {
            Some(Session { domain: domain.to_owned(), phase: Phase::Greeting })
        } else {
            None
        }
    }

    /// Returns where the session stands.
    pub fn phase(&self) -> (r: Phase)
        ensures
            r == self.spec_phase(),
    {
        self.phase
    }

    /// Returns the greeting to send as the session opens, and starts serving.
    pub fn greet(&mut self) -> (r: SmtpString)
        requires
            old(self).spec_phase() == Phase::Greeting,
        ensures
            r@ == normalize(greeting_text(old(self).domain_bytes())),
            final(self).spec_domain() == old(self).spec_domain(),
            final(self).spec_phase() == Phase::Serving,
    {
        proof {
            use_type_invariant(&*self);
        }
        let domain = self.domain.as_str();
        let mut out: Vec<u8> = Vec::new();
        append_str(&mut out, "220 ");
        append_str(&mut out, domain);
        append_str(&mut out, " SMTP service ready\r\n");
        proof {
            reveal_strlit("220 ");
            reveal_strlit(" SMTP service ready\r\n");
            lemma_ascii_str("220 ");
            lemma_ascii_str(" SMTP service ready\r\n");
            lemma_domain_ascii(domain);
            lemma_ascii_concat("220 ".spec_bytes(), domain.spec_bytes());
            lemma_ascii_concat(
                "220 ".spec_bytes() + domain.spec_bytes(),
                " SMTP service ready\r\n".spec_bytes(),
            );
            assert(out@ =~= greeting_text(domain.spec_bytes()));
        }
        let reply = SmtpString::from_ascii(out.as_slice());
        self.phase = Phase::Serving;
        reply
    }

    /// Takes what the transport reports and says what it is to do next.
    ///
    /// A line is answered as [`handle`] answers it, and ends the session where the reply says
    /// so; a disconnected client or a timeout ends the session without a reply.
    pub fn step(&mut self, event: Event) -> (r: Action)
        requires
            old(self).spec_phase() == Phase::Serving,
        ensures
            final(self).spec_domain() == old(self).spec_domain(),
            match event {
                Event::Line(line) => {
                    let (text, close) = response(old(self).domain_bytes(), line@);
                    match close {
                        ShouldClose::Keep => {
                            &&& r matches Action::Reply(reply)
                            &&& reply@ == normalize(text)
                            &&& final(self).spec_phase() == Phase::Serving
                        },
                        ShouldClose::Close(reason) => {
                            &&& r matches Action::ReplyAndClose(reply, why)
                            &&& reply@ == normalize(text)
                            &&& why == reason
                            &&& final(self).spec_phase() == Phase::Terminated(reason)
                        },
                    }
                },
                Event::Disconnected => {
                    &&& r matches Action::Close(why)
                    &&& why == CloseReason::ClientDisconnected
                    &&& final(self).spec_phase() == Phase::Terminated(
                        CloseReason::ClientDisconnected,
                    )
                },
                Event::TimedOut => {
                    &&& r matches Action::Close(why)
                    &&& why == CloseReason::TimedOut
                    &&& final(self).spec_phase() == Phase::Terminated(CloseReason::TimedOut)
                },
            },
    {
        proof {
            use_type_invariant(&*self);
        }
        match event {
            Event::Line(line) => {
                let (reply, close) = handle(self.domain.as_str(), line.as_slice());
                match close {
                    ShouldClose::Keep => Action::Reply(reply),
                    ShouldClose::Close(reason) => {
                        self.phase = Phase::Terminated(reason);
                        Action::ReplyAndClose(reply, reason)
                    },
                }
            },
            Event::Disconnected => {
                self.phase = Phase::Terminated(CloseReason::ClientDisconnected);
                Action::Close(CloseReason::ClientDisconnected)
            },
            Event::TimedOut => {
                self.phase = Phase::Terminated(CloseReason::TimedOut);
                Action::Close(CloseReason::TimedOut)
            },
        }
    }
}

} // verus!

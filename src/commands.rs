//! The replies to the commands of the minimum implementation set of RFC 5321 (section 4.5.1).
use crate::command::{bytes_in, Command, CommandView};
use crate::connection::{CloseReason, ShouldClose};
use crate::is_domain_name;
use crate::str::{is_ascii_bytes, normalize, SmtpString, CR, LF};
use vstd::prelude::*;
use vstd::string::StringSliceAdditionalSpecFns;

verus! {

/// The first index from `i` on of the byte `b` in `s`; the length of `s` when there is none.
pub open spec fn first_index_of(s: Seq<u8>, b: u8, i: int) -> int
    decreases s.len() - i,
{
    if i < s.len() && s[i] != b {
        first_index_of(s, b, i + 1)
    } else {
        i
    }
}

/// The client that the text of a `HELO` command names (RFC 5321, sections 4.1.2 and 4.1.3).
///
/// Text that starts with `[` is an address literal: the client is what stands between that `[`
/// and the first `]`, and there is none when no `]` follows. Other text is a domain name: the
/// client is the text up to the first space.
pub open spec fn client_identifier(text: Seq<u8>) -> Option<Seq<u8>> {
    if text.len() > 0 && text[0] == 0x5b {
        let close = first_index_of(text, 0x5d, 1);
        if close < text.len() {
            Some(text.subrange(1, close))
        } else {
            None
        }
    } else {
        Some(text.subrange(0, first_index_of(text, 0x20, 0)))
    }
}

/// `"\r\n"`.
pub open spec fn crlf() -> Seq<u8> {
    "\r\n".spec_bytes()
}

/// The reply to a line that could not be read as a command, for the given reason.
pub open spec fn syntax_error_text(reason: Seq<u8>) -> Seq<u8> {
    "500 Syntax error - ".spec_bytes() + reason + crlf()
}

/// The reason given when an address literal lacks its `]`.
pub open spec fn unterminated_literal() -> Seq<u8> {
    "unterminated '[' in address literal".spec_bytes()
}

/// The reply to a verb that is not recognized.
pub open spec fn unrecognized_text() -> Seq<u8> {
    "500 Command not recognized\r\n".spec_bytes()
}

/// The reply to a verb that is recognized but not implemented.
pub open spec fn not_implemented_text() -> Seq<u8> {
    "502 Command not implemented\r\n".spec_bytes()
}

/// The reply to `QUIT`.
pub open spec fn quit_text() -> Seq<u8> {
    "221 Bye\r\n".spec_bytes()
}

/// The reply of the server for `domain` that greets `client`.
pub open spec fn greets_text(domain: Seq<u8>, client: Seq<u8>) -> Seq<u8> {
    "250 ".spec_bytes() + domain + " greets ".spec_bytes() + client + crlf()
}

/// Whether `s` holds a carriage return or a line feed.
pub open spec fn has_line_break(s: Seq<u8>) -> bool {
    exists|i: int| 0 <= i < s.len() && (s[i] == CR || s[i] == LF)
}

/// The reason given when the client named holds a line break, which would split the reply.
pub open spec fn line_break_in_client() -> Seq<u8> {
    "line break in client identifier".spec_bytes()
}

/// The reply of the server for `domain` to the `HELO` command `c`: the client it names is
/// greeted, `client` standing in when the command has no text. A client that holds a line break
/// is a syntax error, so that the reply stays one line.
pub open spec fn hello_text(domain: Seq<u8>, c: CommandView) -> Seq<u8> {
    match c.text {
        None => greets_text(domain, "client".spec_bytes()),
        Some(t) => match client_identifier(bytes_in(c.line, t)) {
            Some(client) => if has_line_break(client) {
                syntax_error_text(line_break_in_client())
            } else {
                greets_text(domain, client)
            },
            None => syntax_error_text(unterminated_literal()),
        },
    }
}

/// Bytes of a US-ASCII string are US-ASCII.
pub(crate) proof fn lemma_ascii_str(s: &str)
    requires
        vstd::string::is_ascii(s),
    ensures
        is_ascii_bytes(s.spec_bytes()),
{
    vstd::string::is_ascii_spec_bytes(s);
    assert forall|i: int| 0 <= i < s.spec_bytes().len() implies #[trigger] s.spec_bytes()[i]
        <= 0x7f by {
        assert(s@[i] <= '\u{7f}');
    }
}

/// A domain name is US-ASCII.
pub(crate) proof fn lemma_domain_ascii(s: &str)
    requires
        is_domain_name(s@),
    ensures
        is_ascii_bytes(s.spec_bytes()),
{
    assert forall|i: int| 0 <= i < s@.len() implies '\0' <= #[trigger] s@[i] <= '\u{7f}' by {
        assert(crate::is_domain_char(s@[i]));
    }
    lemma_ascii_str(s);
}

/// Joining US-ASCII sequences gives a US-ASCII sequence.
pub(crate) proof fn lemma_ascii_concat(a: Seq<u8>, b: Seq<u8>)
    requires
        is_ascii_bytes(a),
        is_ascii_bytes(b),
    ensures
        is_ascii_bytes(a + b),
{
    assert forall|i: int| 0 <= i < (a + b).len() implies #[trigger] (a + b)[i] <= 0x7f by {
        if i >= a.len() {
            assert((a + b)[i] == b[i - a.len()]);
        }
    }
}

/// The first index of a byte from `i` on lies between `i` and the length.
proof fn lemma_first_index_bounds(s: Seq<u8>, b: u8, i: int)
    requires
        0 <= i <= s.len(),
    ensures
        i <= first_index_of(s, b, i) <= s.len(),
    decreases s.len() - i,
{
    if i < s.len() && s[i] != b {
        lemma_first_index_bounds(s, b, i + 1);
    }
}

/// A part of a US-ASCII sequence is US-ASCII.
pub(crate) proof fn lemma_ascii_subrange(s: Seq<u8>, start: int, end: int)
    requires
        is_ascii_bytes(s),
        0 <= start <= end <= s.len(),
    ensures
        is_ascii_bytes(s.subrange(start, end)),
{
    assert forall|i: int| 0 <= i < end - start implies #[trigger] s.subrange(start, end)[i]
        <= 0x7f by {
        assert(s.subrange(start, end)[i] == s[start + i]);
    }
}

/// The client named by US-ASCII text is US-ASCII.
proof fn lemma_client_ascii(text: Seq<u8>)
    requires
        is_ascii_bytes(text),
    ensures
        client_identifier(text) matches Some(c) ==> is_ascii_bytes(c),
{
    if text.len() > 0 && text[0] == 0x5b {
        lemma_first_index_bounds(text, 0x5d, 1);
        let close = first_index_of(text, 0x5d, 1);
        if close < text.len() {
            lemma_ascii_subrange(text, 1, close);
        }
    } else {
        lemma_first_index_bounds(text, 0x20, 0);
        lemma_ascii_subrange(text, 0, first_index_of(text, 0x20, 0));
    }
}

/// Appends `b` to `out`.
pub(crate) fn append_bytes(out: &mut Vec<u8>, b: &[u8])
    ensures
        final(out)@ == old(out)@ + b@,
{
    let ghost start = out@;
    let mut i: usize = 0;
    while i < b.len()
        invariant
            0 <= i <= b@.len(),
            out@ == start + b@.take(i as int),
        decreases b@.len() - i,
    {
        out.push(b[i]);
        i += 1;
        assert(b@.take(i as int) =~= b@.take(i - 1) + seq![b@[i - 1]]);
    }
    assert(b@.take(b@.len() as int) =~= b@);
}

/// Appends the bytes of `s` to `out`.
pub(crate) fn append_str(out: &mut Vec<u8>, s: &str)
    ensures
        final(out)@ == old(out)@ + s.spec_bytes(),
{
    append_bytes(out, s.as_bytes());
}

/// Whether the bytes `a` are those of `s`.
pub(crate) fn bytes_eq(a: &[u8], s: &str) -> (r: bool)
    ensures
        r == (a@ == s.spec_bytes()),
{
    let b = s.as_bytes();
    if a.len() != b.len() {
        return false;
    }
    let mut i: usize = 0;
    while i < a.len()
        invariant
            a@.len() == b@.len(),
            b@ == s.spec_bytes(),
            0 <= i <= a@.len(),
            forall|j: int| 0 <= j < i ==> a@[j] == b@[j],
        decreases a@.len() - i,
    {
        if a[i] != b[i] {
            return false;
        }
        i += 1;
    }
    assert(a@ =~= b@);
    true
}

/// The reply, as an SMTP string, to a line that could not be read as a command.
pub(crate) fn syntax_error(reason: &str) -> (r: SmtpString)
    requires
        is_ascii_bytes(reason.spec_bytes()),
    ensures
        r@ == normalize(syntax_error_text(reason.spec_bytes())),
{
    let mut out: Vec<u8> = Vec::new();
    append_str(&mut out, "500 Syntax error - ");
    append_str(&mut out, reason);
    append_str(&mut out, "\r\n");
    proof {
        reveal_strlit("500 Syntax error - ");
        reveal_strlit("\r\n");
        lemma_ascii_str("500 Syntax error - ");
        lemma_ascii_str("\r\n");
        lemma_ascii_concat("500 Syntax error - ".spec_bytes(), reason.spec_bytes());
        lemma_ascii_concat(
            "500 Syntax error - ".spec_bytes() + reason.spec_bytes(),
            "\r\n".spec_bytes(),
        );
        assert(out@ =~= syntax_error_text(reason.spec_bytes()));
    }
    SmtpString::from_ascii(out.as_slice())
}

/// Whether `b` holds a carriage return or a line feed.
fn contains_line_break(b: &[u8]) -> (r: bool)
    ensures
        r == has_line_break(b@),
{
    let mut i: usize = 0;
    while i < b.len()
        invariant
            0 <= i <= b@.len(),
            forall|j: int| 0 <= j < i ==> !(#[trigger] b@[j] == CR || b@[j] == LF),
        decreases b@.len() - i,
    {
        if b[i] == CR || b[i] == LF {
            return true;
        }
        i += 1;
    }
    false
}

/// Parses out the client named at the start of the text of a `HELO` command: a domain name or
/// an address literal (RFC 5321, sections 4.1.2 and 4.1.3).
fn domain_or_literal(text: &[u8]) -> (r: Option<&[u8]>)
    ensures
        match r {
            Some(c) => client_identifier(text@) == Some(c@),
            None => client_identifier(text@) is None,
        },
{
    let n = text.len();
    if n > 0 && text[0] == 0x5b {
        let mut close: usize = 1;
        while close < n && text[close] != 0x5d
            invariant
                n == text@.len(),
                1 <= close <= n,
                first_index_of(text@, 0x5d, 1) == first_index_of(text@, 0x5d, close as int),
            decreases n - close,
        {
            close += 1;
        }
        if close < n {
            Some(&text[1..close])
        } else {
            None
        }
    } else {
        let mut end: usize = 0;
        while end < n && text[end] != 0x20
            invariant
                n == text@.len(),
                0 <= end <= n,
                first_index_of(text@, 0x20, 0) == first_index_of(text@, 0x20, end as int),
            decreases n - end,
        {
            end += 1;
        }
        Some(&text[0..end])
    }
}

/// Replies to a command that is not recognized (RFC 5321, section 4.2.4).
///
/// See [`not_implemented`] for commands that are recognized but not implemented.
pub fn unrecognized(_command: &Command) -> (r: (SmtpString, ShouldClose))
    ensures
        r.0@ == normalize(unrecognized_text()),
        r.1 == ShouldClose::Keep,
{
    let text = "500 Command not recognized\r\n";
    proof {
        reveal_strlit("500 Command not recognized\r\n");
        lemma_ascii_str(text);
    }
    (SmtpString::from_ascii(text.as_bytes()), ShouldClose::Keep)
}

/// Replies to a command that is recognized but not implemented (RFC 5321, section 4.2.4).
///
/// See [`unrecognized`] for commands that are not recognized at all.
pub fn not_implemented(_command: &Command) -> (r: (SmtpString, ShouldClose))
    ensures
        r.0@ == normalize(not_implemented_text()),
        r.1 == ShouldClose::Keep,
{
    let text = "502 Command not implemented\r\n";
    proof {
        reveal_strlit("502 Command not implemented\r\n");
        lemma_ascii_str(text);
    }
    (SmtpString::from_ascii(text.as_bytes()), ShouldClose::Keep)
}

/// Replies to the quit command (`QUIT`, RFC 5321, section 4.1.1.10) and closes the session.
pub fn quit(_command: &Command) -> (r: (SmtpString, ShouldClose))
    ensures
        r.0@ == normalize(quit_text()),
        r.1 == ShouldClose::Close(CloseReason::ClientQuit),
{
    let text = "221 Bye\r\n";
    proof {
        reveal_strlit("221 Bye\r\n");
        lemma_ascii_str(text);
    }
    (SmtpString::from_ascii(text.as_bytes()), ShouldClose::Close(CloseReason::ClientQuit))
}

/// Replies to the hello command (`HELO`, RFC 5321, section 4.1.1.1) on behalf of the server for
/// `domain`: the client that the command names is greeted, and an address literal without its
/// `]` is a syntax error.
pub fn hello(domain: &str, command: &Command) -> (r: (SmtpString, ShouldClose))
    requires
        is_domain_name(domain@),
        is_ascii_bytes(command@.line),
    ensures
        r.0@ == normalize(hello_text(domain.spec_bytes(), command@)),
        r.1 == ShouldClose::Keep,
{
    let client: &[u8];
    match command.text() {
        Some(t) => {
            proof {
                let range = command@.text->0;
                lemma_ascii_subrange(command@.line, range.0, range.1);
                lemma_client_ascii(t@);
            }
            match domain_or_literal(t) {
                Some(c) => {
                    if contains_line_break(c) {
                        let reason = "line break in client identifier";
                        proof {
                            reveal_strlit("line break in client identifier");
                            lemma_ascii_str(reason);
                        }
                        return (syntax_error(reason), ShouldClose::Keep);
                    }
                    client = c;
                },
                None => {
                    let reason = "unterminated '[' in address literal";
                    proof {
                        reveal_strlit("unterminated '[' in address literal");
                        lemma_ascii_str(reason);
                    }
                    return (syntax_error(reason), ShouldClose::Keep);
                },
            }
        },
        None => {
            client = "client".as_bytes();
            proof {
                reveal_strlit("client");
                lemma_ascii_str("client");
            }
        },
    }
    let mut out: Vec<u8> = Vec::new();
    append_str(&mut out, "250 ");
    append_str(&mut out, domain);
    append_str(&mut out, " greets ");
    append_bytes(&mut out, client);
    append_str(&mut out, "\r\n");
    proof {
        reveal_strlit("250 ");
        reveal_strlit(" greets ");
        reveal_strlit("\r\n");
        lemma_ascii_str("250 ");
        lemma_ascii_str(" greets ");
        lemma_ascii_str("\r\n");
        lemma_domain_ascii(domain);
        let a = "250 ".spec_bytes();
        let b = a + domain.spec_bytes();
        let c = b + " greets ".spec_bytes();
        let d = c + client@;
        lemma_ascii_concat(a, domain.spec_bytes());
        lemma_ascii_concat(b, " greets ".spec_bytes());
        lemma_ascii_concat(c, client@);
        lemma_ascii_concat(d, "\r\n".spec_bytes());
        assert(out@ =~= d + "\r\n".spec_bytes());
    }
    (SmtpString::from_ascii(out.as_slice()), ShouldClose::Keep)
}

} // verus!

//! Command lines: the verb, the argument text and the continuation mark of one line sent by an
//! SMTP client (RFC 5321, section 2.4).
use core::ops::Range;
use vstd::prelude::*;
use vstd::string::StringSliceAdditionalSpecFns;

verus! {

/// Whether `b` is ASCII whitespace: space, horizontal tab, line feed, form feed or carriage
/// return, as std's `u8::is_ascii_whitespace` has it.
///
/// The same set is trimmed at both ends of a line. Vertical tab (0x0b) is not in it, so it is
/// kept at either end.
pub open spec fn is_whitespace(b: u8) -> bool {
    b == 0x20 || b == 0x09 || b == 0x0a || b == 0x0c || b == 0x0d
}

/// Whether `b` separates a verb from its text: a space, or a dash that marks a continued line.
pub open spec fn is_separator(b: u8) -> bool {
    b == 0x20 || b == 0x2d
}

/// `b` with an ASCII lowercase letter turned to uppercase.
pub open spec fn to_upper(b: u8) -> u8 {
    if 0x61 <= b <= 0x7a {
        (b - 0x20) as u8
    } else {
        b
    }
}

/// The first index from `i` on, and below `end`, of a byte of `s` that is not whitespace; `end`
/// (or `i`, past it) when there is none.
pub open spec fn skip_whitespace(s: Seq<u8>, i: int, end: int) -> int
    decreases end - i,
{
    if i < end && is_whitespace(s[i]) {
        skip_whitespace(s, i + 1, end)
    } else {
        i
    }
}

/// The index just past the last byte of `s`, below `n`, that is not whitespace; 0 when there is
/// none.
pub open spec fn trim_end(s: Seq<u8>, n: int) -> int
    decreases n,
{
    if n > 0 && is_whitespace(s[n - 1]) {
        trim_end(s, n - 1)
    } else {
        n
    }
}

/// The first index from `i` on, and below `end`, of a separator in `s`; `end` when there is none.
pub open spec fn find_separator(s: Seq<u8>, i: int, end: int) -> int
    decreases end - i,
{
    if i < end && !is_separator(s[i]) {
        find_separator(s, i + 1, end)
    } else {
        i
    }
}

/// `s` with the bytes from `start` up to `end` in uppercase.
pub open spec fn uppercase_range(s: Seq<u8>, start: int, end: int) -> Seq<u8> {
    Seq::new(s.len(), |i: int| if start <= i < end { to_upper(s[i]) } else { s[i] })
}

/// Indicates if the parsed command is the last line to be parsed before replying.
#[derive(PartialEq, Eq, Structural, Debug, Clone, Copy)]
pub enum MultiLine {
    /// This is the last line to be parsed before replying.
    LastLine,
    /// This is not the last line to be parsed before replying: more lines follow.
    HasNext,
}

impl MultiLine {
    /// Returns the character that separates the verb and the text of a line of this kind.
    pub fn split(self) -> (r: char)
        ensures
            r == (if self is LastLine { ' ' } else { '-' }),
    {
        match self {
            MultiLine::LastLine => ' ',
            MultiLine::HasNext => '-',
        }
    }
}

/// Why a line could not be read as a command.
#[derive(PartialEq, Eq, Structural, Debug, Clone, Copy)]
pub enum CommandError {
    /// The line is empty.
    Empty,
    /// The line holds only whitespace.
    OnlyWhitespace,
    /// The line starts with a separator, so it has no verb.
    NoVerb,
}

impl CommandError {
    /// Returns what went wrong, in words.
    pub fn message(&self) -> (r: &'static str)
        ensures
            r.spec_bytes() == error_reason(*self),
    {
        match self {
            CommandError::Empty => "empty command",
            CommandError::OnlyWhitespace => "command consists only of whitespace",
            CommandError::NoVerb => "command has no verb",
        }
    }
}

/// What went wrong, in words.
pub open spec fn error_reason(e: CommandError) -> Seq<u8> {
    match e {
        CommandError::Empty => "empty command".spec_bytes(),
        CommandError::OnlyWhitespace => "command consists only of whitespace".spec_bytes(),
        CommandError::NoVerb => "command has no verb".spec_bytes(),
    }
}

/// What a command is, as index ranges (start and end) over its line.
pub struct CommandView {
    /// The whole line, with the verb in uppercase.
    pub line: Seq<u8>,
    /// The line without leading and trailing whitespace.
    pub trimmed: (int, int),
    /// The verb.
    pub verb: (int, int),
    /// The argument text, if there is any.
    pub text: Option<(int, int)>,
    /// Whether more lines of the same command follow.
    pub multiline: MultiLine,
}

/// What parsing `s` gives.
///
/// The line is trimmed of leading and trailing whitespace; the verb runs up to the first space
/// or dash, or to the end; the text is all that follows that separator, and is absent when that
/// is only whitespace or nothing; a dash as separator marks a continued line; the verb is
/// turned to uppercase in the line, the rest is kept as it was. A line whose trimmed text starts
/// with a separator has no verb and is refused.
pub open spec fn parse_spec(s: Seq<u8>) -> Result<CommandView, CommandError> {
    let start = skip_whitespace(s, 0, s.len() as int);
    let end = trim_end(s, s.len() as int);
    if s.len() == 0 {
        Err(CommandError::Empty)
    } else if start >= end {
        Err(CommandError::OnlyWhitespace)
    } else {
        let sep = find_separator(s, start, end);
        let text_start = skip_whitespace(s, sep + 1, end);
        if sep == start {
            Err(CommandError::NoVerb)
        } else {
            Ok(
                CommandView {
                    line: uppercase_range(s, start, sep),
                    trimmed: (start, end),
                    verb: (start, sep),
                    text: if sep < end && text_start < end {
                        Some((sep + 1, end))
                    } else {
                        None
                    },
                    multiline: if sep < end && s[sep] == 0x2d {
                        MultiLine::HasNext
                    } else {
                        MultiLine::LastLine
                    },
                },
            )
        }
    }
}

/// One line of an SMTP command.
#[derive(Debug)]
pub struct Command {
    /// The entire line, unmodified but for the verb set to uppercase.
    line: Vec<u8>,
    /// The range over the line without leading and trailing whitespace.
    trimmed: Range<usize>,
    /// The range over the line holding the verb.
    verb: Range<usize>,
    /// The range over the line holding the text, if any.
    text: Option<Range<usize>>,
    /// Whether more lines of the same command follow.
    multiline: MultiLine,
}

impl View for Command {
    type V = CommandView;

    closed spec fn view(&self) -> CommandView {
        CommandView {
            line: self.line@,
            trimmed: (self.trimmed.start as int, self.trimmed.end as int),
            verb: (self.verb.start as int, self.verb.end as int),
            text: match self.text {
                Some(t) => Some((t.start as int, t.end as int)),
                None => None,
            },
            multiline: self.multiline,
        }
    }
}

/// Whether `r` is a range within a sequence of length `len`.
pub open spec fn within(r: (int, int), len: int) -> bool {
    0 <= r.0 <= r.1 <= len
}

/// `s` over the range `r`.
pub open spec fn bytes_in(s: Seq<u8>, r: (int, int)) -> Seq<u8> {
    s.subrange(r.0, r.1)
}

impl Command {
    #[verifier::type_invariant]
    spec fn well_formed(self) -> bool {
        let v = self@;
        &&& within(v.trimmed, v.line.len() as int)
        &&& within(v.verb, v.line.len() as int)
        &&& v.text matches Some(t) ==> within(t, v.line.len() as int)
    }

    /// Returns the entire line, unmodified but for the verb set to uppercase.
    pub fn line(&self) -> (r: &[u8])
        ensures
            r@ == self@.line,
    {
        self.line.as_slice()
    }

    /// Returns the line without leading and trailing whitespace.
    pub fn trimmed(&self) -> (r: &[u8])
        ensures
            r@ == bytes_in(self@.line, self@.trimmed),
    {
        proof {
            use_type_invariant(self);
        }
        let s = self.line.as_slice();
        &s[self.trimmed.start..self.trimmed.end]
    }

    /// Returns the verb, in uppercase.
    pub fn verb(&self) -> (r: &[u8])
        ensures
            r@ == bytes_in(self@.line, self@.verb),
    {
        proof {
            use_type_invariant(self);
        }
        let s = self.line.as_slice();
        &s[self.verb.start..self.verb.end]
    }

    /// Returns the argument text, if there is any.
    pub fn text(&self) -> (r: Option<&[u8]>)
        ensures
            r is Some <==> self@.text is Some,
            r matches Some(t) ==> t@ == bytes_in(self@.line, self@.text->0),
            self@.text matches Some(t) ==> within(t, self@.line.len() as int),
    {
        proof {
            use_type_invariant(self);
        }
        match &self.text {
            Some(t) => {
                let s = self.line.as_slice();
                Some(&s[t.start..t.end])
            },
            None => None,
        }
    }

    /// Returns whether more lines of the same command follow.
    pub fn multiline(&self) -> (r: MultiLine)
        ensures
            r == self@.multiline,
    {
        self.multiline
    }

    /// Returns the range over the line without leading and trailing whitespace.
    pub fn trimmed_range(&self) -> (r: Range<usize>)
        ensures
            (r.start as int, r.end as int) == self@.trimmed,
    {
        self.trimmed.start..self.trimmed.end
    }

    /// Returns the range over the line holding the verb.
    pub fn verb_range(&self) -> (r: Range<usize>)
        ensures
            (r.start as int, r.end as int) == self@.verb,
    {
        self.verb.start..self.verb.end
    }

    /// Returns the range over the line holding the text, if there is any.
    pub fn text_range(&self) -> (r: Option<Range<usize>>)
        ensures
            r is Some <==> self@.text is Some,
            r matches Some(t) ==> (t.start as int, t.end as int) == self@.text->0,
    {
        match &self.text {
            Some(t) => Some(t.start..t.end),
            None => None,
        }
    }
}

fn is_whitespace_byte(b: u8) -> (r: bool)
    ensures
        r == is_whitespace(b),
{
    b == 0x20 || b == 0x09 || b == 0x0a || b == 0x0c || b == 0x0d
}

fn is_separator_byte(b: u8) -> (r: bool)
    ensures
        r == is_separator(b),
{
    b == 0x20 || b == 0x2d
}

fn to_upper_byte(b: u8) -> (r: u8)
    ensures
        r == to_upper(b),
{
    if 0x61 <= b && b <= 0x7a {
        b - 0x20
    } else {
        b
    }
}

/// Parses a line as a command (RFC 5321, section 2.4).
///
/// Leading and trailing whitespace is tolerated (section 4.1.1 asks it of trailing whitespace;
/// leading whitespace is accepted too). The verb is turned to uppercase, as it is the part of a
/// command that is not case-sensitive; the text keeps its case, as the local part of a mailbox
/// is case-sensitive. Line endings are not checked here.
///
/// The text is the whole remainder after the separator, whitespace included; it is `None` when
/// that remainder is empty or only whitespace. The verb is never empty: a line whose trimmed text
/// starts with a separator is refused with [`CommandError::NoVerb`].
pub fn parse(line: Vec<u8>) -> (r: Result<Command, CommandError>)
    ensures
        match r {
            Ok(c) => parse_spec(line@) == Ok::<CommandView, CommandError>(c@),
            Err(e) => parse_spec(line@) == Err::<CommandView, CommandError>(e),
        },
        r matches Ok(c) ==> c@.verb.0 < c@.verb.1,
{
    let ghost s = line@;
    let mut line = line;
    let n = line.len();
    if n == 0 {
        return Err(CommandError::Empty);
    }
    let mut start: usize = 0;
    while start < n && is_whitespace_byte(line[start])
        invariant
            line@ == s,
            n == s.len(),
            start <= n,
            skip_whitespace(s, 0, n as int) == skip_whitespace(s, start as int, n as int),
        decreases n - start,
    {
        start += 1;
    }
    let mut end: usize = n;
    while end > 0 && is_whitespace_byte(line[end - 1])
        invariant
            line@ == s,
            n == s.len(),
            end <= n,
            trim_end(s, n as int) == trim_end(s, end as int),
        decreases end,
    {
        end -= 1;
    }
    if start >= end {
        return Err(CommandError::OnlyWhitespace);
    }
    let mut sep: usize = start;
    while sep < end && !is_separator_byte(line[sep])
        invariant
            line@ == s,
            n == s.len(),
            start <= sep <= end <= n,
            find_separator(s, start as int, end as int) == find_separator(
                s,
                sep as int,
                end as int,
            ),
        decreases end - sep,
    {
        sep += 1;
    }
    if sep == start {
        return Err(CommandError::NoVerb);
    }
    let multiline = if sep < end && line[sep] == 0x2d {
        MultiLine::HasNext
    } else {
        MultiLine::LastLine
    };
    let text = if sep < end {
        let mut text_start: usize = sep + 1;
        while text_start < end && is_whitespace_byte(line[text_start])
            invariant
                line@ == s,
                n == s.len(),
                sep < end <= n,
                sep + 1 <= text_start <= end,
                skip_whitespace(s, sep + 1, end as int) == skip_whitespace(
                    s,
                    text_start as int,
                    end as int,
                ),
            decreases end - text_start,
        {
            text_start += 1;
        }
        if text_start < end {
            Some(sep + 1..end)
        } else {
            None
        }
    } else {
        None
    };
    let mut i: usize = start;
    while i < sep
        invariant
            n == s.len(),
            line@.len() == n,
            start <= i <= sep <= n,
            forall|j: int|
                0 <= j < n ==> #[trigger] line@[j] == (if start <= j < i {
                    to_upper(s[j])
                } else {
                    s[j]
                }),
        decreases sep - i,
    {
        let b = to_upper_byte(line[i]);
        line[i] = b;
        i += 1;
    }
    assert(line@ =~= uppercase_range(s, start as int, sep as int));
    Ok(Command { line, trimmed: start..end, verb: start..sep, text, multiline })
}

} // verus!

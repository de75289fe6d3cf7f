use smtp_gateway::command::{parse, Command, CommandError, MultiLine};

fn parse_str(s: &str) -> Command {
    parse(s.as_bytes().to_vec()).unwrap()
}

fn parse_err(s: &str) -> CommandError {
    match parse(s.as_bytes().to_vec()) {
        Ok(c) => panic!("parsed {:?}", c),
        Err(e) => e,
    }
}

#[test]
fn test_command_parsing() {
    let command = parse_str("  foo bar baz bim  \r\n");

    // Tests that it constructs the right object.
    assert_eq!(command.line(), b"  FOO bar baz bim  \r\n");
    assert_eq!(command.trimmed_range(), 2..17);
    assert_eq!(command.verb_range(), 2..5);
    assert_eq!(command.text_range(), Some(6..17));
    assert_eq!(command.multiline(), MultiLine::LastLine);

    // Tests that it produces the right strings.
    assert_eq!(command.line(), b"  FOO bar baz bim  \r\n");
    assert_eq!(command.trimmed(), b"FOO bar baz bim");
    assert_eq!(command.verb(), b"FOO");
    assert_eq!(command.text(), Some(&b"bar baz bim"[..]));

    // Tests that it does not perform any `CRLF` checks.
    assert_eq!(parse_str("foo bar\n").line(), b"FOO bar\n");

    // Test for handling of no text.
    let command = parse_str("foo\r\n");
    assert_eq!(command.line(), b"FOO\r\n");
    assert_eq!(command.trimmed_range(), 0..3);
    assert_eq!(command.verb_range(), 0..3);
    assert_eq!(command.text_range(), None);
    assert_eq!(command.multiline(), MultiLine::LastLine);

    // Test that having a space but no text after the verb still counts as no text.
    let command = parse_str("foo \r\n");
    assert_eq!(command.line(), b"FOO \r\n");
    assert_eq!(command.trimmed_range(), 0..3);
    assert_eq!(command.verb_range(), 0..3);
    assert_eq!(command.text_range(), None);
    assert_eq!(command.multiline(), MultiLine::LastLine);
}

#[test]
fn verb_is_uppercased_and_text_keeps_its_case() {
    let command = parse_str("mail FROM:<Smith>\r\n");
    assert_eq!(command.verb(), b"MAIL");
    assert_eq!(command.text(), Some(&b"FROM:<Smith>"[..]));
    assert_eq!(command.line(), b"MAIL FROM:<Smith>\r\n");
}

#[test]
fn dash_marks_a_continued_line() {
    let first = parse_str("250-first\r\n");
    assert_eq!(first.multiline(), MultiLine::HasNext);
    assert_eq!(first.verb(), b"250");
    assert_eq!(first.text(), Some(&b"first"[..]));

    let last = parse_str("250 last\r\n");
    assert_eq!(last.multiline(), MultiLine::LastLine);
    assert_eq!(last.verb(), b"250");
    assert_eq!(last.text(), Some(&b"last"[..]));
}

#[test]
fn no_argument_gives_no_text() {
    assert_eq!(parse_str("foo \r\n").text(), None);
    assert_eq!(parse_str("foo\r\n").text(), None);
}

#[test]
fn separator_without_text_gives_no_text() {
    let command = parse_str("foo-\r\n");
    assert_eq!(command.verb(), b"FOO");
    assert_eq!(command.text(), None);
    assert_eq!(command.multiline(), MultiLine::HasNext);
}

#[test]
fn text_keeps_the_whitespace_after_the_separator() {
    let command = parse_str("HELO   there\r\n");
    assert_eq!(command.text(), Some(&b"  there"[..]));
    assert_eq!(command.text_range(), Some(5..12));
    assert_eq!(parse_str("a  b\r\n").text(), Some(&b" b"[..]));
}

#[test]
fn line_without_verb_is_refused() {
    assert_eq!(parse_err("-foo\r\n"), CommandError::NoVerb);
    assert_eq!(parse_err("  -x\r\n"), CommandError::NoVerb);
    assert_eq!(CommandError::NoVerb.message(), "command has no verb");
}

#[test]
fn only_the_verb_is_uppercased() {
    let command = parse_str("\tnoop  mixed Case\r\n");
    assert_eq!(command.line(), b"\tNOOP  mixed Case\r\n");
    assert_eq!(command.trimmed(), b"NOOP  mixed Case");
}

#[test]
fn empty_line_is_refused() {
    assert_eq!(parse_err(""), CommandError::Empty);
    assert_eq!(CommandError::Empty.message(), "empty command");
}

#[test]
fn whitespace_line_is_refused() {
    assert_eq!(parse_err("  \t \r\n"), CommandError::OnlyWhitespace);
    assert_eq!(
        CommandError::OnlyWhitespace.message(),
        "command consists only of whitespace"
    );
}

#[test]
fn split_gives_the_separator() {
    assert_eq!(MultiLine::LastLine.split(), ' ');
    assert_eq!(MultiLine::HasNext.split(), '-');
}

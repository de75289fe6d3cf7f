use smtp_gateway::command::parse;
use smtp_gateway::commands::{hello, not_implemented, quit, unrecognized};
use smtp_gateway::connection::{
    dispatch, handle, Action, CloseReason, Event, Phase, Session, ShouldClose,
};
use smtp_gateway::is_smtp_domain_name;
use smtp_gateway::timeouts;

fn serving() -> Session {
    let mut session = Session::new("example.com").unwrap();
    session.greet();
    session
}

fn reply_to(session: &mut Session, line: &str) -> Vec<u8> {
    match session.step(Event::Line(line.as_bytes().to_vec())) {
        Action::Reply(reply) => reply.as_bytes().to_vec(),
        other => panic!("unexpected {:?}", other),
    }
}

fn answer(line: &[u8]) -> (Vec<u8>, ShouldClose) {
    let (reply, close) = handle("example.com", line);
    (reply.as_bytes().to_vec(), close)
}

#[test]
fn greeting_on_connect() {
    let mut session = Session::new("example.com").unwrap();
    assert_eq!(session.phase(), Phase::Greeting);
    let greeting = session.greet();
    assert!(greeting
        .as_bytes()
        .starts_with(b"220 example.com SMTP service ready\r\n"));
    assert_eq!(greeting.as_bytes(), b"220 example.com SMTP service ready\r\n");
    assert_eq!(session.phase(), Phase::Serving);
}

#[test]
fn session_needs_a_domain_name() {
    assert!(Session::new("example dot com").is_none());
}

#[test]
fn hello_greets_the_client() {
    let mut session = serving();
    let reply = reply_to(&mut session, "HELO there\r\n");
    assert!(reply.starts_with(b"250 "));
    assert_eq!(reply, b"250 example.com greets there\r\n");
    assert_eq!(session.phase(), Phase::Serving);
}

#[test]
fn hello_without_text_greets_client() {
    assert_eq!(
        answer(b"helo\r\n"),
        (b"250 example.com greets client\r\n".to_vec(), ShouldClose::Keep)
    );
}

#[test]
fn hello_with_domain_stops_at_space() {
    assert_eq!(
        answer(b"HELO relay.example.org extra\r\n").0,
        b"250 example.com greets relay.example.org\r\n"
    );
}

#[test]
fn hello_with_two_spaces_names_an_empty_client() {
    assert_eq!(
        answer(b"HELO  there\r\n").0,
        b"250 example.com greets \r\n"
    );
}

#[test]
fn hello_with_a_line_break_in_the_client() {
    assert_eq!(
        answer(b"HELO x\r250\r\n"),
        (
            b"500 Syntax error - line break in client identifier\r\n".to_vec(),
            ShouldClose::Keep
        )
    );
    assert_eq!(
        answer(b"HELO [1\r2]\r\n").0,
        b"500 Syntax error - line break in client identifier\r\n"
    );
}

#[test]
fn hello_with_address_literal() {
    assert_eq!(
        answer(b"HELO [192.0.2.1] more\r\n").0,
        b"250 example.com greets 192.0.2.1\r\n"
    );
}

#[test]
fn hello_with_unterminated_literal() {
    assert_eq!(
        answer(b"HELO [192.0.2.1\r\n"),
        (
            b"500 Syntax error - unterminated '[' in address literal\r\n".to_vec(),
            ShouldClose::Keep
        )
    );
}

#[test]
fn quit_says_bye_and_closes() {
    let mut session = serving();
    match session.step(Event::Line(b"QUIT\r\n".to_vec())) {
        Action::ReplyAndClose(reply, reason) => {
            assert_eq!(reply.as_bytes(), b"221 Bye\r\n");
            assert_eq!(reason, CloseReason::ClientQuit);
        }
        other => panic!("unexpected {:?}", other),
    }
    assert_eq!(
        session.phase(),
        Phase::Terminated(CloseReason::ClientQuit)
    );
}

#[test]
fn lowercase_quit_closes() {
    assert_eq!(
        answer(b"  quit  \r\n"),
        (
            b"221 Bye\r\n".to_vec(),
            ShouldClose::Close(CloseReason::ClientQuit)
        )
    );
}

#[test]
fn unknown_verb_keeps_the_session() {
    let mut session = serving();
    assert_eq!(reply_to(&mut session, "FOO\r\n"), b"500 Command not recognized\r\n");
    assert_eq!(session.phase(), Phase::Serving);
    let reply = reply_to(&mut session, "HELO there\r\n");
    assert_eq!(reply, b"250 example.com greets there\r\n");
}

#[test]
fn unimplemented_verbs() {
    for verb in ["EHLO", "MAIL", "RCPT", "DATA", "RSET", "NOOP", "VRFY", "mail FROM:<a@b>"] {
        let line = format!("{}\r\n", verb);
        assert_eq!(
            answer(line.as_bytes()),
            (b"502 Command not implemented\r\n".to_vec(), ShouldClose::Keep)
        );
    }
}

#[test]
fn bare_line_feed_is_a_syntax_error() {
    let mut session = serving();
    assert_eq!(
        reply_to(&mut session, "MAIL FROM:<a@b>\n"),
        b"500 Syntax error - no trailing CRLF\r\n"
    );
    assert_eq!(session.phase(), Phase::Serving);
    assert_eq!(answer(b"QUIT").0, b"500 Syntax error - no trailing CRLF\r\n");
}

#[test]
fn non_ascii_line_is_a_syntax_error() {
    assert_eq!(
        answer("HELO caf\u{e9}\r\n".as_bytes()),
        (
            b"500 Syntax error - invalid character\r\n".to_vec(),
            ShouldClose::Keep
        )
    );
}

#[test]
fn whitespace_line_is_a_syntax_error() {
    assert_eq!(
        answer(b" \t\r\n"),
        (
            b"500 Syntax error - command consists only of whitespace\r\n".to_vec(),
            ShouldClose::Keep
        )
    );
}

#[test]
fn line_without_verb_is_a_syntax_error() {
    let mut session = serving();
    assert_eq!(
        reply_to(&mut session, "-x\r\n"),
        b"500 Syntax error - command has no verb\r\n"
    );
    assert_eq!(session.phase(), Phase::Serving);
}

#[test]
fn idle_session_times_out_without_reply() {
    let mut session = serving();
    match session.step(Event::TimedOut) {
        Action::Close(reason) => assert_eq!(reason, CloseReason::TimedOut),
        other => panic!("unexpected {:?}", other),
    }
    assert_eq!(session.phase(), Phase::Terminated(CloseReason::TimedOut));
}

#[test]
fn disconnected_client_ends_the_session() {
    let mut session = serving();
    match session.step(Event::Disconnected) {
        Action::Close(reason) => assert_eq!(reason, CloseReason::ClientDisconnected),
        other => panic!("unexpected {:?}", other),
    }
    assert_eq!(
        session.phase(),
        Phase::Terminated(CloseReason::ClientDisconnected)
    );
}

#[test]
fn reply_builders() {
    let command = parse(b"noop\r\n".to_vec()).unwrap();
    let (reply, close) = unrecognized(&command);
    assert_eq!(reply.as_bytes(), b"500 Command not recognized\r\n");
    assert_eq!(close, ShouldClose::Keep);
    let (reply, close) = not_implemented(&command);
    assert_eq!(reply.as_bytes(), b"502 Command not implemented\r\n");
    assert_eq!(close, ShouldClose::Keep);
    let (reply, close) = quit(&command);
    assert_eq!(reply.as_bytes(), b"221 Bye\r\n");
    assert_eq!(close, ShouldClose::Close(CloseReason::ClientQuit));
    let (reply, _) = dispatch("mx.test", &command);
    assert_eq!(reply.as_bytes(), b"502 Command not implemented\r\n");
    let command = parse(b"HELO me\r\n".to_vec()).unwrap();
    let (reply, close) = hello("mx.test", &command);
    assert_eq!(reply.as_bytes(), b"250 mx.test greets me\r\n");
    assert_eq!(close, ShouldClose::Keep);
}

#[test]
fn server_timeouts() {
    assert_eq!(timeouts::SERVER_TIMEOUT, 300);
    assert_eq!(timeouts::INITIAL_220_MESSAGE, 120);
    assert_eq!(timeouts::MAIL, 300);
    assert_eq!(timeouts::RCPT, 300);
    assert_eq!(timeouts::DATA_INITIALIZATION, 120);
    assert_eq!(timeouts::DATA_BLOCK, 180);
    assert_eq!(timeouts::DATA_TERMINATION, 600);
    assert_eq!(timeouts::EXPECTED, 3);
}

#[test]
fn smtp_domain_names() {
    assert!(is_smtp_domain_name("example.com"));
    assert!(is_smtp_domain_name("subdomain.example.com"));
    assert!(is_smtp_domain_name("notld"));
    assert!(!is_smtp_domain_name("example dot com"));
    assert!(!is_smtp_domain_name("plus+.com"));
    assert!(!is_smtp_domain_name("caf\u{e9}.fr"));
}

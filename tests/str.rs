use smtp_gateway::max_lengths;
use smtp_gateway::str::{replace_endings_with_crlf, RawSmtpStr, SmtpString, MAX_LEN};

fn normalized(s: &str) -> Vec<u8> {
    SmtpString::new(s).unwrap().as_bytes().to_vec()
}

fn has_crlf_endings(s: &[u8]) -> bool {
    (0..s.len()).all(|i| {
        (s[i] != b'\n' || (i > 0 && s[i - 1] == b'\r'))
            && (s[i] != b'\r' || (i + 1 < s.len() && s[i + 1] == b'\n'))
    })
}

#[test]
fn new_repairs_line_endings() {
    let smtp = SmtpString::new("LF\nCR\rLFCR\n\rCRLF\r\nCRLFCRLF\r\n\r\n").unwrap();
    assert_eq!(
        smtp.as_bytes(),
        b"LF\r\nCR\r\nLFCR\r\n\r\nCRLF\r\nCRLFCRLF\r\n\r\n"
    );
}

#[test]
fn each_bare_ending_is_repaired_on_its_own() {
    assert_eq!(normalized("\r"), b"\r\n");
    assert_eq!(normalized("\n"), b"\r\n");
    assert_eq!(normalized("\n\r"), b"\r\n\r\n");
    assert_eq!(normalized("\r\r\n"), b"\r\n\r\n");
    assert_eq!(normalized(""), b"");
    assert_eq!(normalized("lorem"), b"lorem");
    assert_eq!(normalized("lorem\r"), b"lorem\r\n");
    assert_eq!(normalized("lorem\n"), b"lorem\r\n");
}

#[test]
fn normalizing_twice_is_normalizing_once() {
    for s in ["a\nb\rc\n\r\r\n", "\r\r\r", "\n\n", "plain", "x\r\ny\r\n"] {
        let once = normalized(s);
        let twice = SmtpString::from_bytes(&once).unwrap();
        assert_eq!(twice.as_bytes(), &once[..]);
    }
}

#[test]
fn normalized_text_has_crlf_endings() {
    for s in ["a\nb\rc\n\r\r\n", "\r\r\r", "\n\n", "\r", "end\r"] {
        assert!(has_crlf_endings(&normalized(s)));
    }
}

#[test]
fn non_ascii_is_rejected() {
    let err = SmtpString::new("abc\u{e9}\r\n").unwrap_err();
    assert_eq!(err.valid_up_to(), 3);
    let err = SmtpString::from_bytes(&[b'a', 0x80, b'\n', b'\r']).unwrap_err();
    assert_eq!(err.valid_up_to(), 1);
    let err = SmtpString::from_bytes(&[0xff]).unwrap_err();
    assert_eq!(err.valid_up_to(), 0);
    assert!(SmtpString::from_bytes(&[0x7f, b'\r', b'\n']).is_ok());
}

#[test]
fn unchecked_keeps_the_bytes() {
    let smtp = SmtpString::from_ascii_str_unchecked(b"ok\r\n".to_vec());
    assert_eq!(smtp.as_inner(), &b"ok\r\n".to_vec());
    assert_eq!(smtp.into_bytes(), b"ok\r\n".to_vec());
}

fn raw(s: &str) -> Vec<u8> {
    RawSmtpStr::new(s).as_bytes().to_vec()
}

#[test]
fn raw_string_repairs_line_endings() {
    assert_eq!(raw("\r"), b"\r\n");
    assert_eq!(raw("\n"), b"\r\n");
    assert_eq!(raw("\n\r"), b"\r\n\r\n");
    assert_eq!(raw(&"\n".repeat(MAX_LEN / 2)), "\r\n".repeat(MAX_LEN / 2).into_bytes());

    assert_eq!(raw(""), b"");
    assert_eq!(raw("lorem"), b"lorem");
    assert_eq!(raw("lorem\r"), b"lorem\r\n");
    assert_eq!(raw("lorem\n"), b"lorem\r\n");

    assert_eq!(raw(&" ".repeat(MAX_LEN)), " ".repeat(MAX_LEN).into_bytes());
}

#[test]
fn raw_string_sizes() {
    let zeroed = RawSmtpStr::new_zeroed();
    assert_eq!(zeroed.len(), 0);
    assert_eq!(zeroed.capacity(), MAX_LEN);
    let s = RawSmtpStr::new_from_ascii(b"a\nb");
    assert_eq!(s.len(), 4);
    assert_eq!(s.into_smtp_string().as_bytes(), b"a\r\nb");
}

#[test]
fn length_limits() {
    assert_eq!(max_lengths::LOCAL_PART, 64);
    assert_eq!(max_lengths::DOMAIN, 255);
    assert_eq!(max_lengths::PATH, 256);
    assert_eq!(max_lengths::COMMAND_LINE, 512);
    assert_eq!(max_lengths::REPLY_LINE, 512);
    assert_eq!(max_lengths::TEXT_LINE, 1_000);
    assert_eq!(max_lengths::MESSAGE, 64_000);
}

#[test]
fn replacing_endings_twice_is_replacing_once() {
    let once = replace_endings_with_crlf(b"a\nb\rc\n\r\r\n");
    assert_eq!(once, b"a\r\nb\r\nc\r\n\r\n\r\n".to_vec());
    assert!(has_crlf_endings(&once));
    assert_eq!(replace_endings_with_crlf(&once), once);
}

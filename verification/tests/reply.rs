use native_stub::reply::{respond, run_inference, REPLY_PREFIX};

fn expected(text: &str) -> Vec<u8> {
    let mut bytes = text.as_bytes().to_vec();
    bytes.push(0);
    bytes
}

#[test]
fn prefix_is_the_fixed_sentence() {
    assert_eq!(REPLY_PREFIX, "Rust native stub reply for: ");
    assert_eq!(REPLY_PREFIX.len(), 28);
    assert!(REPLY_PREFIX.is_ascii());
}

#[test]
fn empty_request_yields_bare_prefix() {
    let buf = run_inference(b"");
    assert_eq!(buf, expected("Rust native stub reply for: "));
    assert_eq!(buf.len(), 29);
    assert_eq!(buf[28], 0);
}

#[test]
fn hello_is_echoed_after_the_prefix() {
    let buf = run_inference(b"hello");
    assert_eq!(buf, b"Rust native stub reply for: hello\0".to_vec());
    let text = std::str::from_utf8(&buf[..buf.len() - 1]);
    assert_eq!(text, Ok("Rust native stub reply for: hello"));
}

#[test]
fn valid_multibyte_request_is_echoed_byte_for_byte() {
    let request = "h\u{e9}llo \u{2713} \u{1F600}";
    let buf = run_inference(request.as_bytes());
    assert_eq!(buf.len(), request.len() + 29);
    assert_eq!(&buf[..28], REPLY_PREFIX.as_bytes());
    assert_eq!(&buf[28..buf.len() - 1], request.as_bytes());
    assert_eq!(buf[buf.len() - 1], 0);
}

#[test]
fn lone_invalid_byte_becomes_one_marker() {
    let buf = run_inference(b"a\xffb");
    assert_eq!(buf, expected("Rust native stub reply for: a\u{FFFD}b"));
}

#[test]
fn each_invalid_sequence_gets_its_own_marker() {
    let buf = run_inference(b"\xff\xfeok\xc0");
    assert_eq!(buf, expected("Rust native stub reply for: \u{FFFD}\u{FFFD}ok\u{FFFD}"));
}

#[test]
fn truncated_sequence_becomes_one_marker() {
    let buf = run_inference(b"\xe2\x82");
    assert_eq!(buf, expected("Rust native stub reply for: \u{FFFD}"));
    let text = String::from_utf8(buf[..buf.len() - 1].to_vec());
    assert!(matches!(text, Ok(ref t) if t.contains('\u{FFFD}')));
}

#[test]
fn invalid_request_is_not_handed_back_unchanged() {
    let buf = run_inference(b"\x80");
    assert_ne!(&buf[28..buf.len() - 1], b"\x80");
    assert_eq!(&buf[28..buf.len() - 1], "\u{FFFD}".as_bytes());
}

#[test]
fn respond_wraps_text_and_terminates() {
    assert_eq!(respond("hello"), b"Rust native stub reply for: hello\0".to_vec());
    assert_eq!(respond(""), b"Rust native stub reply for: \0".to_vec());
    assert_eq!(respond("\u{FFFD}"), expected("Rust native stub reply for: \u{FFFD}"));
}

#[test]
fn embedded_zero_in_request_is_kept() {
    let buf = run_inference(b"a\0b");
    assert_eq!(buf, b"Rust native stub reply for: a\0b\0".to_vec());
}

use thumbnail_relay::length::{announced_length, parse_announced_length, LengthError, LENGTH_CHUNK};

fn parse_error_text(r: Result<usize, LengthError>) -> String {
    match r {
        Err(LengthError::Parse(t)) => t,
        Err(LengthError::Encoding) => panic!("expected a parse error, got an encoding error"),
        Ok(n) => panic!("expected a parse error, got {}", n),
    }
}

#[test]
fn plain_number_is_read() {
    assert_eq!(announced_length(b"150").ok(), Some(150));
}

#[test]
fn surrounding_white_space_is_dropped() {
    assert_eq!(announced_length(b"  4096\n").ok(), Some(4096));
    assert_eq!(announced_length(b"\t12\r\n").ok(), Some(12));
    assert_eq!(parse_announced_length("\u{3000}7\u{a0}").ok(), Some(7));
}

#[test]
fn largest_size_is_read() {
    let text = format!(" {}\n", usize::MAX);
    assert!(text.len() <= LENGTH_CHUNK);
    assert_eq!(announced_length(text.as_bytes()).ok(), Some(usize::MAX));
}

#[test]
fn zero_is_read() {
    assert_eq!(announced_length(b"0\n").ok(), Some(0));
}

#[test]
fn plus_sign_is_accepted() {
    assert_eq!(announced_length(b"+25").ok(), Some(25));
}

#[test]
fn empty_text_is_refused() {
    assert_eq!(parse_error_text(announced_length(b"")), "");
    assert_eq!(parse_error_text(announced_length(b"  \n")), "");
}

#[test]
fn non_numeric_text_is_refused() {
    assert_eq!(parse_error_text(announced_length(b" abc \n")), "abc");
    assert_eq!(parse_error_text(announced_length(b"12 34")), "12 34");
}

#[test]
fn negative_number_is_refused() {
    assert_eq!(parse_error_text(announced_length(b"-5\n")), "-5");
}

#[test]
fn overflowing_number_is_refused() {
    let text = format!("{}0", usize::MAX);
    assert_eq!(parse_error_text(announced_length(text.as_bytes())), text);
}

#[test]
fn invalid_utf8_is_refused() {
    assert!(matches!(announced_length(&[0x31, 0xff, 0x32]), Err(LengthError::Encoding)));
}

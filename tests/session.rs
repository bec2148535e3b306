use thumbnail_relay::session::{Action, ErrorKind, Event, Phase, Session};

fn bytes_of(a: Action) -> Vec<u8> {
    match a {
        Action::Transform(b) => b,
        Action::WriteAll(b) => b,
        _ => panic!("expected an action with bytes"),
    }
}

fn abort_of(a: Action) -> (ErrorKind, String) {
    match a {
        Action::Abort(e) => (e.kind, e.message),
        _ => panic!("expected an abort"),
    }
}

/// A session that has read the announced length `text` and accepted the
/// second connection; returns the action that followed.
fn session_at_payload(text: &[u8]) -> (Session, Action) {
    let mut s = Session::new();
    assert!(matches!(s.step(Event::Done), Action::AcceptLength));
    assert!(matches!(s.step(Event::Done), Action::ReadLength(32)));
    assert!(matches!(s.step(Event::Data(text.to_vec())), Action::AcceptPayload));
    let a = s.step(Event::Done);
    (s, a)
}

#[test]
fn identity_transform_returns_the_payload() {
    let payload: Vec<u8> = (0..=255u8).collect();
    let (mut s, a) = session_at_payload(b"256\n");
    assert!(matches!(a, Action::ReadPayload(256)));
    let sent = bytes_of(s.step(Event::Data(payload.clone())));
    assert_eq!(sent, payload);
    let written = bytes_of(s.step(Event::Produced(sent)));
    assert_eq!(written, payload);
    assert!(matches!(s.step(Event::Done), Action::Flush));
    assert!(matches!(s.step(Event::Done), Action::Finish));
    assert_eq!(s.phase(), Phase::Finished);
}

#[test]
fn payload_in_several_reads_is_assembled() {
    let (mut s, a) = session_at_payload(b"10");
    assert!(matches!(a, Action::ReadPayload(10)));
    assert_eq!(s.announced_length(), 10);
    assert!(matches!(s.step(Event::Data(vec![1, 2, 3])), Action::ReadPayload(7)));
    assert!(matches!(s.step(Event::Data(vec![4])), Action::ReadPayload(6)));
    let sent = bytes_of(s.step(Event::Data(vec![5, 6, 7, 8, 9, 10])));
    assert_eq!(sent, vec![1, 2, 3, 4, 5, 6, 7, 8, 9, 10]);
    assert_eq!(s.phase(), Phase::Transforming);
}

#[test]
fn transform_output_is_written_as_given() {
    let (mut s, _) = session_at_payload(b"2");
    let _ = s.step(Event::Data(vec![7, 7]));
    let written = bytes_of(s.step(Event::Produced(vec![9, 8, 7, 6])));
    assert_eq!(written, vec![9, 8, 7, 6]);
    assert_eq!(s.phase(), Phase::Writing);
}

#[test]
fn short_read_fails_the_session() {
    let (mut s, _) = session_at_payload(b"5");
    assert!(matches!(s.step(Event::Data(vec![1, 2])), Action::ReadPayload(3)));
    let (kind, _) = abort_of(s.step(Event::Data(Vec::new())));
    assert_eq!(kind, ErrorKind::ShortRead);
    assert_eq!(s.phase(), Phase::Failed);
}

#[test]
fn empty_payload_goes_straight_to_transform() {
    let (mut s, a) = session_at_payload(b"0\n");
    assert_eq!(bytes_of(a), Vec::<u8>::new());
    let (kind, message) = abort_of(s.step(Event::Failed("no image".to_string())));
    assert_eq!(kind, ErrorKind::Transform);
    assert_eq!(message, "no image");
    assert_eq!(s.phase(), Phase::Failed);
}

#[test]
fn transform_failure_aborts_without_write() {
    let (mut s, _) = session_at_payload(b"3");
    assert_eq!(bytes_of(s.step(Event::Data(vec![0, 1, 2]))), vec![0, 1, 2]);
    let (kind, message) = abort_of(s.step(Event::Failed("bad image".to_string())));
    assert_eq!(kind, ErrorKind::Transform);
    assert_eq!(message, "bad image");
    assert_eq!(s.phase(), Phase::Failed);
}

#[test]
fn refused_length_ends_before_second_accept() {
    for text in [&b"abc"[..], &b""[..], &b"-12\n"[..]] {
        let mut s = Session::new();
        let _ = s.step(Event::Done);
        let _ = s.step(Event::Done);
        let (kind, _) = abort_of(s.step(Event::Data(text.to_vec())));
        assert_eq!(kind, ErrorKind::Parse);
        assert_eq!(s.phase(), Phase::Failed);
    }
}

#[test]
fn parse_error_names_the_text() {
    let mut s = Session::new();
    let _ = s.step(Event::Done);
    let _ = s.step(Event::Done);
    let (kind, message) = abort_of(s.step(Event::Data(b" 12x \n".to_vec())));
    assert_eq!(kind, ErrorKind::Parse);
    assert_eq!(message, "12x");
}

#[test]
fn invalid_text_is_an_encoding_error() {
    let mut s = Session::new();
    let _ = s.step(Event::Done);
    let _ = s.step(Event::Done);
    let (kind, _) = abort_of(s.step(Event::Data(vec![0xc3, 0x28])));
    assert_eq!(kind, ErrorKind::Encoding);
}

#[test]
fn failures_name_their_operation() {
    let mut s = Session::new();
    let (kind, message) = abort_of(s.step(Event::Failed("address in use".to_string())));
    assert_eq!((kind, message.as_str()), (ErrorKind::Bind, "address in use"));

    let mut s = Session::new();
    let _ = s.step(Event::Done);
    assert_eq!(abort_of(s.step(Event::Failed("e".to_string()))).0, ErrorKind::Accept);

    let mut s = Session::new();
    let _ = s.step(Event::Done);
    let _ = s.step(Event::Done);
    assert_eq!(abort_of(s.step(Event::Failed("reset".to_string()))).0, ErrorKind::Read);

    let (mut s, _) = session_at_payload(b"1");
    let _ = s.step(Event::Data(vec![1]));
    let _ = s.step(Event::Produced(vec![2]));
    assert_eq!(abort_of(s.step(Event::Failed("pipe".to_string()))).0, ErrorKind::Write);
}

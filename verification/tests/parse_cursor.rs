use bytes::Bytes;
use mini_redis::frame::Frame;
use mini_redis::parse::{Parse, ParseError};

fn bulk(data: &'static [u8]) -> Frame {
    Frame::Bulk(Bytes::from_static(data))
}

fn other(reason: &str) -> ParseError {
    ParseError::Other(reason.to_string())
}

#[test]
fn cursor_needs_an_array() {
    assert!(Parse::new(Frame::Array(vec![])).is_ok());
    for frame in vec![
        Frame::Simple("x".to_string()),
        Frame::Error("x".to_string()),
        Frame::Integer(1),
        bulk(b"x"),
        Frame::Null,
    ] {
        match Parse::new(frame) {
            Ok(_) => panic!("a frame that is no array was accepted"),
            Err(e) => assert_eq!(e, other("protocol error; expected array")),
        }
    }
}

#[test]
fn items_come_in_order() {
    let mut parse = Parse::new(Frame::Array(vec![
        Frame::Integer(1),
        bulk(b"two"),
        Frame::Simple("three".to_string()),
    ]))
    .unwrap();
    assert_eq!(parse.next(), Ok(Frame::Integer(1)));
    assert_eq!(parse.next(), Ok(bulk(b"two")));
    assert_eq!(parse.next(), Ok(Frame::Simple("three".to_string())));
    assert_eq!(parse.next(), Err(ParseError::EndOfStream));
    assert_eq!(parse.next(), Err(ParseError::EndOfStream));
}

#[test]
fn next_string_takes_simple_and_bulk() {
    let mut parse = Parse::new(Frame::Array(vec![
        Frame::Simple("plain".to_string()),
        bulk(b"h\xc3\xa9"),
        bulk(b"\xff"),
        Frame::Integer(5),
        Frame::Null,
    ]))
    .unwrap();
    assert_eq!(parse.next_string(), Ok("plain".to_string()));
    assert_eq!(parse.next_string(), Ok("h\u{e9}".to_string()));
    assert_eq!(parse.next_string(), Err(other("protocol error; invalid string")));
    assert_eq!(parse.next_string(), Err(other("protocol error; invalid string")));
    assert_eq!(parse.next_string(), Err(other("protocol error; invalid string")));
    assert_eq!(parse.next_string(), Err(ParseError::EndOfStream));
}

#[test]
fn next_bytes_takes_simple_and_bulk() {
    let mut parse = Parse::new(Frame::Array(vec![
        Frame::Simple("h\u{e9}".to_string()),
        bulk(b"\xff\x00"),
        Frame::Integer(5),
    ]))
    .unwrap();
    assert_eq!(parse.next_bytes(), Ok(Bytes::from_static(b"h\xc3\xa9")));
    assert_eq!(parse.next_bytes(), Ok(Bytes::from_static(b"\xff\x00")));
    assert_eq!(
        parse.next_bytes(),
        Err(other("protocol error; expected simple frame or bulk frame"))
    );
    assert_eq!(parse.next_bytes(), Err(ParseError::EndOfStream));
}

#[test]
fn next_int_takes_integers_and_decimal_text() {
    let mut parse = Parse::new(Frame::Array(vec![
        Frame::Integer(-9),
        Frame::Simple("12".to_string()),
        bulk(b"-34"),
        bulk(b"3x"),
        Frame::Simple(String::new()),
        Frame::Null,
        Frame::Array(vec![]),
    ]))
    .unwrap();
    assert_eq!(parse.next_int(), Ok(-9));
    assert_eq!(parse.next_int(), Ok(12));
    assert_eq!(parse.next_int(), Ok(-34));
    assert_eq!(parse.next_int(), Err(other("protocol error; invalid number")));
    assert_eq!(parse.next_int(), Err(other("protocol error; invalid number")));
    assert_eq!(parse.next_int(), Err(other("protocol error; invalid number")));
    assert_eq!(parse.next_int(), Err(other("protocol error; invalid number")));
    assert_eq!(parse.next_int(), Err(ParseError::EndOfStream));
}

#[test]
fn finish_refuses_trailing_items() {
    let mut parse = Parse::new(Frame::Array(vec![Frame::Integer(1)])).unwrap();
    assert_eq!(
        parse.finish(),
        Err(other("protocol error; expected end of frame, but there was more"))
    );
    assert_eq!(parse.next_int(), Ok(1));
    assert_eq!(parse.finish(), Ok(()));
    assert_eq!(parse.finish(), Ok(()));
}

#[test]
fn errors_have_a_text_for_the_client() {
    assert_eq!(
        ParseError::EndOfStream.message(),
        "protocol error; unexpected end of stream".to_string()
    );
    assert_eq!(other("because").message(), "because".to_string());
}

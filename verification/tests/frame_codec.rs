use bytes::Bytes;
use mini_redis::decimal::{parse_i64, parse_u64, push_i64, push_u64};
use mini_redis::decode::FrameError;
use mini_redis::frame::Frame;

fn bulk(data: &'static [u8]) -> Frame {
    Frame::Bulk(Bytes::from_static(data))
}

fn invalid() -> FrameError {
    FrameError::Other("protocol error; invalid frame format".to_string())
}

#[test]
fn ping_request_decodes_to_array_of_one_bulk() {
    let (frame, used) = Frame::parse(b"*1\r\n$4\r\nPING\r\n").unwrap();
    assert_eq!(used, 14);
    assert_eq!(frame, Frame::Array(vec![bulk(b"PING")]));
}

#[test]
fn bulk_of_length_zero_is_empty_blob_not_null() {
    let (frame, used) = Frame::parse(b"$0\r\n\r\n").unwrap();
    assert_eq!(used, 6);
    assert_eq!(frame, Frame::Bulk(Bytes::new()));
    assert_ne!(frame, Frame::Null);
}

#[test]
fn null_array_decodes_to_null() {
    let (frame, used) = Frame::parse(b"*-1\r\n").unwrap();
    assert_eq!(used, 5);
    assert_eq!(frame, Frame::Null);
}

#[test]
fn null_bulk_decodes_to_null() {
    let (frame, used) = Frame::parse(b"$-1\r\n").unwrap();
    assert_eq!(used, 5);
    assert_eq!(frame, Frame::Null);
}

#[test]
fn partial_frame_is_incomplete() {
    assert_eq!(Frame::parse(b"$5\r\nwor"), Err(FrameError::Incomplete));
    assert_eq!(Frame::parse(b""), Err(FrameError::Incomplete));
    assert_eq!(Frame::parse(b"+OK"), Err(FrameError::Incomplete));
    assert_eq!(Frame::parse(b"+OK\r"), Err(FrameError::Incomplete));
    assert_eq!(Frame::parse(b"*2\r\n$1\r\na\r\n"), Err(FrameError::Incomplete));
    assert_eq!(Frame::parse(b"$5\r\nworld\r"), Err(FrameError::Incomplete));
}

#[test]
fn every_strict_prefix_of_a_frame_is_incomplete() {
    let whole = b"*3\r\n$3\r\nSET\r\n$5\r\nhello\r\n$5\r\nworld\r\n";
    for cut in 0..whole.len() {
        assert_eq!(Frame::parse(&whole[..cut]), Err(FrameError::Incomplete), "cut at {}", cut);
    }
    let (frame, used) = Frame::parse(whole).unwrap();
    assert_eq!(used, whole.len());
    assert_eq!(frame, Frame::Array(vec![bulk(b"SET"), bulk(b"hello"), bulk(b"world")]));
}

#[test]
fn decoding_takes_only_the_first_frame() {
    let (frame, used) = Frame::parse(b"+OK\r\n:12\r\n").unwrap();
    assert_eq!(frame, Frame::Simple("OK".to_string()));
    assert_eq!(used, 5);
}

#[test]
fn simple_error_and_integer_decode() {
    assert_eq!(Frame::parse(b"+PONG\r\n").unwrap().0, Frame::Simple("PONG".to_string()));
    assert_eq!(Frame::parse(b"-ERR no\r\n").unwrap().0, Frame::Error("ERR no".to_string()));
    assert_eq!(Frame::parse(b":0\r\n").unwrap().0, Frame::Integer(0));
    assert_eq!(Frame::parse(b":-42\r\n").unwrap().0, Frame::Integer(-42));
    assert_eq!(Frame::parse(b":+42\r\n").unwrap().0, Frame::Integer(42));
    assert_eq!(
        Frame::parse(b":-9223372036854775808\r\n").unwrap().0,
        Frame::Integer(i64::MIN)
    );
    assert_eq!(Frame::parse(b":9223372036854775807\r\n").unwrap().0, Frame::Integer(i64::MAX));
}

#[test]
fn simple_text_is_decoded_as_utf8() {
    let (frame, used) = Frame::parse("+h\u{e9}llo \u{2603}\r\n".as_bytes()).unwrap();
    assert_eq!(frame, Frame::Simple("h\u{e9}llo \u{2603}".to_string()));
    assert_eq!(used, 13);
}

#[test]
fn malformed_frames_are_errors() {
    assert_eq!(Frame::parse(b"?what\r\n"), Err(invalid()));
    assert_eq!(Frame::parse(b"x"), Err(invalid()));
    assert_eq!(Frame::parse(b":12a\r\n"), Err(invalid()));
    assert_eq!(Frame::parse(b":\r\n"), Err(invalid()));
    assert_eq!(Frame::parse(b":9223372036854775808\r\n"), Err(invalid()));
    assert_eq!(Frame::parse(b"$-2\r\n"), Err(invalid()));
    assert_eq!(Frame::parse(b"$abc\r\n"), Err(invalid()));
    assert_eq!(Frame::parse(b"$3\r\nabcde\r\n"), Err(invalid()));
    assert_eq!(Frame::parse(b"*x\r\n"), Err(invalid()));
    assert_eq!(Frame::parse(b"*1\r\n?\r\n"), Err(invalid()));
    assert_eq!(Frame::parse(b"+\xff\xfe\r\n"), Err(invalid()));
    assert_eq!(Frame::parse(b"$18446744073709551616\r\n"), Err(invalid()));
}

#[test]
fn bulk_may_hold_line_ends_and_any_bytes() {
    let (frame, used) = Frame::parse(b"$4\r\n\r\n\xff\x00\r\n").unwrap();
    assert_eq!(frame, bulk(b"\r\n\xff\x00"));
    assert_eq!(used, 10);
}

#[test]
fn bulk_length_is_the_byte_count_not_the_character_count() {
    let frame = Frame::Bulk(Bytes::from("h\u{e9}".as_bytes().to_vec()));
    assert_eq!(frame.encode(), b"$3\r\nh\xc3\xa9\r\n".to_vec());
}

#[test]
fn frames_encode_to_their_wire_form() {
    assert_eq!(Frame::Simple("OK".to_string()).encode(), b"+OK\r\n".to_vec());
    assert_eq!(Frame::Error("ERR x".to_string()).encode(), b"-ERR x\r\n".to_vec());
    assert_eq!(Frame::Integer(1).encode(), b":1\r\n".to_vec());
    assert_eq!(Frame::Integer(0).encode(), b":0\r\n".to_vec());
    assert_eq!(Frame::Integer(-120).encode(), b":-120\r\n".to_vec());
    assert_eq!(Frame::Integer(i64::MIN).encode(), b":-9223372036854775808\r\n".to_vec());
    assert_eq!(Frame::Integer(i64::MAX).encode(), b":9223372036854775807\r\n".to_vec());
    assert_eq!(bulk(b"world").encode(), b"$5\r\nworld\r\n".to_vec());
    assert_eq!(bulk(b"").encode(), b"$0\r\n\r\n".to_vec());
    assert_eq!(Frame::Null.encode(), b"$-1\r\n".to_vec());
    assert_eq!(Frame::Array(vec![]).encode(), b"*0\r\n".to_vec());
    assert_eq!(
        Frame::Array(vec![bulk(b"message"), bulk(b"ch"), bulk(b"hi")]).encode(),
        b"*3\r\n$7\r\nmessage\r\n$2\r\nch\r\n$2\r\nhi\r\n".to_vec()
    );
}

#[test]
fn write_to_appends_behind_what_the_buffer_holds() {
    let mut buf = b"+OK\r\n".to_vec();
    Frame::Integer(7).write_to(&mut buf);
    assert_eq!(buf, b"+OK\r\n:7\r\n".to_vec());
}

#[test]
fn nested_arrays_round_trip() {
    let frame = Frame::Array(vec![
        Frame::Integer(-3),
        Frame::Array(vec![bulk(b"a\r\nb"), Frame::Null, Frame::Array(vec![])]),
        Frame::Simple("fine".to_string()),
        Frame::Error("ERR bad\rthing".to_string()),
    ]);
    let bytes = frame.encode();
    let (back, used) = Frame::parse(&bytes).unwrap();
    assert_eq!(used, bytes.len());
    assert_eq!(back, frame);
}

#[test]
fn every_kind_of_frame_round_trips_before_trailing_bytes() {
    let frames = vec![
        Frame::Simple(String::new()),
        Frame::Simple("PONG".to_string()),
        Frame::Error("ERR unknown command 'foo'".to_string()),
        Frame::Integer(0),
        Frame::Integer(i64::MIN),
        Frame::Integer(i64::MAX),
        bulk(b""),
        bulk(b"-1"),
        Frame::Null,
        Frame::Array(vec![bulk(b"subscribe"), bulk(b"ch"), Frame::Integer(1)]),
    ];
    for frame in frames {
        let mut bytes = frame.encode();
        let len = bytes.len();
        bytes.extend_from_slice(b"+next\r\n");
        let (back, used) = Frame::parse(&bytes).unwrap();
        assert_eq!(used, len);
        assert_eq!(back, frame);
    }
}

#[test]
fn a_text_with_a_line_end_does_not_round_trip() {
    let frame = Frame::Simple("a\r\nb".to_string());
    let bytes = frame.encode();
    let (back, used) = Frame::parse(&bytes).unwrap();
    assert_eq!(back, Frame::Simple("a".to_string()));
    assert_eq!(used, 4);
}

#[test]
fn count_frames_hold_the_count() {
    assert_eq!(Frame::count(0), Frame::Integer(0));
    assert_eq!(Frame::count(3), Frame::Integer(3));
    let most = if usize::MAX as u64 > i64::MAX as u64 { i64::MAX } else { usize::MAX as i64 };
    assert_eq!(Frame::count(usize::MAX), Frame::Integer(most));
}

#[test]
fn bulk_and_triple_build_frames() {
    assert_eq!(Frame::bulk("h\u{e9}"), bulk(b"h\xc3\xa9"));
    assert_eq!(
        Frame::triple(Frame::Null, Frame::Integer(2), bulk(b"x")),
        Frame::Array(vec![Frame::Null, Frame::Integer(2), bulk(b"x")])
    );
}

#[test]
fn decimals_are_read() {
    assert_eq!(parse_u64(b"0"), Some(0));
    assert_eq!(parse_u64(b"007"), Some(7));
    assert_eq!(parse_u64(b"18446744073709551615"), Some(u64::MAX));
    assert_eq!(parse_u64(b"18446744073709551616"), None);
    assert_eq!(parse_u64(b"99999999999999999999999"), None);
    assert_eq!(parse_u64(b""), None);
    assert_eq!(parse_u64(b"-1"), None);
    assert_eq!(parse_u64(b"1 "), None);
    assert_eq!(parse_i64(b"-0"), Some(0));
    assert_eq!(parse_i64(b"-9223372036854775808"), Some(i64::MIN));
    assert_eq!(parse_i64(b"-9223372036854775809"), None);
    assert_eq!(parse_i64(b"9223372036854775807"), Some(i64::MAX));
    assert_eq!(parse_i64(b"9223372036854775808"), None);
    assert_eq!(parse_i64(b"+5"), Some(5));
    assert_eq!(parse_i64(b"-"), None);
    assert_eq!(parse_i64(b"+"), None);
    assert_eq!(parse_i64(b"--1"), None);
    assert_eq!(parse_i64(b""), None);
}

#[test]
fn decimals_are_written_without_leading_zeros() {
    let mut buf = Vec::new();
    push_u64(&mut buf, 0);
    buf.push(b' ');
    push_u64(&mut buf, 1024);
    buf.push(b' ');
    push_u64(&mut buf, u64::MAX);
    buf.push(b' ');
    push_i64(&mut buf, -7);
    buf.push(b' ');
    push_i64(&mut buf, 100);
    assert_eq!(buf, b"0 1024 18446744073709551615 -7 100".to_vec());
}

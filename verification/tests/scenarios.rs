use bytes::Bytes;
use mini_redis::cmd::subscribe::{message_frame, Effect, Subscriptions};
use mini_redis::cmd::Applied;
use mini_redis::clock::Clock;
use mini_redis::cmd::Command;
use mini_redis::connection::{answer, serve, serve_now, serve_subscriber, ReadBuffer};
use mini_redis::db::{Db, State};
use mini_redis::decode::FrameError;
use mini_redis::frame::Frame;
use tokio::sync::broadcast::Receiver;

/// Feeds `request` to a connection outside subscribe mode and gives the bytes
/// that it answers with.
fn exchange(db: &mut State, now: u64, request: &[u8]) -> Vec<u8> {
    let mut buffer = ReadBuffer::new();
    buffer.fill(request);
    let frame = buffer.parse_frame().unwrap().unwrap();
    assert_eq!(buffer.parse_frame(), Ok(None));
    assert_eq!(buffer.at_end_of_stream(), Ok(()));
    match serve(frame, db, now).unwrap() {
        Applied::Reply { response, .. } => response.encode(),
        other => panic!("no reply but {:?}", other),
    }
}

fn replies(effects: &[Effect]) -> Vec<Vec<u8>> {
    effects
        .iter()
        .filter_map(|effect| match effect {
            Effect::Reply { response } => Some(response.encode()),
            _ => None,
        })
        .collect()
}

fn shape(effects: &[Effect]) -> Vec<String> {
    effects
        .iter()
        .map(|effect| match effect {
            Effect::Attach { channel, .. } => format!("attach {}", channel),
            Effect::Detach { channel } => format!("detach {}", channel),
            Effect::Reply { .. } => "reply".to_string(),
        })
        .collect()
}

fn receivers(effects: Vec<Effect>) -> Vec<(String, Receiver<Bytes>)> {
    effects
        .into_iter()
        .filter_map(|effect| match effect {
            Effect::Attach { channel, receiver } => Some((channel, receiver)),
            _ => None,
        })
        .collect()
}

fn request(parts: &[&str]) -> Frame {
    Frame::Array(parts.iter().map(|part| Frame::Bulk(Bytes::from(part.as_bytes().to_vec()))).collect())
}

#[test]
fn ping_is_answered_with_pong() {
    let mut db = State::new();
    assert_eq!(exchange(&mut db, 0, b"*1\r\n$4\r\nPING\r\n"), b"+PONG\r\n".to_vec());
}

#[test]
fn set_then_get_returns_the_value() {
    let mut db = State::new();
    assert_eq!(
        exchange(&mut db, 0, b"*3\r\n$3\r\nSET\r\n$5\r\nhello\r\n$5\r\nworld\r\n"),
        b"+OK\r\n".to_vec()
    );
    assert_eq!(
        exchange(&mut db, 1, b"*2\r\n$3\r\nGET\r\n$5\r\nhello\r\n"),
        b"$5\r\nworld\r\n".to_vec()
    );
}

#[test]
fn get_of_a_missing_key_is_null() {
    let mut db = State::new();
    assert_eq!(exchange(&mut db, 0, b"*2\r\n$3\r\nGET\r\n$7\r\nmissing\r\n"), b"$-1\r\n".to_vec());
}

#[test]
fn a_value_set_with_px_100_is_null_200_ms_later() {
    let mut db = State::new();
    assert_eq!(
        exchange(&mut db, 1_000, b"*5\r\n$3\r\nSET\r\n$1\r\nk\r\n$1\r\nv\r\n$2\r\nPX\r\n$3\r\n100\r\n"),
        b"+OK\r\n".to_vec()
    );
    assert_eq!(exchange(&mut db, 1_050, b"*2\r\n$3\r\nGET\r\n$1\r\nk\r\n"), b"$1\r\nv\r\n".to_vec());
    db.purge_task_step(1_200);
    assert_eq!(exchange(&mut db, 1_200, b"*2\r\n$3\r\nGET\r\n$1\r\nk\r\n"), b"$-1\r\n".to_vec());
}

#[test]
fn publish_reaches_a_subscriber_on_another_connection() {
    let mut db = State::new();
    let mut a = Subscriptions::new();
    let entered = match serve(request(&["SUBSCRIBE", "ch"]), &mut db, 0).unwrap() {
        Applied::Subscribe { channels } => a.subscribe(channels, &mut db),
        other => panic!("no subscription but {:?}", other),
    };
    assert_eq!(shape(&entered), vec!["attach ch".to_string(), "reply".to_string()]);
    assert_eq!(replies(&entered), vec![b"*3\r\n$9\r\nsubscribe\r\n$2\r\nch\r\n:1\r\n".to_vec()]);
    let mut listening = receivers(entered);

    assert_eq!(
        exchange(&mut db, 0, b"*3\r\n$7\r\nPUBLISH\r\n$2\r\nch\r\n$2\r\nhi\r\n"),
        b":1\r\n".to_vec()
    );

    let (channel, receiver) = &mut listening[0];
    let payload = receiver.try_recv().unwrap();
    assert_eq!(
        message_frame(channel, payload).encode(),
        b"*3\r\n$7\r\nmessage\r\n$2\r\nch\r\n$2\r\nhi\r\n".to_vec()
    );
}

#[test]
fn publish_before_subscribe_is_not_delivered() {
    let mut db = State::new();
    assert_eq!(
        exchange(&mut db, 0, b"*3\r\n$7\r\nPUBLISH\r\n$2\r\nch\r\n$2\r\nhi\r\n"),
        b":0\r\n".to_vec()
    );
    let mut subs = Subscriptions::new();
    let mut listening = receivers(subs.subscribe(vec!["ch".to_string()], &mut db));
    assert!(listening[0].1.try_recv().is_err());
}

#[test]
fn an_unknown_command_is_an_error_and_the_connection_goes_on() {
    let mut db = State::new();
    assert_eq!(
        exchange(&mut db, 0, b"*1\r\n$3\r\nFOO\r\n"),
        b"-ERR unknown command 'foo'\r\n".to_vec()
    );
    assert_eq!(exchange(&mut db, 0, b"*1\r\n$4\r\nPING\r\n"), b"+PONG\r\n".to_vec());
}

#[test]
fn command_errors_are_answered_and_the_connection_goes_on() {
    let mut db = State::new();
    assert_eq!(
        exchange(&mut db, 0, b"*5\r\n$3\r\nSET\r\n$1\r\nk\r\n$0\r\n\r\n$2\r\nEX\r\n$1\r\n0\r\n"),
        b"-invalid expire time in 'set' command\r\n".to_vec()
    );
    assert_eq!(exchange(&mut db, 0, b"*2\r\n$3\r\nGET\r\n$1\r\nk\r\n"), b"$-1\r\n".to_vec());
    assert_eq!(
        exchange(&mut db, 0, b"*1\r\n$3\r\nGET\r\n"),
        b"-protocol error; unexpected end of stream\r\n".to_vec()
    );
    assert_eq!(
        exchange(&mut db, 0, b"*3\r\n$3\r\nGET\r\n$1\r\na\r\n$1\r\nb\r\n"),
        b"-protocol error; expected end of frame, but there was more\r\n".to_vec()
    );
    assert_eq!(exchange(&mut db, 0, b"+PING\r\n"), b"-protocol error; expected array\r\n".to_vec());
    assert_eq!(
        exchange(&mut db, 0, b"*2\r\n$11\r\nUNSUBSCRIBE\r\n$2\r\nch\r\n"),
        b"-`Unsubscribe` is unsupported in this context\r\n".to_vec()
    );
    assert_eq!(exchange(&mut db, 0, b"*1\r\n$4\r\nPING\r\n"), b"+PONG\r\n".to_vec());
}

#[test]
fn serve_gives_nothing_where_the_store_cannot_take_the_command() {
    let mut db = State::new();
    let frame = request(&["SET", "k", "v", "PX", "2"]);
    assert!(serve(frame, &mut db, u64::MAX - 1).is_none());
    assert_eq!(db.get("k"), None);
}

#[test]
fn set_tells_when_the_purge_task_has_to_wake() {
    let mut db = State::new();
    let notify = |applied: Applied| match applied {
        Applied::Reply { notify, .. } => notify,
        other => panic!("no reply but {:?}", other),
    };
    assert!(!notify(serve(request(&["SET", "a", "1", "EX", "10"]), &mut db, 0).unwrap()));
    assert!(notify(serve(request(&["SET", "b", "2", "EX", "5"]), &mut db, 0).unwrap()));
    assert!(!notify(serve(request(&["SET", "c", "3"]), &mut db, 0).unwrap()));
    assert!(!notify(serve(request(&["GET", "a"]), &mut db, 0).unwrap()));
}

#[test]
fn the_read_buffer_gathers_bytes_until_a_frame_is_whole() {
    let mut buffer = ReadBuffer::new();
    assert_eq!(buffer.at_end_of_stream(), Ok(()));
    assert_eq!(buffer.parse_frame(), Ok(None));
    buffer.fill(b"*1\r\n$4\r\nPI");
    assert_eq!(buffer.parse_frame(), Ok(None));
    assert_eq!(buffer.at_end_of_stream(), Err("connection reset by peer".to_string()));
    buffer.fill(b"NG\r\n*1\r\n");
    assert_eq!(
        buffer.parse_frame(),
        Ok(Some(Frame::Array(vec![Frame::Bulk(Bytes::from_static(b"PING"))])))
    );
    assert_eq!(buffer.parse_frame(), Ok(None));
    assert_eq!(buffer.at_end_of_stream(), Err("connection reset by peer".to_string()));
    buffer.fill(b"+x\r\n");
    assert_eq!(buffer.parse_frame(), Ok(Some(Frame::Array(vec![Frame::Simple("x".to_string())]))));
    assert_eq!(buffer.at_end_of_stream(), Ok(()));
}

#[test]
fn the_read_buffer_reports_bytes_that_are_no_frame() {
    let mut buffer = ReadBuffer::new();
    buffer.fill(b"hello\r\n");
    assert_eq!(
        buffer.parse_frame(),
        Err(FrameError::Other("protocol error; invalid frame format".to_string()))
    );
    assert_eq!(buffer.at_end_of_stream(), Err("connection reset by peer".to_string()));
}

#[test]
fn subscribing_twice_to_a_channel_is_acknowledged_and_changes_nothing() {
    let mut db = State::new();
    let mut subs = Subscriptions::new();
    let first = subs.subscribe(vec!["ch".to_string()], &mut db);
    assert_eq!(shape(&first), vec!["attach ch".to_string(), "reply".to_string()]);
    assert_eq!(subs.len(), 1);
    let second = serve_subscriber(request(&["SUBSCRIBE", "ch"]), &mut subs, &mut db);
    assert_eq!(shape(&second), vec!["reply".to_string()]);
    assert_eq!(replies(&second), vec![b"*3\r\n$9\r\nsubscribe\r\n$2\r\nch\r\n:1\r\n".to_vec()]);
    assert_eq!(subs.len(), 1);
    assert!(subs.contains("ch"));
    let _keep = first;
    assert_eq!(db.publish("ch", Bytes::from_static(b"m")), 1);
}

#[test]
fn subscribe_mode_counts_subscriptions() {
    let mut db = State::new();
    let mut subs = Subscriptions::new();
    assert!(subs.is_empty());
    let effects = serve_subscriber(request(&["subscribe", "a", "b", "a", "c"]), &mut subs, &mut db);
    assert_eq!(
        shape(&effects),
        vec!["attach a", "reply", "attach b", "reply", "reply", "attach c", "reply"]
    );
    assert_eq!(
        replies(&effects),
        vec![
            b"*3\r\n$9\r\nsubscribe\r\n$1\r\na\r\n:1\r\n".to_vec(),
            b"*3\r\n$9\r\nsubscribe\r\n$1\r\nb\r\n:2\r\n".to_vec(),
            b"*3\r\n$9\r\nsubscribe\r\n$1\r\na\r\n:2\r\n".to_vec(),
            b"*3\r\n$9\r\nsubscribe\r\n$1\r\nc\r\n:3\r\n".to_vec(),
        ]
    );
    assert_eq!(subs.len(), 3);
    assert_eq!(subs.channel(0), "a");
    assert_eq!(subs.channel(1), "b");
    assert_eq!(subs.channel(2), "c");

    let effects = serve_subscriber(request(&["unsubscribe", "b", "zzz"]), &mut subs, &mut db);
    assert_eq!(shape(&effects), vec!["detach b", "reply", "reply"]);
    assert_eq!(
        replies(&effects),
        vec![
            b"*3\r\n$11\r\nunsubscribe\r\n$1\r\nb\r\n:2\r\n".to_vec(),
            b"*3\r\n$11\r\nunsubscribe\r\n$3\r\nzzz\r\n:2\r\n".to_vec(),
        ]
    );
    assert!(!subs.contains("b"));
    assert_eq!(subs.len(), 2);

    let effects = serve_subscriber(request(&["UNSUBSCRIBE"]), &mut subs, &mut db);
    assert_eq!(shape(&effects), vec!["detach a", "reply", "detach c", "reply"]);
    assert_eq!(
        replies(&effects),
        vec![
            b"*3\r\n$11\r\nunsubscribe\r\n$1\r\na\r\n:1\r\n".to_vec(),
            b"*3\r\n$11\r\nunsubscribe\r\n$1\r\nc\r\n:0\r\n".to_vec(),
        ]
    );
    assert!(subs.is_empty());
}

#[test]
fn subscribe_mode_answers_ping_and_refuses_other_commands() {
    let mut db = State::new();
    let mut subs = Subscriptions::new();
    let _listening = subs.subscribe(vec!["ch".to_string()], &mut db);
    assert_eq!(
        replies(&serve_subscriber(request(&["PING"]), &mut subs, &mut db)),
        vec![b"+PONG\r\n".to_vec()]
    );
    assert_eq!(
        replies(&serve_subscriber(request(&["ping", "x"]), &mut subs, &mut db)),
        vec![b"$1\r\nx\r\n".to_vec()]
    );
    assert_eq!(
        replies(&serve_subscriber(request(&["GET", "k"]), &mut subs, &mut db)),
        vec![b"-ERR unknown command 'get'\r\n".to_vec()]
    );
    assert_eq!(
        replies(&serve_subscriber(request(&["SET", "k", "v"]), &mut subs, &mut db)),
        vec![b"-ERR unknown command 'set'\r\n".to_vec()]
    );
    assert_eq!(
        replies(&serve_subscriber(request(&["PUBLISH", "ch", "m"]), &mut subs, &mut db)),
        vec![b"-ERR unknown command 'pub'\r\n".to_vec()]
    );
    assert_eq!(
        replies(&serve_subscriber(request(&["NOPE"]), &mut subs, &mut db)),
        vec![b"-ERR unknown command 'nope'\r\n".to_vec()]
    );
    assert_eq!(
        replies(&serve_subscriber(Frame::Integer(1), &mut subs, &mut db)),
        vec![b"-protocol error; expected array\r\n".to_vec()]
    );
    assert_eq!(db.get("k"), None);
    assert_eq!(subs.len(), 1);
}

#[test]
fn serving_at_the_present_instant() {
    let clock = Clock::start();
    let mut db = State::new();
    match serve_now(request(&["SET", "k", "v", "PX", "60000"]), &mut db, &clock).unwrap() {
        Applied::Reply { response, notify } => {
            assert_eq!(response, Frame::Simple("OK".to_string()));
            assert!(!notify);
        }
        other => panic!("no reply but {:?}", other),
    }
    let expires = db.next_expiration().unwrap();
    assert!(60_000 <= expires && expires < 120_000);
    assert_eq!(db.purge_task_step_now(&clock), mini_redis::db::PurgeWait::Until(expires));
    assert_eq!(db.get("k"), Some(Bytes::from_static(b"v")));
    db.shutdown_purge_task();
    assert_eq!(db.purge_task_step_now(&clock), mini_redis::db::PurgeWait::Stop);
}

#[test]
fn a_connection_is_served_through_a_handle() {
    let db = Db::new();
    let serve = |db: &Db, frame: Frame| match db.serve(frame).unwrap() {
        Applied::Reply { response, .. } => response.encode(),
        other => panic!("no reply but {:?}", other),
    };
    assert_eq!(serve(&db, request(&["PING"])), b"+PONG\r\n".to_vec());
    assert_eq!(serve(&db, request(&["SET", "hello", "world"])), b"+OK\r\n".to_vec());
    assert_eq!(serve(&db.handle(), request(&["GET", "hello"])), b"$5\r\nworld\r\n".to_vec());
    assert_eq!(serve(&db, request(&["UNSUBSCRIBE"])), b"-`Unsubscribe` is unsupported in this context\r\n".to_vec());

    let mut subs = Subscriptions::new();
    let channels = match db.serve(request(&["SUBSCRIBE", "ch"])).unwrap() {
        Applied::Subscribe { channels } => channels,
        other => panic!("no subscription but {:?}", other),
    };
    let entered = db.enter_subscribe_mode(&mut subs, channels);
    assert_eq!(shape(&entered), vec!["attach ch".to_string(), "reply".to_string()]);
    let mut listening = receivers(entered);
    assert_eq!(serve(&db.handle(), request(&["PUBLISH", "ch", "hi"])), b":1\r\n".to_vec());
    assert_eq!(listening[0].1.try_recv(), Ok(Bytes::from_static(b"hi")));
    let left = db.serve_subscriber(&mut subs, request(&["UNSUBSCRIBE"]));
    assert_eq!(shape(&left), vec!["detach ch".to_string(), "reply".to_string()]);
    assert!(subs.is_empty());
}

#[test]
fn only_a_set_that_expires_needs_the_present_instant() {
    let timed = |parts: &[&str]| Command::from_frame(request(parts)).unwrap().timed();
    assert!(timed(&["SET", "k", "v", "EX", "1"]));
    assert!(timed(&["SET", "k", "v", "px", "1"]));
    assert!(!timed(&["SET", "k", "v"]));
    assert!(!timed(&["GET", "k"]));
    assert!(!timed(&["PING"]));
    assert!(!timed(&["PUBLISH", "c", "m"]));
    assert!(!timed(&["SUBSCRIBE", "c"]));
    assert!(!timed(&["UNSUBSCRIBE"]));
    assert!(!timed(&["FOO"]));
}

#[test]
fn a_command_is_answered_on_the_store_at_the_instant_given() {
    let mut db = State::new();
    let reply = |applied: Option<Applied>| match applied {
        Some(Applied::Reply { response, notify }) => (response, notify),
        other => panic!("no reply but {:?}", other),
    };
    let set = Command::from_frame(request(&["SET", "k", "v", "PX", "10"])).unwrap();
    assert_eq!(reply(answer(set, &mut db, 100)), (Frame::Simple("OK".to_string()), false));
    assert_eq!(db.next_expiration(), Some(110));
    let get = Command::from_frame(request(&["GET", "k"])).unwrap();
    assert_eq!(reply(answer(get, &mut db, 0)), (Frame::Bulk(Bytes::from_static(b"v")), false));
    let unsubscribe = Command::from_frame(request(&["UNSUBSCRIBE"])).unwrap();
    assert_eq!(
        reply(answer(unsubscribe, &mut db, 0)),
        (Frame::Error("`Unsubscribe` is unsupported in this context".to_string()), false)
    );
    let late = Command::from_frame(request(&["SET", "k", "w", "PX", "10"])).unwrap();
    assert!(answer(late, &mut db, u64::MAX).is_none());
    assert_eq!(db.get("k"), Some(Bytes::from_static(b"v")));
}

#[test]
fn a_handle_always_serves_what_is_no_set() {
    let db = Db::new();
    db.shutdown_purge_task();
    for parts in [
        vec!["PING"],
        vec!["GET", "k"],
        vec!["PUBLISH", "c", "m"],
        vec!["SUBSCRIBE", "c"],
        vec!["UNSUBSCRIBE", "c"],
        vec!["FOO"],
        vec!["GET"],
    ] {
        assert!(db.serve(request(&parts)).is_some());
    }
    assert!(db.serve(Frame::Null).is_some());
}

#[test]
fn handles_of_one_store_share_its_clock() {
    let db = Db::new();
    let other = db.handle();
    let here = db.clock().instant(1_000).unwrap();
    let there = other.clock().instant(1_000).unwrap();
    assert_eq!(here, there);
}

#[test]
fn commands_that_read_leave_the_subscribers_attached() {
    let mut db = State::new();
    let mut rx = db.subscribe("ch".to_string());
    for parts in [vec!["PING"], vec!["GET", "ch"], vec!["FOO"], vec!["UNSUBSCRIBE", "ch"]] {
        assert!(serve(request(&parts), &mut db, 0).is_some());
    }
    assert_eq!(exchange(&mut db, 0, b"*3\r\n$7\r\nPUBLISH\r\n$2\r\nch\r\n$2\r\nhi\r\n"), b":1\r\n".to_vec());
    assert_eq!(rx.try_recv(), Ok(Bytes::from_static(b"hi")));
}

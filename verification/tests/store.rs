use bytes::Bytes;
use mini_redis::cmd::Publish;
use mini_redis::db::{receivers_reached, Db, PurgeWait, State, CHANNEL_CAPACITY};
use mini_redis::frame::Frame;
use tokio::sync::broadcast::error::TryRecvError;

fn blob(data: &'static [u8]) -> Bytes {
    Bytes::from_static(data)
}

#[test]
fn a_new_store_is_empty() {
    let db = State::new();
    assert_eq!(db.get("k"), None);
    assert_eq!(db.next_expiration(), None);
    assert!(!db.is_shutdown());
    assert!(db.has_id_left());
    assert_eq!(db.publish("ch", blob(b"hi")), 0);
}

#[test]
fn get_after_set_returns_the_value_until_it_is_set_again() {
    let mut db = State::new();
    assert!(!db.set("k".to_string(), blob(b"v1"), None, 5));
    assert_eq!(db.get("k"), Some(blob(b"v1")));
    db.set("other".to_string(), blob(b"x"), Some(10), 5);
    let _rx = db.subscribe("ch".to_string());
    db.publish("ch", blob(b"m"));
    assert_eq!(db.purge_expired_keys(1_000), None);
    assert_eq!(db.get("k"), Some(blob(b"v1")));
    assert_eq!(db.get("other"), None);
    db.set("k".to_string(), blob(b"v2"), None, 6);
    assert_eq!(db.get("k"), Some(blob(b"v2")));
}

#[test]
fn keys_are_told_apart_exactly() {
    let mut db = State::new();
    db.set("key".to_string(), blob(b"1"), None, 0);
    db.set("Key".to_string(), blob(b"2"), None, 0);
    db.set(String::new(), blob(b""), None, 0);
    assert_eq!(db.get("key"), Some(blob(b"1")));
    assert_eq!(db.get("Key"), Some(blob(b"2")));
    assert_eq!(db.get(""), Some(blob(b"")));
    assert_eq!(db.get("ke"), None);
}

#[test]
fn a_value_expires_when_its_time_has_come() {
    let mut db = State::new();
    db.set("k".to_string(), blob(b"v"), Some(100), 1_000);
    assert_eq!(db.next_expiration(), Some(1_100));
    assert_eq!(db.purge_expired_keys(1_099), Some(1_100));
    assert_eq!(db.get("k"), Some(blob(b"v")));
    assert_eq!(db.purge_expired_keys(1_100), None);
    assert_eq!(db.get("k"), None);
    assert_eq!(db.next_expiration(), None);
}

#[test]
fn set_with_px_100_is_gone_after_200_ms() {
    let mut db = State::new();
    db.set("k".to_string(), blob(b"v"), Some(100), 0);
    assert_eq!(db.purge_task_step(200), PurgeWait::Notified);
    assert_eq!(db.get("k"), None);
}

#[test]
fn purge_removes_all_that_is_due_and_reports_the_next() {
    let mut db = State::new();
    db.set("a".to_string(), blob(b"1"), Some(10), 0);
    db.set("b".to_string(), blob(b"2"), Some(30), 0);
    db.set("c".to_string(), blob(b"3"), Some(20), 0);
    db.set("d".to_string(), blob(b"4"), Some(10), 0);
    db.set("e".to_string(), blob(b"5"), None, 0);
    assert_eq!(db.next_expiration(), Some(10));
    assert_eq!(db.purge_expired_keys(9), Some(10));
    assert_eq!(db.purge_expired_keys(20), Some(30));
    assert_eq!(db.get("a"), None);
    assert_eq!(db.get("c"), None);
    assert_eq!(db.get("d"), None);
    assert_eq!(db.get("b"), Some(blob(b"2")));
    assert_eq!(db.get("e"), Some(blob(b"5")));
    assert_eq!(db.purge_expired_keys(u64::MAX), None);
    assert_eq!(db.get("b"), None);
    assert_eq!(db.get("e"), Some(blob(b"5")));
}

#[test]
fn setting_a_key_again_replaces_its_expiration() {
    let mut db = State::new();
    db.set("k".to_string(), blob(b"v"), Some(10), 0);
    db.set("k".to_string(), blob(b"w"), Some(50), 0);
    assert_eq!(db.next_expiration(), Some(50));
    assert_eq!(db.purge_expired_keys(20), Some(50));
    assert_eq!(db.get("k"), Some(blob(b"w")));
    db.set("k".to_string(), blob(b"x"), None, 30);
    assert_eq!(db.next_expiration(), None);
    assert_eq!(db.purge_expired_keys(u64::MAX), None);
    assert_eq!(db.get("k"), Some(blob(b"x")));
}

#[test]
fn setting_a_key_twice_is_like_setting_it_once() {
    let mut once = State::new();
    once.set("other".to_string(), blob(b"o"), Some(5), 0);
    once.set("k".to_string(), blob(b"v"), Some(10), 0);
    let mut twice = State::new();
    twice.set("other".to_string(), blob(b"o"), Some(5), 0);
    twice.set("k".to_string(), blob(b"v"), Some(10), 0);
    twice.set("k".to_string(), blob(b"v"), Some(10), 0);
    for db in [&mut once, &mut twice] {
        assert_eq!(db.get("k"), Some(blob(b"v")));
        assert_eq!(db.get("other"), Some(blob(b"o")));
        assert_eq!(db.next_expiration(), Some(5));
        assert_eq!(db.purge_expired_keys(5), Some(10));
        assert_eq!(db.get("other"), None);
        assert_eq!(db.purge_expired_keys(10), None);
        assert_eq!(db.get("k"), None);
    }
}

#[test]
fn set_notifies_only_for_an_expiration_earlier_than_all_others() {
    let mut db = State::new();
    assert!(!db.set("a".to_string(), blob(b"1"), Some(100), 0));
    assert!(!db.set("b".to_string(), blob(b"2"), Some(100), 0));
    assert!(!db.set("c".to_string(), blob(b"3"), Some(200), 0));
    assert!(db.set("d".to_string(), blob(b"4"), Some(50), 0));
    assert!(!db.set("e".to_string(), blob(b"5"), None, 0));
    assert!(db.set("a".to_string(), blob(b"6"), Some(10), 0));
    assert!(!db.set("a".to_string(), blob(b"7"), Some(10), 0));
}

#[test]
fn the_purge_task_stops_once_the_store_shuts_down() {
    let mut db = State::new();
    db.set("k".to_string(), blob(b"v"), Some(10), 0);
    assert_eq!(db.purge_task_step(5), PurgeWait::Until(10));
    db.shutdown_purge_task();
    assert!(db.is_shutdown());
    assert_eq!(db.purge_task_step(100), PurgeWait::Stop);
    assert_eq!(db.purge_expired_keys(100), None);
    assert_eq!(db.get("k"), Some(blob(b"v")));
    assert_eq!(db.next_expiration(), Some(10));
}

#[test]
fn publish_reaches_the_receivers_that_are_attached() {
    let mut db = State::new();
    assert_eq!(db.publish("ch", blob(b"early")), 0);
    let mut first = db.subscribe("ch".to_string());
    assert_eq!(db.publish("ch", blob(b"hi")), 1);
    let mut second = db.subscribe("ch".to_string());
    let mut elsewhere = db.subscribe("other".to_string());
    assert_eq!(db.publish("ch", blob(b"again")), 2);
    assert_eq!(first.try_recv(), Ok(blob(b"hi")));
    assert_eq!(first.try_recv(), Ok(blob(b"again")));
    assert_eq!(first.try_recv(), Err(TryRecvError::Empty));
    assert_eq!(second.try_recv(), Ok(blob(b"again")));
    assert_eq!(second.try_recv(), Err(TryRecvError::Empty));
    assert_eq!(elsewhere.try_recv(), Err(TryRecvError::Empty));
    drop(first);
    assert_eq!(db.publish("ch", blob(b"one left")), 1);
    drop(second);
    assert_eq!(db.publish("ch", blob(b"nobody")), 0);
    let mut late = db.subscribe("ch".to_string());
    assert_eq!(late.try_recv(), Err(TryRecvError::Empty));
    assert_eq!(db.publish("ch", blob(b"back")), 1);
    assert_eq!(late.try_recv(), Ok(blob(b"back")));
}

#[test]
fn a_slow_subscriber_lags_and_stays_subscribed() {
    let mut db = State::new();
    let mut rx = db.subscribe("ch".to_string());
    assert_eq!(CHANNEL_CAPACITY, 1024);
    for i in 0..(CHANNEL_CAPACITY + 6) {
        assert_eq!(db.publish("ch", Bytes::from(format!("{}", i).into_bytes())), 1);
    }
    assert_eq!(rx.try_recv(), Err(TryRecvError::Lagged(6)));
    assert_eq!(rx.try_recv(), Ok(blob(b"6")));
    assert_eq!(db.publish("ch", blob(b"more")), 1);
}

#[test]
fn a_failed_send_reached_no_receiver() {
    let (tx, rx) = tokio::sync::broadcast::channel::<Bytes>(4);
    let _second = tx.subscribe();
    assert_eq!(receivers_reached(tx.send(blob(b"a"))), 2);
    drop(rx);
    drop(_second);
    assert_eq!(receivers_reached(tx.send(blob(b"b"))), 0);
}

#[test]
fn publish_command_answers_with_the_number_of_receivers() {
    let mut db = State::new();
    let cmd = Publish::new("ch".to_string(), blob(b"hi"));
    assert_eq!(cmd.apply(&db), Frame::Integer(0));
    let mut rx = db.subscribe("ch".to_string());
    let cmd = Publish::new("ch".to_string(), blob(b"hi"));
    assert_eq!(cmd.apply(&db), Frame::Integer(1));
    assert_eq!(rx.try_recv(), Ok(blob(b"hi")));
}

#[test]
fn a_value_handed_out_outlives_its_entry() {
    let mut db = State::new();
    db.set("k".to_string(), blob(b"v"), Some(1), 0);
    let value = db.get("k").unwrap();
    db.purge_expired_keys(10);
    assert_eq!(db.get("k"), None);
    assert_eq!(value, blob(b"v"));
}

#[test]
fn handles_share_one_store() {
    let db = Db::new();
    let other = db.handle();
    assert_eq!(db.get("k"), None);
    assert!(other.set("k".to_string(), blob(b"v"), None));
    assert_eq!(db.get("k"), Some(blob(b"v")));
    assert!(db.set("k".to_string(), blob(b"w"), Some(60_000)));
    assert_eq!(other.get("k"), Some(blob(b"w")));
    match other.purge_round() {
        PurgeWait::Until(when) => {
            assert!(60_000 <= when && when < 120_000);
            assert_eq!(db.purge_expired_keys(), Some(when));
            assert!(db.clock().instant(when).is_some());
        }
        wait => panic!("the purge task is told {:?}", wait),
    }
    assert_eq!(db.get("k"), Some(blob(b"w")));
}

#[test]
fn a_handle_refuses_a_time_to_live_that_it_cannot_count() {
    let db = Db::new();
    while db.clock().now() == Some(0) {
        std::hint::spin_loop();
    }
    assert!(!db.set("k".to_string(), blob(b"v"), Some(u64::MAX)));
    assert_eq!(db.get("k"), None);
}

#[test]
fn handles_publish_to_the_receivers_of_any_handle() {
    let db = Db::new();
    let other = db.handle();
    assert_eq!(db.publish("ch", blob(b"early")), 0);
    let mut rx = other.subscribe("ch".to_string());
    assert_eq!(db.publish("ch", blob(b"hi")), 1);
    assert_eq!(rx.try_recv(), Ok(blob(b"hi")));
}

#[test]
fn a_handle_shuts_the_store_down_for_all() {
    let db = Db::new();
    let other = db.handle();
    assert!(!other.is_shutdown());
    assert!(db.set("k".to_string(), blob(b"v"), Some(1)));
    db.shutdown_purge_task();
    assert!(other.is_shutdown());
    assert_eq!(other.purge_round(), PurgeWait::Stop);
    assert_eq!(other.purge_expired_keys(), None);
    assert_eq!(other.get("k"), Some(blob(b"v")));
}

#[test]
fn try_set_sets_where_the_store_can_take_the_value() {
    let mut db = State::new();
    assert!(db.can_set(None, u64::MAX));
    assert!(db.can_set(Some(10), u64::MAX - 10));
    assert!(!db.can_set(Some(10), u64::MAX - 9));
    assert_eq!(db.try_set("a".to_string(), blob(b"1"), Some(100), 0), Some(false));
    assert_eq!(db.try_set("b".to_string(), blob(b"2"), Some(50), 0), Some(true));
    assert_eq!(db.try_set("c".to_string(), blob(b"3"), None, u64::MAX), Some(false));
    assert_eq!(db.try_set("d".to_string(), blob(b"4"), Some(1), u64::MAX), None);
    assert_eq!(db.get("a"), Some(blob(b"1")));
    assert_eq!(db.get("b"), Some(blob(b"2")));
    assert_eq!(db.get("c"), Some(blob(b"3")));
    assert_eq!(db.get("d"), None);
    assert_eq!(db.next_expiration(), Some(50));
}

#[test]
fn a_second_subscription_keeps_the_receivers_of_the_first() {
    let mut db = State::new();
    let mut first = db.subscribe("ch".to_string());
    let mut elsewhere = db.subscribe("other".to_string());
    let mut second = db.subscribe("ch".to_string());
    assert_eq!(db.publish("ch", blob(b"hi")), 2);
    assert_eq!(first.try_recv(), Ok(blob(b"hi")));
    assert_eq!(second.try_recv(), Ok(blob(b"hi")));
    assert_eq!(db.publish("other", blob(b"there")), 1);
    assert_eq!(elsewhere.try_recv(), Ok(blob(b"there")));
}

#[test]
fn set_purge_and_shutdown_leave_the_channels_alone() {
    let mut db = State::new();
    let mut rx = db.subscribe("k".to_string());
    db.set("k".to_string(), blob(b"v"), Some(10), 0);
    db.set("k".to_string(), blob(b"v"), Some(10), 0);
    assert_eq!(db.publish("k", blob(b"one")), 1);
    assert_eq!(db.purge_expired_keys(100), None);
    assert_eq!(db.publish("k", blob(b"two")), 1);
    db.shutdown_purge_task();
    assert_eq!(db.purge_task_step(200), PurgeWait::Stop);
    assert_eq!(db.publish("k", blob(b"three")), 1);
    assert_eq!(rx.try_recv(), Ok(blob(b"one")));
    assert_eq!(rx.try_recv(), Ok(blob(b"two")));
    assert_eq!(rx.try_recv(), Ok(blob(b"three")));
}

#[test]
fn a_handle_sets_a_value_that_does_not_expire_whatever_the_clock_says() {
    let db = Db::new();
    assert!(db.set("k".to_string(), blob(b"v"), None));
    assert_eq!(db.get("k"), Some(blob(b"v")));
    assert_eq!(db.purge_round(), PurgeWait::Notified);
}

use price_tracker::codec::{decode_frame, encode_i32_be, Message};
use price_tracker::ledger::PriceLedger;
use price_tracker::session::{run_session, FrameOutcome, Session};

fn insert_frame(timestamp: i32, price: i32) -> Vec<u8> {
    let mut f = vec![0x49u8];
    f.extend_from_slice(&encode_i32_be(timestamp));
    f.extend_from_slice(&encode_i32_be(price));
    f
}

fn query_frame(min_time: i32, max_time: i32) -> Vec<u8> {
    let mut f = vec![0x51u8];
    f.extend_from_slice(&encode_i32_be(min_time));
    f.extend_from_slice(&encode_i32_be(max_time));
    f
}

#[test]
fn test_handle_insert() {
    let input = [49, 00, 00, 30, 39, 00, 00, 00, 65];
    let mut session = Session::new();
    let out = session.on_frame(&input);
    // Tag 49 is the byte 49, not 0x49, so the frame is malformed.
    assert!(matches!(out, FrameOutcome::Close));
}

#[test]
fn test_handle_query() {
    let input = [51, 00, 00, 03, 112, 00, 01, 86, 48];
    let mut session = Session::new();
    let out = session.on_frame(&input);
    // Tag 51 is the byte 51, not 0x51, so the frame is malformed.
    assert!(matches!(out, FrameOutcome::Close));
}

#[test]
fn decode_insert_frame() {
    let input = [0x49, 0x00, 0x00, 0x30, 0x39, 0x00, 0x00, 0x00, 0x65];
    match decode_frame(&input) {
        Message::Insert { timestamp, price } => {
            assert_eq!(timestamp, 12345);
            assert_eq!(price, 101);
        }
        _ => panic!("expected an insert"),
    }
}

#[test]
fn decode_query_frame() {
    let input = [0x51, 0x00, 0x00, 0x03, 0xe8, 0x00, 0x01, 0x86, 0xa0];
    match decode_frame(&input) {
        Message::Query { min_time, max_time } => {
            assert_eq!(min_time, 1000);
            assert_eq!(max_time, 100000);
        }
        _ => panic!("expected a query"),
    }
}

#[test]
fn decode_negative_fields() {
    let input = [0x49, 0xff, 0xff, 0xff, 0xff, 0x80, 0x00, 0x00, 0x00];
    match decode_frame(&input) {
        Message::Insert { timestamp, price } => {
            assert_eq!(timestamp, -1);
            assert_eq!(price, i32::MIN);
        }
        _ => panic!("expected an insert"),
    }
}

#[test]
fn encode_round_trip_values() {
    assert_eq!(encode_i32_be(101), vec![0x00, 0x00, 0x00, 0x65]);
    assert_eq!(encode_i32_be(-1), vec![0xff, 0xff, 0xff, 0xff]);
    assert_eq!(encode_i32_be(i32::MIN), vec![0x80, 0x00, 0x00, 0x00]);
    assert_eq!(encode_i32_be(i32::MAX), vec![0x7f, 0xff, 0xff, 0xff]);
}

#[test]
fn query_start_of_window() {
    let mut ledger = PriceLedger::new();
    ledger.insert(12345, 101);
    ledger.insert(12346, 102);
    ledger.insert(12347, 100);
    assert_eq!(ledger.query_mean(12288, 12345), 101);
}

#[test]
fn query_mean_of_two() {
    let mut ledger = PriceLedger::new();
    ledger.insert(12345, 101);
    ledger.insert(12346, 102);
    ledger.insert(12347, 100);
    assert_eq!(ledger.query_mean(12346, 12347), 101);
}

#[test]
fn query_without_inserts() {
    let ledger = PriceLedger::new();
    assert_eq!(ledger.query_mean(0, 100), 0);
}

#[test]
fn query_inverted_window() {
    let mut ledger = PriceLedger::new();
    ledger.insert(5, 7);
    assert_eq!(ledger.query_mean(10, 1), 0);
}

#[test]
fn query_duplicate_timestamps() {
    let mut ledger = PriceLedger::new();
    ledger.insert(5, 10);
    ledger.insert(5, 20);
    assert_eq!(ledger.query_mean(5, 5), 15);
}

#[test]
fn query_order_independent() {
    let pairs = [(3, 30), (1, 10), (2, 23), (7, 99)];
    let mut forward = PriceLedger::new();
    for (t, p) in pairs.iter() {
        forward.insert(*t, *p);
    }
    let mut backward = PriceLedger::new();
    for (t, p) in pairs.iter().rev() {
        backward.insert(*t, *p);
    }
    assert_eq!(forward.query_mean(1, 3), backward.query_mean(1, 3));
    assert_eq!(forward.query_mean(1, 3), 21);
}

#[test]
fn query_negative_mean_truncates_toward_zero() {
    let mut ledger = PriceLedger::new();
    ledger.insert(1, -3);
    ledger.insert(2, -4);
    // The exact mean is -3.5; truncation toward zero gives -3.
    assert_eq!(ledger.query_mean(1, 2), -3);
}

#[test]
fn query_positive_mean_truncates() {
    let mut ledger = PriceLedger::new();
    ledger.insert(1, 3);
    ledger.insert(2, 4);
    assert_eq!(ledger.query_mean(1, 2), 3);
}

#[test]
fn session_insert_is_silent_query_answers_four_bytes() {
    let mut session = Session::new();
    let out = session.on_frame(&insert_frame(12345, 101));
    assert!(matches!(out, FrameOutcome::Silent));
    match session.on_frame(&query_frame(12345, 12345)) {
        FrameOutcome::Reply(bytes) => assert_eq!(bytes, vec![0x00, 0x00, 0x00, 0x65]),
        _ => panic!("expected a reply"),
    }
}

#[test]
fn sessions_are_isolated() {
    let mut a = Session::new();
    let mut b = Session::new();
    assert!(matches!(a.on_frame(&insert_frame(7, 42)), FrameOutcome::Silent));
    match b.on_frame(&query_frame(0, 100)) {
        FrameOutcome::Reply(bytes) => assert_eq!(bytes, vec![0, 0, 0, 0]),
        _ => panic!("expected a reply"),
    }
    match a.on_frame(&query_frame(0, 100)) {
        FrameOutcome::Reply(bytes) => assert_eq!(bytes, vec![0, 0, 0, 42]),
        _ => panic!("expected a reply"),
    }
}

#[test]
fn stream_malformed_tag_writes_nothing() {
    let mut input = vec![0x58u8];
    input.extend_from_slice(&[1, 2, 3, 4, 5, 6, 7, 8]);
    assert_eq!(run_session(&input), Vec::<u8>::new());
}

#[test]
fn stream_thirteen_bytes_full_frame_applies_partial_ignored() {
    // One full insert frame, then a query, then 4 trailing bytes: the two
    // full frames are processed, the partial frame closes with no reply.
    let mut input = insert_frame(10, 55);
    input.extend_from_slice(&query_frame(0, 20));
    input.extend_from_slice(&[0x51, 0x00, 0x00, 0x00]);
    assert_eq!(run_session(&input), vec![0, 0, 0, 55]);

    // Thirteen bytes where the only full frame is an insert: the insert is
    // applied silently and the trailing partial frame writes nothing.
    let mut short = insert_frame(10, 55);
    short.extend_from_slice(&[0x49, 0x00, 0x00, 0x00]);
    assert_eq!(run_session(&short), Vec::<u8>::new());
}

#[test]
fn stream_stops_at_malformed_frame() {
    // A query after a malformed frame is never answered.
    let mut input = vec![0x58u8, 0, 0, 0, 0, 0, 0, 0, 0];
    input.extend_from_slice(&query_frame(0, 100));
    assert_eq!(run_session(&input), Vec::<u8>::new());
}

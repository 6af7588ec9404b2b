//! Reliable-channel tests: acknowledgement matching, the send state
//! machine, reset handling, and the receive mailboxes.

use dccnet::communication::{
    build_ack_frame, build_end_frame, build_rst_frame, check_received_rst, next_id,
    receive_frame_step, send_frame_step, wait_ack_check, NetworkError, NetworkErrorKind,
    ReceiveStep, SendStep,
};
use dccnet::network::Payload;
use dccnet::sync_read::Mailboxes;

#[test]
fn id_alternates_between_zero_and_one() {
    assert_eq!(next_id(0), 1);
    assert_eq!(next_id(1), 0);
    assert_eq!(next_id(next_id(0)), 0);
    assert_eq!(next_id(next_id(1)), 1);
}

#[test]
fn network_error_new_keeps_kind_and_message() {
    let e = NetworkError::new(NetworkErrorKind::ProtocolError, "bad frame");
    assert_eq!(e.kind, NetworkErrorKind::ProtocolError);
    assert_eq!(e.message, "bad frame");
}

#[test]
fn rst_frame_is_detected() {
    let rst = build_rst_frame(Some(b"boom".to_vec()));
    assert_eq!(rst.id, 0xFFFF);
    assert_eq!(rst.flag, 0x20);
    assert_eq!(rst.data, b"boom".to_vec());
    let err = check_received_rst(&rst).unwrap_err();
    assert_eq!(err.kind, NetworkErrorKind::RSTError);
    assert_eq!(err.message, "boom");

    let data = Payload::new(b"ok".to_vec(), 0, 0);
    assert!(check_received_rst(&data).is_ok());

    // the RST flag without the reserved identifier is not a reset
    let half = Payload::new(Vec::new(), 0, 0x20);
    assert!(check_received_rst(&half).is_ok());
}

#[test]
fn ack_round_trip() {
    // Send DATA(id=0, "hello"); the receiver replies with an ACK frame
    // of flags 0x80, id 0, length 0; the sender accepts it.
    let data = Payload::new(b"hello".to_vec(), 0, 0);
    match receive_frame_step(data) {
        ReceiveStep::Data(frame, ack) => {
            assert_eq!(frame.data, b"hello".to_vec());
            assert_eq!(ack.flag, 0x80);
            assert_eq!(ack.id, 0);
            assert_eq!(ack.length, 0);
            assert!(ack.data.is_empty());

            let accepted = wait_ack_check(0, ack).unwrap();
            assert_eq!(accepted.flag, 0x80);
            match send_frame_step(0, Ok(accepted)) {
                SendStep::Succeed(attempt) => assert_eq!(attempt, 0),
                _ => panic!("matching ACK must succeed"),
            }
        }
        _ => panic!("a DATA frame must be delivered with an ACK reply"),
    }
}

#[test]
fn wait_ack_rejects_wrong_id_and_flag() {
    let wrong_id = build_ack_frame(1);
    let e = wait_ack_check(0, wrong_id).unwrap_err();
    assert_eq!(e.kind, NetworkErrorKind::InvalidIdError);

    let not_ack = Payload::new(b"x".to_vec(), 0, 0);
    let e2 = wait_ack_check(0, not_ack).unwrap_err();
    assert_eq!(e2.kind, NetworkErrorKind::UnexpectedFlagError);

    let rst = build_rst_frame(Some(b"boom".to_vec()));
    let e3 = wait_ack_check(0, rst).unwrap_err();
    assert_eq!(e3.kind, NetworkErrorKind::RSTError);
    assert_eq!(e3.message, "boom");
}

#[test]
fn sender_retransmits_then_succeeds() {
    // Two attempts go unanswered, the third is acknowledged.
    let timeout = || NetworkError::new(NetworkErrorKind::Other, "no ACK yet");
    let mut attempt = 0;
    for _ in 0..2 {
        match send_frame_step(attempt, Err(timeout())) {
            SendStep::Retry(a) => attempt = a,
            _ => panic!("an unanswered attempt within budget must retry"),
        }
    }
    assert_eq!(attempt, 2);
    let ack = build_ack_frame(0);
    match send_frame_step(attempt, wait_ack_check(0, ack)) {
        SendStep::Succeed(a) => assert_eq!(a, 2),
        _ => panic!("the third attempt must succeed"),
    }
}

#[test]
fn sender_gives_up_after_sixteen_attempts() {
    let timeout = || NetworkError::new(NetworkErrorKind::Other, "no ACK yet");
    let mut attempt = 0;
    let mut attempts_made = 1;
    loop {
        match send_frame_step(attempt, Err(timeout())) {
            SendStep::Retry(a) => {
                attempt = a;
                attempts_made += 1;
            }
            SendStep::GiveUp(e) => {
                assert_eq!(e.kind, NetworkErrorKind::RetransmissionError);
                break;
            }
            _ => panic!("only retry or exhaustion can follow a timeout"),
        }
    }
    assert_eq!(attempts_made, 16);
}

#[test]
fn sender_aborts_on_rst_and_connection_error() {
    let rst = build_rst_frame(Some(b"boom".to_vec()));
    match send_frame_step(3, wait_ack_check(0, rst)) {
        SendStep::Fail(e) => assert_eq!(e.kind, NetworkErrorKind::RSTError),
        _ => panic!("RST must abort the send"),
    }
    let conn = NetworkError::new(NetworkErrorKind::ConnectionError, "broken pipe");
    match send_frame_step(0, Err(conn)) {
        SendStep::Fail(e) => assert_eq!(e.kind, NetworkErrorKind::ConnectionError),
        _ => panic!("a connection failure must abort the send"),
    }
}

#[test]
fn rst_propagates_through_receive() {
    let rst = build_rst_frame(Some(b"boom".to_vec()));
    match receive_frame_step(rst) {
        ReceiveStep::Reset(e) => {
            assert_eq!(e.kind, NetworkErrorKind::RSTError);
            assert_eq!(e.message, "boom");
        }
        _ => panic!("an RST frame must reset the receiver"),
    }
}

#[test]
fn rst_diagnostic_falls_back_on_invalid_utf8() {
    let rst = build_rst_frame(Some(vec![0xFF, 0xFE]));
    let err = check_received_rst(&rst).unwrap_err();
    assert_eq!(err.kind, NetworkErrorKind::RSTError);
    assert_eq!(err.message, "Invalid UTF-8 sequence");
}

#[test]
fn waiting_sender_sees_rst_in_data_slot() {
    // The demultiplexer routes RST into the data slot; a sender
    // waiting for an ACK consumes it from there and fails at once.
    let mut boxes = Mailboxes::new();
    boxes.handle_payload(build_rst_frame(Some(b"boom".to_vec())));
    let rst = boxes.take_rst().expect("the reset must be visible to the waiting sender");
    let e = wait_ack_check(0, rst).unwrap_err();
    assert_eq!(e.kind, NetworkErrorKind::RSTError);
    assert_eq!(e.message, "boom");

    // anything else in the data slot stays for the receive path
    let mut boxes2 = Mailboxes::new();
    boxes2.handle_payload(Payload::new(b"d".to_vec(), 0, 0));
    assert!(boxes2.take_rst().is_none());
    assert!(boxes2.take_data().is_some());

    let mut empty = Mailboxes::new();
    assert!(empty.take_rst().is_none());
}

#[test]
fn stray_ack_and_end_in_receive_path() {
    let ack = build_ack_frame(0);
    match receive_frame_step(ack) {
        ReceiveStep::UnexpectedAck(e) => {
            assert_eq!(e.kind, NetworkErrorKind::UnexpectedFlagError)
        }
        _ => panic!("an ACK in the data path is unexpected"),
    }
    let end = build_end_frame(1);
    match receive_frame_step(end) {
        ReceiveStep::End(p) => {
            assert_eq!(p.flag, 0x40);
            assert_eq!(p.id, 1);
        }
        _ => panic!("an END frame is delivered without acknowledgement"),
    }
}

#[test]
fn mailbox_never_overwrites_unconsumed_ack() {
    let mut boxes = Mailboxes::new();
    boxes.handle_payload(build_ack_frame(0));
    boxes.handle_payload(build_ack_frame(1)); // stale duplicate: dropped
    let first = boxes.take_ack().expect("the first ACK must be stored");
    assert_eq!(first.id, 0);
    assert!(boxes.take_ack().is_none());
}

#[test]
fn mailbox_routes_by_flag() {
    let mut boxes = Mailboxes::new();
    boxes.handle_payload(Payload::new(b"d".to_vec(), 0, 0));
    boxes.handle_payload(build_ack_frame(1));
    let data = boxes.take_data().expect("the data frame must be stored");
    assert_eq!(data.data, b"d".to_vec());
    let ack = boxes.take_ack().expect("the ACK must be stored");
    assert_eq!(ack.id, 1);
}

#[test]
fn mailbox_data_slot_keeps_first_frame() {
    let mut boxes = Mailboxes::new();
    boxes.handle_payload(Payload::new(b"one".to_vec(), 0, 0));
    boxes.handle_payload(Payload::new(b"two".to_vec(), 1, 0));
    let stored = boxes.take_data().unwrap();
    assert_eq!(stored.data, b"one".to_vec());
    assert!(boxes.take_data().is_none());
}

#[test]
fn read_error_synthesizes_end_into_both_slots() {
    let mut boxes = Mailboxes::new();
    assert!(boxes.process_read_error(&NetworkErrorKind::TimeoutError));
    let ack = boxes.take_ack().unwrap();
    let data = boxes.take_data().unwrap();
    assert_eq!(ack.flag, 0x40);
    assert_eq!(ack.id, 0);
    assert!(ack.data.is_empty());
    assert_eq!(data.flag, 0x40);

    let mut boxes2 = Mailboxes::new();
    assert!(boxes2.process_read_error(&NetworkErrorKind::ConnectionClosed));
    assert!(boxes2.take_data().is_some());

    let mut boxes3 = Mailboxes::new();
    assert!(!boxes3.process_read_error(&NetworkErrorKind::ProtocolError));
    assert!(boxes3.take_ack().is_none());
    assert!(boxes3.take_data().is_none());
}

#[test]
fn shutdown_keeps_unconsumed_frames() {
    let mut boxes = Mailboxes::new();
    boxes.handle_payload(Payload::new(b"tail".to_vec(), 1, 0));
    assert!(boxes.process_read_error(&NetworkErrorKind::TimeoutError));
    // the unconsumed data frame survives; only the empty slot gets END
    let data = boxes.take_data().unwrap();
    assert_eq!(data.data, b"tail".to_vec());
    let ack = boxes.take_ack().unwrap();
    assert_eq!(ack.flag, 0x40);
}

//! Transfer-engine tests: duplicate suppression, identifier
//! alternation, end of stream, and the loop decisions around errors.

use dccnet::communication::{NetworkError, NetworkErrorKind};
use dccnet::network::Payload;
use dccnet::xfer::{
    receive_loop_step, send_loop_advance, send_loop_step, ReceiveLoopStep, SendLoopStep,
};

#[test]
fn duplicates_are_delivered_exactly_once() {
    // The receiver sees three copies of DATA(id=0, "X"); the payload
    // reaches the output exactly once.
    let mut expected = 0u16;
    let mut output: Vec<u8> = Vec::new();
    for _ in 0..3 {
        let copy = Payload::new(b"X".to_vec(), 0, 0);
        let (step, next) = receive_loop_step(expected, copy);
        match step {
            ReceiveLoopStep::Deliver(bytes) => output.extend_from_slice(&bytes),
            ReceiveLoopStep::Ignore => {}
            _ => panic!("a DATA frame is delivered or ignored"),
        }
        expected = next;
    }
    assert_eq!(output, b"X".to_vec());
    assert_eq!(expected, 1);
}

#[test]
fn end_of_stream_sequence() {
    // The sender's input holds 10 bytes "helloworld": one DATA frame
    // with id 0, then END with id 1.
    let first = send_loop_step(0, b"helloworld".to_vec());
    let frame = match first {
        SendLoopStep::SendData(f) => f,
        _ => panic!("a non-empty chunk becomes a DATA frame"),
    };
    assert_eq!(frame.id, 0);
    assert_eq!(frame.flag, 0);
    assert_eq!(frame.data, b"helloworld".to_vec());

    let (go_on, id) = send_loop_advance(0, &Ok(0));
    assert!(go_on);
    assert_eq!(id, 1);

    let second = send_loop_step(id, Vec::new());
    match second {
        SendLoopStep::SendEnd(end) => {
            assert_eq!(end.flag, 0x40);
            assert_eq!(end.id, 1);
            assert!(end.data.is_empty());
        }
        _ => panic!("an empty chunk ends the flow"),
    }

    // The receiver writes exactly "helloworld" and terminates.
    let mut output: Vec<u8> = Vec::new();
    let (step, next) = receive_loop_step(0, frame);
    match step {
        ReceiveLoopStep::Deliver(bytes) => output.extend_from_slice(&bytes),
        _ => panic!("the first DATA frame must be delivered"),
    }
    let end = Payload::new(Vec::new(), 1, 0x40);
    match receive_loop_step(next, end) {
        (ReceiveLoopStep::Finish(tail), _) => output.extend_from_slice(&tail),
        _ => panic!("END finishes the flow"),
    }
    assert_eq!(output, b"helloworld".to_vec());
}

#[test]
fn end_with_piggybacked_payload_is_written() {
    let end = Payload::new(b"tail".to_vec(), 0, 0x40);
    match receive_loop_step(0, end) {
        (ReceiveLoopStep::Finish(bytes), id) => {
            assert_eq!(bytes, b"tail".to_vec());
            assert_eq!(id, 0);
        }
        _ => panic!("END finishes the flow"),
    }
}

#[test]
fn sender_id_alternates_only_on_success() {
    let (go_on, id) = send_loop_advance(0, &Ok(2));
    assert!(go_on);
    assert_eq!(id, 1);
    let (go_on2, id2) = send_loop_advance(id, &Ok(0));
    assert!(go_on2);
    assert_eq!(id2, 0);

    let soft = NetworkError::new(NetworkErrorKind::InvalidIdError, "stray ACK");
    let (go_on3, id3) = send_loop_advance(1, &Err(soft));
    assert!(go_on3);
    assert_eq!(id3, 1);
}

#[test]
fn sender_stops_on_fatal_errors() {
    let conn = NetworkError::new(NetworkErrorKind::ConnectionError, "broken pipe");
    let (go_on, id) = send_loop_advance(1, &Err(conn));
    assert!(!go_on);
    assert_eq!(id, 1);

    let spent = NetworkError::new(NetworkErrorKind::RetransmissionError, "budget spent");
    let (go_on2, _) = send_loop_advance(0, &Err(spent));
    assert!(!go_on2);
}

#[test]
fn interleaved_duplicates_across_ids() {
    // DATA 0, duplicate 0, DATA 1, duplicate 1, DATA 0 again: the
    // output is the concatenation of the three distinct payloads.
    let wire = [
        (0u16, b"aa".to_vec()),
        (0, b"aa".to_vec()),
        (1, b"bb".to_vec()),
        (1, b"bb".to_vec()),
        (0, b"cc".to_vec()),
    ];
    let mut expected_id = 0u16;
    let mut output: Vec<u8> = Vec::new();
    for (id, data) in wire {
        let frame = Payload::new(data, id, 0);
        let (step, next) = receive_loop_step(expected_id, frame);
        if let ReceiveLoopStep::Deliver(bytes) = step {
            output.extend_from_slice(&bytes);
        }
        expected_id = next;
    }
    assert_eq!(output, b"aabbcc".to_vec());
}

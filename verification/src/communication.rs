//! The reliable channel: the decisions of the stop-and-wait send and
//! receive primitives.
//!
//! Transmitting and waiting are the caller's business; every decision —
//! whether a received frame is the awaited acknowledgement, what a frame
//! in the data mailbox means, whether an attempt may be retried — is
//! taken here, against the channel's error taxonomy.

use vstd::prelude::*;
use vstd::utf8::{decode_utf8, valid_utf8};

use crate::network::{
    Payload, FLAG_ACK, FLAG_END, FLAG_RST, MAX_DATA_SIZE, MAX_SEND_ATTEMPTS, spec_well_formed,
};

verus! {

/// The error taxonomy the transfer engine consumes.
#[derive(Debug, Clone, Copy, PartialEq, Eq, Structural)]
pub enum NetworkErrorKind {
    ConnectionError,
    ProtocolError,
    RSTError,
    UnexpectedFlagError,
    RetransmissionError,
    InvalidIdError,
    TimeoutError,
    ConnectionClosed,
    Other,
}

/// A channel error: its kind, and a human-readable message.
#[derive(Debug)]
pub struct NetworkError {
    pub kind: NetworkErrorKind,
    pub message: String,
}

impl NetworkError {
    /// Builds an error of the given kind carrying the given message.
    pub fn new(kind: NetworkErrorKind, message: &str) -> (r: Self)
        ensures
            r.kind == kind,
            r.message@ == message@,
    {
        Self { kind, message: message.to_string() }
    }
}

/// The identifier the next DATA frame of a direction carries: the
/// single-bit sequence identifier toggled.
pub open spec fn spec_next_id(id: u16) -> u16 {
    if id == 0 {
        1
    } else {
        0
    }
}

/// Toggles a single-bit sequence identifier.
#[inline(always)]
pub fn next_id(id: u16) -> (r: u16)
    requires
        id == 0 || id == 1,
    ensures
        r == spec_next_id(id),
{
    (id + 1) % 2
}

/// Identifier alternation: the toggled identifier always differs from
/// the current one, and toggling twice returns to it.
pub proof fn lemma_id_alternation(id: u16)
    requires
        id == 0 || id == 1,
    ensures
        spec_next_id(id) != id,
        spec_next_id(spec_next_id(id)) == id,
{
}

/// Relies on String::from_utf8: it succeeds exactly on valid UTF-8 and
/// returns the string those bytes encode.
#[verifier::external_body]
pub(crate) fn utf8_text(data: &Vec<u8>) -> (r: Option<String>)
    ensures
        r is Some <==> valid_utf8(data@),
        r matches Some(s) ==> s@ == decode_utf8(data@),
{
    String::from_utf8(data.clone()).ok()
}

/// A reset frame: the RST flag together with the reserved identifier.
pub open spec fn spec_is_rst(p: Payload) -> bool {
    p.flag == FLAG_RST && p.id == 0xFFFF
}

/// The diagnostic a reset surfaces: the frame's payload as text, or a
/// fixed note when that payload is not valid UTF-8.
pub open spec fn spec_rst_diagnostic(data: Seq<u8>) -> Seq<char> {
    if valid_utf8(data) {
        decode_utf8(data)
    } else {
        "Invalid UTF-8 sequence"@
    }
}

/// Rejects a reset frame. Returns the RST error exactly when the frame
/// carries the RST flag with the reserved identifier; the error's
/// message surfaces the frame's payload as the diagnostic.
pub fn check_received_rst(payload: &Payload) -> (r: Result<(), NetworkError>)
    ensures
        r is Err <==> spec_is_rst(*payload),
        r matches Err(e) ==> e.kind == NetworkErrorKind::RSTError && e.message@
            == spec_rst_diagnostic(payload.data@),
{
    if payload.flag == FLAG_RST && payload.id == u16::MAX {
        let message = match utf8_text(&payload.data) {
            Some(text) => text,
            None => "Invalid UTF-8 sequence".to_string(),
        };
        return Err(NetworkError { kind: NetworkErrorKind::RSTError, message });
    }
    Ok(())
}

/// The acknowledgement a sender waiting on `id` accepts: not a reset,
/// the ACK flag, and the matching identifier.
pub open spec fn spec_ack_matches(p: Payload, id: u16) -> bool {
    &&& !spec_is_rst(p)
    &&& p.flag == FLAG_ACK
    &&& p.id == id
}

/// Classifies a frame found in the acknowledgement mailbox while a
/// sender waits on `expected_id`. Exactly the matching acknowledgement
/// is accepted; a reset is fatal, any other flag is an unexpected flag,
/// and an acknowledgement for the other identifier is an invalid
/// identifier — the latter two anomalies leave the sender waiting.
pub fn wait_ack_check(expected_id: u16, payload: Payload) -> (r: Result<Payload, NetworkError>)
    ensures
        r is Ok <==> spec_ack_matches(payload, expected_id),
        r matches Ok(p) ==> p == payload,
        r matches Err(e) ==> e.kind == (if spec_is_rst(payload) {
            NetworkErrorKind::RSTError
        } else if payload.flag != FLAG_ACK {
            NetworkErrorKind::UnexpectedFlagError
        } else {
            NetworkErrorKind::InvalidIdError
        }),
        spec_is_rst(payload) ==> (r matches Err(e) && e.message@ == spec_rst_diagnostic(
            payload.data@,
        )),
{
    check_received_rst(&payload)?;

    if payload.flag != FLAG_ACK {
        return Err(
            NetworkError::new(NetworkErrorKind::UnexpectedFlagError, "received unexpected flag"),
        );
    }

    if payload.id != expected_id {
        return Err(
            NetworkError::new(NetworkErrorKind::InvalidIdError, "received ACK with invalid ID"),
        );
    }

    Ok(payload)
}

/// What a frame taken from the data mailbox asks of the receiver.
pub enum ReceiveStep {
    /// The peer reset the connection: fatal.
    Reset(NetworkError),
    /// An acknowledgement strayed into the data path: report and go on.
    UnexpectedAck(NetworkError),
    /// The direction's final frame: deliver it, acknowledge nothing.
    End(Payload),
    /// A data frame: transmit the acknowledgement, then deliver it.
    Data(Payload, Payload),
}

/// Classifies one frame taken from the data mailbox. A reset aborts; a
/// stray acknowledgement is reported; an END frame is delivered without
/// acknowledgement; any other frame is delivered together with the
/// acknowledgement frame — carrying the same identifier — that the
/// caller must transmit first, duplicates included.
pub fn receive_frame_step(payload: Payload) -> (r: ReceiveStep)
    ensures
        spec_is_rst(payload) ==> (r matches ReceiveStep::Reset(e) && e.kind
            == NetworkErrorKind::RSTError && e.message@ == spec_rst_diagnostic(payload.data@)),
        !spec_is_rst(payload) && payload.flag == FLAG_ACK ==> (r matches ReceiveStep::UnexpectedAck(
            e,
        ) && e.kind == NetworkErrorKind::UnexpectedFlagError),
        !spec_is_rst(payload) && payload.flag != FLAG_ACK && payload.flag == FLAG_END
            ==> (r matches ReceiveStep::End(p) && p == payload),
        !spec_is_rst(payload) && payload.flag != FLAG_ACK && payload.flag != FLAG_END
            ==> (r matches ReceiveStep::Data(p, ack) && p == payload && spec_well_formed(ack)
            && ack.flag == FLAG_ACK && ack.id == payload.id && ack.data@.len() == 0),
{
    match check_received_rst(&payload) {
        Err(e) => {
            return ReceiveStep::Reset(e);
        },
        Ok(()) => {},
    }

    if payload.flag == FLAG_ACK {
        return ReceiveStep::UnexpectedAck(
            NetworkError::new(NetworkErrorKind::UnexpectedFlagError, "received ACK instead of data"),
        );
    }

    if payload.flag == FLAG_END {
        return ReceiveStep::End(payload);
    }

    let ack = build_ack_frame(payload.id);
    ReceiveStep::Data(payload, ack)
}

/// What the sender does after one transmission attempt.
pub enum SendStep {
    /// The matching acknowledgement arrived: done, after this many
    /// retransmissions.
    Succeed(usize),
    /// A reset or a connection failure: fatal, no retry.
    Fail(NetworkError),
    /// No acknowledgement yet: retransmit, with this attempt counter.
    Retry(usize),
    /// The retransmission budget is spent: give up.
    GiveUp(NetworkError),
}

/// Decides the sender's next move from the outcome of waiting for the
/// acknowledgement of attempt `attempt`. Success returns the attempt
/// count; a reset or connection failure aborts; any other failure
/// retransmits until all `MAX_SEND_ATTEMPTS` attempts are spent.
pub fn send_frame_step(attempt: usize, wait_result: Result<Payload, NetworkError>) -> (r: SendStep)
    requires
        attempt < MAX_SEND_ATTEMPTS,
    ensures
        wait_result is Ok ==> (r matches SendStep::Succeed(a) && a == attempt),
        wait_result matches Err(e) ==> (if e.kind == NetworkErrorKind::RSTError || e.kind
            == NetworkErrorKind::ConnectionError {
            r matches SendStep::Fail(f) && f == e
        } else if attempt + 1 < MAX_SEND_ATTEMPTS {
            r matches SendStep::Retry(a) && a == attempt + 1
        } else {
            r matches SendStep::GiveUp(f) && f.kind == NetworkErrorKind::RetransmissionError
        }),
{
    match wait_result {
        Ok(_) => SendStep::Succeed(attempt),
        Err(e) => {
            if e.kind == NetworkErrorKind::RSTError || e.kind == NetworkErrorKind::ConnectionError {
                return SendStep::Fail(e);
            }
            if attempt + 1 < MAX_SEND_ATTEMPTS {
                return SendStep::Retry(attempt + 1);
            }
            SendStep::GiveUp(
                NetworkError::new(
                    NetworkErrorKind::RetransmissionError,
                    "failed to send frame after maximum attempts",
                ),
            )
        },
    }
}

/// Builds the acknowledgement frame for identifier `id`: the ACK flag
/// and an empty payload.
pub fn build_ack_frame(id: u16) -> (r: Payload)
    ensures
        spec_well_formed(r),
        r.flag == FLAG_ACK,
        r.id == id,
        r.data@.len() == 0,
{
    Payload::new(Vec::new(), id, FLAG_ACK)
}

/// Builds the END frame for identifier `id`: the END flag and an empty
/// payload.
pub fn build_end_frame(id: u16) -> (r: Payload)
    ensures
        spec_well_formed(r),
        r.flag == FLAG_END,
        r.id == id,
        r.data@.len() == 0,
{
    Payload::new(Vec::new(), id, FLAG_END)
}

/// Builds a reset frame: the RST flag, the reserved identifier, and an
/// optional diagnostic payload.
pub fn build_rst_frame(data: Option<Vec<u8>>) -> (r: Payload)
    requires
        data matches Some(d) ==> d@.len() <= MAX_DATA_SIZE,
    ensures
        spec_well_formed(r),
        spec_is_rst(r),
        r.data@ == (match data {
            Some(d) => d@,
            None => Seq::<u8>::empty(),
        }),
{
    let body = match data {
        Some(d) => d,
        None => Vec::new(),
    };
    proof {
        assert(body@ =~= (match data {
            Some(d) => d@,
            None => Seq::<u8>::empty(),
        }));
    }
    Payload::new(body, u16::MAX, FLAG_RST)
}

} // verus!

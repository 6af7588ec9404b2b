//! The transfer engine: the per-frame decisions of the two cooperating
//! flows of a connection, and the stop-and-wait delivery law.
//!
//! The send loop turns each chunk of input into a DATA frame with the
//! direction's current identifier and advances the identifier only on
//! acknowledged delivery; the receive loop delivers a frame's payload
//! upstream only when its identifier is the expected one, so a
//! retransmitted duplicate is acknowledged but never delivered twice.

use vstd::prelude::*;

use crate::communication::{next_id, spec_next_id, NetworkError, NetworkErrorKind};
use crate::network::{Payload, FLAG_END, FLAG_SED, MAX_DATA_SIZE, spec_well_formed};
use crate::communication::build_end_frame;

verus! {

// ---------------------------------------------------------------------------
// The receive loop
// ---------------------------------------------------------------------------

/// What the receive loop does with one frame handed up by the channel.
pub enum ReceiveLoopStep {
    /// An END frame: write these final bytes and stop.
    Finish(Vec<u8>),
    /// A duplicate of an already-delivered frame: drop it.
    Ignore,
    /// The expected frame: write these bytes upstream.
    Deliver(Vec<u8>),
}

/// One step of the receive loop. An END frame finishes the flow with
/// its piggybacked bytes; a data frame is delivered exactly when its
/// identifier is the expected one, which then toggles; any other
/// identifier marks a duplicate, which is ignored and leaves the
/// expected identifier unchanged.
pub fn receive_loop_step(expected_id: u16, payload: Payload) -> (r: (ReceiveLoopStep, u16))
    requires
        expected_id == 0 || expected_id == 1,
    ensures
        payload.flag == FLAG_END ==> (r.0 matches ReceiveLoopStep::Finish(d) && d@
            == payload.data@ && r.1 == expected_id),
        payload.flag != FLAG_END && payload.id != expected_id ==> (r.0 is Ignore && r.1
            == expected_id),
        payload.flag != FLAG_END && payload.id == expected_id ==> (r.0
            matches ReceiveLoopStep::Deliver(d) && d@ == payload.data@ && r.1 == spec_next_id(
            expected_id,
        )),
{
    if payload.flag == FLAG_END {
        return (ReceiveLoopStep::Finish(payload.data), expected_id);
    }
    if payload.id != expected_id {
        return (ReceiveLoopStep::Ignore, expected_id);
    }
    let next = next_id(expected_id);
    (ReceiveLoopStep::Deliver(payload.data), next)
}

// ---------------------------------------------------------------------------
// The send loop
// ---------------------------------------------------------------------------

/// What the send loop transmits for one chunk of input.
pub enum SendLoopStep {
    /// The input is exhausted: transmit this END frame and stop.
    SendEnd(Payload),
    /// Hand this DATA frame to the reliable send primitive.
    SendData(Payload),
}

/// One step of the send loop: an empty chunk (end of input) becomes the
/// direction's END frame, anything else a DATA frame carrying the chunk
/// under the current identifier.
pub fn send_loop_step(id: u16, chunk: Vec<u8>) -> (r: SendLoopStep)
    requires
        chunk@.len() <= MAX_DATA_SIZE,
    ensures
        chunk@.len() == 0 ==> (r matches SendLoopStep::SendEnd(p) && spec_well_formed(p)
            && p.flag == FLAG_END && p.id == id && p.data@.len() == 0),
        chunk@.len() > 0 ==> (r matches SendLoopStep::SendData(p) && spec_well_formed(p)
            && p.flag == FLAG_SED && p.id == id && p.data@ == chunk@),
{
    if chunk.is_empty() {
        SendLoopStep::SendEnd(build_end_frame(id))
    } else {
        SendLoopStep::SendData(Payload::new(chunk, id, FLAG_SED))
    }
}

/// Advances the send loop after one reliable send: acknowledged
/// delivery toggles the identifier — so the next DATA frame of this
/// direction carries the other identifier — a connection failure or an
/// exhausted retransmission budget stops the loop, and any other
/// failure keeps both the loop and the identifier as they are.
pub fn send_loop_advance(id: u16, result: &Result<usize, NetworkError>) -> (r: (bool, u16))
    requires
        id == 0 || id == 1,
    ensures
        result is Ok ==> r == (true, spec_next_id(id)),
        result matches Err(e) ==> (if e.kind == NetworkErrorKind::ConnectionError || e.kind
            == NetworkErrorKind::RetransmissionError {
            r == (false, id)
        } else {
            r == (true, id)
        }),
{
    match result {
        Ok(_) => (true, next_id(id)),
        Err(e) => {
            if e.kind == NetworkErrorKind::ConnectionError || e.kind
                == NetworkErrorKind::RetransmissionError {
                (false, id)
            } else {
                (true, id)
            }
        },
    }
}

// ---------------------------------------------------------------------------
// Stop-and-wait delivery
// ---------------------------------------------------------------------------

/// The bytes the receive loop delivers upstream from a run of data
/// frames, starting from `expected`: a frame's payload is delivered
/// exactly when its identifier matches, which toggles the expectation.
pub open spec fn spec_delivered(frames: Seq<(u16, Seq<u8>)>, expected: u16) -> Seq<u8>
    decreases frames.len(),
{
    if frames.len() == 0 {
        Seq::empty()
    } else if frames[0].0 == expected {
        frames[0].1 + spec_delivered(frames.skip(1), spec_next_id(expected))
    } else {
        spec_delivered(frames.skip(1), expected)
    }
}

/// The wire's view of a stop-and-wait run: every sent frame arrives at
/// least once, in order, each possibly repeated consecutively by
/// retransmission, carrying identifiers that alternate from `id`.
pub open spec fn spec_wire_stuttering(
    sent: Seq<Seq<u8>>,
    id: u16,
    wire: Seq<(u16, Seq<u8>)>,
) -> bool
    decreases wire.len(),
{
    if sent.len() == 0 {
        wire.len() == 0
    } else if wire.len() == 0 {
        false
    } else {
        wire[0] == (id, sent[0]) && (spec_wire_stuttering(sent, id, wire.skip(1))
            || spec_wire_stuttering(sent.skip(1), spec_next_id(id), wire.skip(1)))
    }
}

/// The concatenation of a run of payloads.
pub open spec fn spec_concat_all(chunks: Seq<Seq<u8>>) -> Seq<u8>
    decreases chunks.len(),
{
    if chunks.len() == 0 {
        Seq::empty()
    } else {
        chunks[0] + spec_concat_all(chunks.skip(1))
    }
}

proof fn lemma_delivery_from(
    sent: Seq<Seq<u8>>,
    id: u16,
    wire: Seq<(u16, Seq<u8>)>,
    expected: u16,
)
    requires
        id == 0 || id == 1,
        expected == 0 || expected == 1,
        spec_wire_stuttering(sent, id, wire),
    ensures
        expected == id ==> spec_delivered(wire, expected) == spec_concat_all(sent),
        expected != id && sent.len() > 0 ==> spec_delivered(wire, expected) == spec_concat_all(
            sent.skip(1),
        ),
    decreases wire.len(),
{
    if wire.len() == 0 {
        assert(sent.len() == 0);
    } else {
        assert(sent.len() > 0);
        let rest = wire.skip(1);
        assert(wire[0] == (id, sent[0]));
        if spec_wire_stuttering(sent, id, rest) {
            if expected == id {
                lemma_delivery_from(sent, id, rest, spec_next_id(expected));
                assert(spec_delivered(wire, expected) == sent[0] + spec_delivered(
                    rest,
                    spec_next_id(expected),
                ));
            } else {
                lemma_delivery_from(sent, id, rest, expected);
            }
        } else {
            assert(spec_wire_stuttering(sent.skip(1), spec_next_id(id), rest));
            if expected == id {
                lemma_delivery_from(sent.skip(1), spec_next_id(id), rest, spec_next_id(expected));
            } else {
                lemma_delivery_from(sent.skip(1), spec_next_id(id), rest, expected);
            }
        }
    }
}

/// Stop-and-wait delivery: whatever consecutive duplication the wire
/// inflicts on a direction's run of DATA frames, the receive loop
/// delivers upstream exactly the concatenation of the sent payloads,
/// each exactly once and in order.
pub proof fn lemma_stop_and_wait_delivery(
    sent: Seq<Seq<u8>>,
    start_id: u16,
    wire: Seq<(u16, Seq<u8>)>,
)
    requires
        start_id == 0 || start_id == 1,
        spec_wire_stuttering(sent, start_id, wire),
    ensures
        spec_delivered(wire, start_id) == spec_concat_all(sent),
{
    lemma_delivery_from(sent, start_id, wire, start_id);
}

} // verus!

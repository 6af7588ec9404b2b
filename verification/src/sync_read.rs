//! The receive demultiplexer's mailboxes: two single-slot holders, one
//! for the latest acknowledgement and one for the latest data frame.
//!
//! Each slot is an `Option`, so it holds at most one frame at any time;
//! a frame is stored only into an empty slot and a stale duplicate never
//! overwrites a frame that still awaits consumption. The reading task
//! around the connection parses incoming bytes and feeds every decoded
//! frame through [`Mailboxes::handle_payload`]; the reliable channel
//! drains the slots with [`Mailboxes::take_ack`] and
//! [`Mailboxes::take_data`].

use vstd::prelude::*;

use crate::communication::{spec_is_rst, NetworkErrorKind};
use crate::network::{Payload, FLAG_ACK, FLAG_END, FLAG_RST, spec_well_formed};

verus! {

/// What storing `p` into a single-slot mailbox leaves in the slot: the
/// frame if the slot was empty, the old occupant otherwise.
pub open spec fn spec_store(slot: Option<Payload>, p: Payload) -> Option<Payload> {
    if slot is None {
        Some(p)
    } else {
        slot
    }
}

/// The END frame the demultiplexer synthesizes on shutdown: identifier
/// zero, the END flag, no payload.
pub open spec fn spec_synthesized_end(p: Payload) -> bool {
    &&& spec_well_formed(p)
    &&& p.flag == FLAG_END
    &&& p.id == 0
    &&& p.data@.len() == 0
}

/// The per-connection receive mailboxes.
pub struct Mailboxes {
    pub latest_ack: Option<Payload>,
    pub latest_data: Option<Payload>,
}

impl Mailboxes {
    /// Fresh mailboxes: both slots empty.
    pub fn new() -> (r: Self)
        ensures
            r.latest_ack is None,
            r.latest_data is None,
    {
        Self { latest_ack: None, latest_data: None }
    }

    /// Stores an acknowledgement under the empty-slot rule: the slot is
    /// filled only if it is empty, so it never holds more than one
    /// frame and a duplicate never displaces an unconsumed one.
    pub fn store_ack_payload(&mut self, payload: Payload)
        ensures
            final(self).latest_ack == spec_store(old(self).latest_ack, payload),
            final(self).latest_data == old(self).latest_data,
    {
        if self.latest_ack.is_none() {
            self.latest_ack = Some(payload);
        }
    }

    /// Stores a data, END or RST frame under the same empty-slot rule.
    pub fn store_data_payload(&mut self, payload: Payload)
        ensures
            final(self).latest_data == spec_store(old(self).latest_data, payload),
            final(self).latest_ack == old(self).latest_ack,
    {
        if self.latest_data.is_none() {
            self.latest_data = Some(payload);
        }
    }

    /// Routes one decoded frame: an ACK frame goes to the
    /// acknowledgement slot, everything else to the data slot, each
    /// under the empty-slot rule.
    pub fn handle_payload(&mut self, payload: Payload)
        ensures
            payload.flag == FLAG_ACK ==> final(self).latest_ack == spec_store(
                old(self).latest_ack,
                payload,
            ) && final(self).latest_data == old(self).latest_data,
            payload.flag != FLAG_ACK ==> final(self).latest_data == spec_store(
                old(self).latest_data,
                payload,
            ) && final(self).latest_ack == old(self).latest_ack,
    {
        if payload.flag == FLAG_ACK {
            self.store_ack_payload(payload);
        } else {
            self.store_data_payload(payload);
        }
    }

    /// Shuts the connection down from the reader's side: synthesizes an
    /// END frame into both slots (under the empty-slot rule) so any
    /// blocked consumer wakes.
    pub fn end_connection(&mut self)
        ensures
            final(self).latest_ack is Some,
            final(self).latest_data is Some,
            old(self).latest_ack is Some ==> final(self).latest_ack == old(self).latest_ack,
            old(self).latest_data is Some ==> final(self).latest_data == old(self).latest_data,
            old(self).latest_ack is None ==> (final(self).latest_ack matches Some(p)
                && spec_synthesized_end(p)),
            old(self).latest_data is None ==> (final(self).latest_data matches Some(p)
                && spec_synthesized_end(p)),
    {
        let ack_end = Payload::new(Vec::new(), 0, FLAG_END);
        let data_end = Payload::new(Vec::new(), 0, FLAG_END);
        self.store_ack_payload(ack_end);
        self.store_data_payload(data_end);
    }

    /// Decides what the reading task does with a read failure: silence
    /// past the timeout or a closed connection shuts the connection
    /// down (synthesizing END into both slots) and stops the task; any
    /// other failure is dropped and reading goes on.
    pub fn process_read_error(&mut self, kind: &NetworkErrorKind) -> (stop: bool)
        ensures
            stop == (*kind == NetworkErrorKind::TimeoutError || *kind
                == NetworkErrorKind::ConnectionClosed),
            !stop ==> *final(self) == *old(self),
            stop ==> final(self).latest_ack is Some && final(self).latest_data is Some,
            stop && old(self).latest_ack is None ==> (final(self).latest_ack matches Some(p)
                && spec_synthesized_end(p)),
            stop && old(self).latest_data is None ==> (final(self).latest_data matches Some(p)
                && spec_synthesized_end(p)),
            stop && old(self).latest_ack is Some ==> final(self).latest_ack == old(
                self,
            ).latest_ack,
            stop && old(self).latest_data is Some ==> final(self).latest_data == old(
                self,
            ).latest_data,
    {
        match kind {
            NetworkErrorKind::TimeoutError | NetworkErrorKind::ConnectionClosed => {
                self.end_connection();
                true
            },
            _ => false,
        }
    }

    /// Drains the acknowledgement slot, handing out whatever it held.
    pub fn take_ack(&mut self) -> (r: Option<Payload>)
        ensures
            r == old(self).latest_ack,
            final(self).latest_ack is None,
            final(self).latest_data == old(self).latest_data,
    {
        self.latest_ack.take()
    }

    /// Lets a sender waiting for an acknowledgement see a reset: an
    /// RST frame sitting in the data slot is consumed and handed out,
    /// so the wait can fail at once; any other frame — or none — is
    /// left untouched for the receive path.
    pub fn take_rst(&mut self) -> (r: Option<Payload>)
        ensures
            (old(self).latest_data matches Some(p) && spec_is_rst(p)) ==> (r == old(
                self,
            ).latest_data && final(self).latest_data is None && final(self).latest_ack == old(
                self,
            ).latest_ack),
            !(old(self).latest_data matches Some(p) && spec_is_rst(p)) ==> (r is None
                && *final(self) == *old(self)),
    {
        let found = match &self.latest_data {
            Some(p) => p.flag == FLAG_RST && p.id == u16::MAX,
            None => false,
        };
        if found {
            self.latest_data.take()
        } else {
            None
        }
    }

    /// Drains the data slot, handing out whatever it held.
    pub fn take_data(&mut self) -> (r: Option<Payload>)
        ensures
            r == old(self).latest_data,
            final(self).latest_data is None,
            final(self).latest_ack == old(self).latest_ack,
    {
        self.latest_data.take()
    }
}

} // verus!

use vstd::prelude::*;
use crate::checksum::{calculate_checksum, checksum_of};
use crate::chunking::{combine_message_bodies, combined_bodies};
use crate::codec::{decompress_to_string, json_array_bytes, json_parses, parse_json, zlib_inflated};
use crate::consts::{MSG_TYPE_ACK, MSG_TYPE_ALL_END, MSG_TYPE_DATA, MSG_TYPE_END, MSG_TYPE_START};
use crate::error::TransferError;
use crate::header::{header_from, MessageHeader};
use crate::packet::MessagePacket;
use crate::protocol::{ack_frame, control_frame, is_ack_for, is_expected_ack, start_frame};
use crate::session::{Action, ActionView, Event, EventView, Receive, send_then};

verus! {

/// Where an inbound (dump) session stands.
#[derive(Debug, Clone, Copy, PartialEq, Eq, Structural)]
pub enum DumpPhase {
    /// Nothing sent yet.
    Ready,
    /// START sent; waiting for the peer's ACK.
    AwaitStartAck,
    /// Reading frames of the current report.
    Receiving,
    /// A complete report's END was acknowledged; waiting for the peer's ACK,
    /// after which the report is closed.
    AwaitReportAck,
    /// ALL_END acknowledged; waiting for the peer's last ACK.
    AwaitFinalAck,
    /// The stream ended with ALL_END.
    Complete,
    /// The session ended with this error.
    Failed(TransferError),
}

/// One dump: reports pulled from the peer, each a chunked and compressed JSON
/// document, until the peer sends ALL_END.
pub struct DumpSession {
    msg_id: u32,
    command: u8,
    phase: DumpPhase,
    pending: Vec<MessagePacket>,
    received: u64,
    items: Vec<serde_json::Value>,
    texts: Ghost<Seq<Seq<char>>>,
}

/// The mathematical value of a dump session.
pub struct DumpView {
    /// Session id expected on every DATA frame.
    pub msg_id: u32,
    /// Command code carried by START.
    pub command: u8,
    pub phase: DumpPhase,
    /// Bodies of the current report's chunks so far, concatenated.
    pub report: Seq<u8>,
    /// Number of chunks of the current report so far.
    pub chunks: nat,
    /// Header of the current report's first chunk.
    pub first: Option<MessageHeader>,
    /// Texts of the reports collected so far, each one JSON document.
    pub texts: Seq<Seq<char>>,
}

/// The current report holds every chunk and byte that its first chunk declares.
pub open spec fn report_complete(s: DumpView) -> bool {
    &&& s.first matches Some(f)
    &&& s.chunks == f.chunk_count
    &&& s.report.len() == f.total_size
}

/// Closes the current report: inflate its bytes and keep the text when it is
/// one JSON document. `None` when the bytes do not inflate.
pub open spec fn dump_close_report(s: DumpView) -> Option<DumpView> {
    match zlib_inflated(s.report) {
        None => None,
        Some(t) => Some(
            DumpView {
                report: Seq::empty(),
                chunks: 0,
                first: None,
                texts: if json_parses(t) {
                    s.texts.push(t)
                } else {
                    s.texts
                },
                ..s
            },
        ),
    }
}

/// Ends the session with an error.
pub open spec fn dump_fail(s: DumpView, e: TransferError) -> (DumpView, ActionView) {
    (DumpView { phase: DumpPhase::Failed(e), ..s }, ActionView::Finish)
}

/// Acknowledges and moves on to `phase`, expecting the peer's ACK back.
pub open spec fn dump_ack_then(s: DumpView, phase: DumpPhase) -> (DumpView, ActionView) {
    (DumpView { phase, ..s }, send_then(control_frame(MSG_TYPE_ACK, s.msg_id, 0), Receive::Ack))
}

/// Reading goes on with the next frame, after an optional pacing ACK.
pub open spec fn read_next_frame(send: Option<Seq<u8>>) -> ActionView {
    ActionView::Exchange { send, receive: Receive::Frame }
}

/// What a dump does with one frame read while receiving.
pub open spec fn dump_on_frame(s: DumpView, b: Seq<u8>) -> (DumpView, ActionView) {
    if b.len() < 20 {
        dump_fail(s, TransferError::DecodeError)
    } else {
        let h = header_from(b);
        let body = b.subrange(20, b.len() as int);
        if h.msg_type == MSG_TYPE_END && report_complete(s) {
            dump_ack_then(s, DumpPhase::AwaitReportAck)
        } else if h.msg_type == MSG_TYPE_ALL_END {
            if s.chunks == 0 {
                dump_ack_then(s, DumpPhase::AwaitFinalAck)
            } else {
                match dump_close_report(s) {
                    None => dump_fail(s, TransferError::DecodeError),
                    Some(s1) => dump_ack_then(s1, DumpPhase::AwaitFinalAck),
                }
            }
        } else if h.msg_type != MSG_TYPE_DATA {
            (s, read_next_frame(None))
        } else if h.message_id != s.msg_id || h.checksum != checksum_of(body) {
            dump_fail(s, TransferError::ProtocolViolation)
        } else {
            (
                DumpView {
                    report: s.report + body,
                    chunks: s.chunks + 1,
                    first: if s.first is None {
                        Some(h)
                    } else {
                        s.first
                    },
                    ..s
                },
                read_next_frame(
                    if h.chunk_index % 5 == 4 {
                        Some(control_frame(MSG_TYPE_ACK, s.msg_id, 0))
                    } else {
                        None
                    },
                ),
            )
        }
    }
}

/// Opening a dump: send START with the command, expect an ACK.
pub open spec fn dump_begin(s: DumpView) -> (DumpView, ActionView) {
    (
        DumpView { phase: DumpPhase::AwaitStartAck, ..s },
        send_then(control_frame(MSG_TYPE_START, s.msg_id, s.command), Receive::Ack),
    )
}

/// One step of a dump: the next phase and action after `e`.
pub open spec fn dump_step(s: DumpView, e: EventView) -> (DumpView, ActionView) {
    match s.phase {
        DumpPhase::AwaitStartAck => if e is WriteFailed {
            dump_fail(s, TransferError::TransportError)
        } else if e matches EventView::Received(b) && is_ack_for(b, s.msg_id) {
            (
                DumpView { phase: DumpPhase::Receiving, ..s },
                read_next_frame(Some(control_frame(MSG_TYPE_ACK, s.msg_id, 0))),
            )
        } else {
            dump_fail(s, TransferError::HandshakeRejected)
        },
        DumpPhase::Receiving => match e {
            EventView::Received(b) => dump_on_frame(s, b),
            _ => dump_fail(s, TransferError::TransportError),
        },
        DumpPhase::AwaitReportAck => if e is WriteFailed {
            dump_fail(s, TransferError::TransportError)
        } else {
            match dump_close_report(s) {
                None => dump_fail(s, TransferError::DecodeError),
                Some(s1) => (DumpView { phase: DumpPhase::Receiving, ..s1 }, read_next_frame(None)),
            }
        },
        DumpPhase::AwaitFinalAck => if e is WriteFailed {
            dump_fail(s, TransferError::TransportError)
        } else {
            (DumpView { phase: DumpPhase::Complete, ..s }, ActionView::Finish)
        },
        _ => (s, ActionView::Finish),
    }
}

/// A DATA frame of the session whose checksum byte does not match its body
/// aborts the dump with `ProtocolViolation`; it is never accepted.
pub proof fn lemma_corrupt_chunk_aborts(s: DumpView, frame: Seq<u8>)
    requires
        s.phase == DumpPhase::Receiving,
        frame.len() >= 20,
        header_from(frame).msg_type == MSG_TYPE_DATA,
        header_from(frame).checksum != checksum_of(frame.subrange(20, frame.len() as int)),
    ensures
        dump_step(s, EventView::Received(frame)) == dump_fail(s, TransferError::ProtocolViolation),
{
}

/// ALL_END with no chunk pending is acknowledged, and the next outcome other
/// than a failed write completes the dump with the reports collected so far.
pub proof fn lemma_all_end_completes(s: DumpView, frame: Seq<u8>, reply: EventView)
    requires
        s.phase == DumpPhase::Receiving,
        s.chunks == 0,
        frame.len() >= 20,
        header_from(frame).msg_type == MSG_TYPE_ALL_END,
        !(reply is WriteFailed),
    ensures
        ({
            let (s1, a1) = dump_step(s, EventView::Received(frame));
            let (s2, a2) = dump_step(s1, reply);
            &&& a1 == send_then(control_frame(MSG_TYPE_ACK, s.msg_id, 0), Receive::Ack)
            &&& s2.phase == DumpPhase::Complete
            &&& s2.texts == s.texts
            &&& a2 is Finish
        }),
{
}

/// `a` capped at the largest `u64`.
pub open spec fn saturate(a: nat) -> u64 {
    if a <= u64::MAX {
        a as u64
    } else {
        u64::MAX
    }
}

impl View for DumpSession {
    type V = DumpView;

    closed spec fn view(&self) -> DumpView {
        DumpView {
            msg_id: self.msg_id,
            command: self.command,
            phase: self.phase,
            report: combined_bodies(self.pending@),
            chunks: self.pending@.len(),
            first: if self.pending@.len() > 0 {
                Some(self.pending@[0].header)
            } else {
                None
            },
            texts: self.texts@,
        }
    }
}

impl DumpSession {
    /// The session invariant: one parsed document per collected text, and the
    /// byte counter of the current report in step with its chunks.
    pub closed spec fn wf(&self) -> bool {
        &&& self.items@.len() == self.texts@.len()
        &&& self.received == saturate(combined_bodies(self.pending@).len())
    }

    /// A dump under session id `msg_id` and command `command`.
    pub fn new(msg_id: u32, command: u8) -> (r: Self)
        ensures
            r.wf(),
            r@ == (DumpView {
                msg_id,
                command,
                phase: DumpPhase::Ready,
                report: Seq::empty(),
                chunks: 0,
                first: None,
                texts: Seq::empty(),
            }),
    {
        DumpSession {
            msg_id,
            command,
            phase: DumpPhase::Ready,
            pending: Vec::new(),
            received: 0,
            items: Vec::new(),
            texts: Ghost(Seq::empty()),
        }
    }

    pub fn phase(&self) -> (r: DumpPhase)
        ensures
            r == self@.phase,
    {
        self.phase
    }

    /// Number of reports collected so far.
    pub fn report_count(&self) -> (r: usize)
        requires
            self.wf(),
        ensures
            r == self@.texts.len(),
    {
        self.items.len()
    }

    /// Opens the session: send START, expect an ACK.
    pub fn begin(&mut self) -> (a: Action)
        requires
            old(self).wf(),
            old(self)@.phase == DumpPhase::Ready,
        ensures
            final(self).wf(),
            (final(self)@, a@) == dump_begin(old(self)@),
    {
        self.phase = DumpPhase::AwaitStartAck;
        Action::Exchange { send: Some(start_frame(self.msg_id, self.command)), receive: Receive::Ack }
    }

    fn fail(&mut self, e: TransferError) -> (a: Action)
        requires
            old(self).wf(),
        ensures
            final(self).wf(),
            (final(self)@, a@) == dump_fail(old(self)@, e),
    {
        self.phase = DumpPhase::Failed(e);
        Action::Finish
    }

    fn ack_then(&mut self, phase: DumpPhase) -> (a: Action)
        requires
            old(self).wf(),
        ensures
            final(self).wf(),
            (final(self)@, a@) == dump_ack_then(old(self)@, phase),
    {
        self.phase = phase;
        Action::Exchange { send: Some(ack_frame(self.msg_id)), receive: Receive::Ack }
    }

    /// Closes the current report; `false`, with nothing changed, when its bytes
    /// do not inflate.
    fn close_report(&mut self) -> (ok: bool)
        requires
            old(self).wf(),
        ensures
            final(self).wf(),
            ok == dump_close_report(old(self)@) is Some,
            ok ==> final(self)@ == dump_close_report(old(self)@)->0,
            !ok ==> final(self)@ == old(self)@,
    {
        let combined = combine_message_bodies(self.pending.as_slice());
        match decompress_to_string(combined.as_slice()) {
            Ok((text, _len)) => {
                match parse_json(text.as_str()) {
                    Some(value) => {
                        self.items.push(value);
                        self.texts = Ghost(self.texts@.push(text@));
                    },
                    None => {},
                }
                self.pending = Vec::new();
                self.received = 0;
                true
            },
            Err(_) => false,
        }
    }

    fn on_frame(&mut self, bytes: &[u8]) -> (a: Action)
        requires
            old(self).wf(),
        ensures
            final(self).wf(),
            (final(self)@, a@) == dump_on_frame(old(self)@, bytes@),
    {
        let packet = match MessagePacket::from_bytes(bytes) {
            Ok(p) => p,
            Err(_) => {
                return self.fail(TransferError::DecodeError);
            },
        };
        let msg_type = packet.header.msg_type;
        let complete = self.pending.len() > 0 && self.pending.len() as u64
            == self.pending[0].header.chunk_count as u64 && self.received
            == self.pending[0].header.total_size as u64;
        if msg_type == MSG_TYPE_END && complete {
            return self.ack_then(DumpPhase::AwaitReportAck);
        }
        if msg_type == MSG_TYPE_ALL_END {
            if self.pending.len() == 0 {
                return self.ack_then(DumpPhase::AwaitFinalAck);
            } else if self.close_report() {
                return self.ack_then(DumpPhase::AwaitFinalAck);
            } else {
                return self.fail(TransferError::DecodeError);
            }
        }
        if msg_type != MSG_TYPE_DATA {
            return Action::Exchange { send: None, receive: Receive::Frame };
        }
        if packet.header.message_id != self.msg_id || calculate_checksum(packet.body.as_slice())
            != packet.header.checksum {
            return self.fail(TransferError::ProtocolViolation);
        }
        let body_len = packet.body.len() as u64;
        let pacing = packet.header.chunk_index % 5 == 4;
        proof {
            let old_pending = self.pending@;
            assert(old_pending.push(packet).drop_last() =~= old_pending);
        }
        self.received = if body_len > u64::MAX - self.received {
            u64::MAX
        } else {
            self.received + body_len
        };
        self.pending.push(packet);
        if pacing {
            Action::Exchange { send: Some(ack_frame(self.msg_id)), receive: Receive::Frame }
        } else {
            Action::Exchange { send: None, receive: Receive::Frame }
        }
    }

    /// Advances the session by the outcome of its last exchange.
    pub fn step(&mut self, event: Event) -> (a: Action)
        requires
            old(self).wf(),
        ensures
            final(self).wf(),
            (final(self)@, a@) == dump_step(old(self)@, event@),
    {
        match self.phase {
            DumpPhase::AwaitStartAck => {
                let acked = match &event {
                    Event::Received(b) => is_expected_ack(b.as_slice(), self.msg_id),
                    _ => false,
                };
                if let Event::WriteFailed = event {
                    self.fail(TransferError::TransportError)
                } else if acked {
                    self.phase = DumpPhase::Receiving;
                    Action::Exchange { send: Some(ack_frame(self.msg_id)), receive: Receive::Frame }
                } else {
                    self.fail(TransferError::HandshakeRejected)
                }
            },
            DumpPhase::Receiving => match event {
                Event::Received(b) => self.on_frame(b.as_slice()),
                _ => self.fail(TransferError::TransportError),
            },
            DumpPhase::AwaitReportAck => {
                if let Event::WriteFailed = event {
                    self.fail(TransferError::TransportError)
                } else if self.close_report() {
                    self.phase = DumpPhase::Receiving;
                    Action::Exchange { send: None, receive: Receive::Frame }
                } else {
                    self.fail(TransferError::DecodeError)
                }
            },
            DumpPhase::AwaitFinalAck => {
                if let Event::WriteFailed = event {
                    self.fail(TransferError::TransportError)
                } else {
                    self.phase = DumpPhase::Complete;
                    Action::Finish
                }
            },
            _ => Action::Finish,
        }
    }

    /// The outcome of a finished dump: the collected documents as one compact
    /// JSON array, or no bytes at all when none was collected; else the error
    /// that ended the session.
    pub fn result(&self) -> (r: Result<Vec<u8>, TransferError>)
        requires
            self.wf(),
            self@.phase is Complete || self@.phase is Failed,
        ensures
            self@.phase matches DumpPhase::Failed(e) ==> r == Err::<Vec<u8>, TransferError>(e),
            self@.phase is Complete && self@.texts.len() == 0 ==> (r matches Ok(b) && b@.len()
                == 0),
            self@.phase is Complete && self@.texts.len() > 0 ==> (r matches Ok(b) && b@.len()
                >= 2),
    {
        match self.phase {
            DumpPhase::Failed(e) => Err(e),
            _ => {
                if self.items.len() == 0 {
                    Ok(Vec::new())
                } else {
                    match json_array_bytes(&self.items) {
                        Some(bytes) => Ok(bytes),
                        None => Err(TransferError::PayloadError),
                    }
                }
            },
        }
    }
}

} // verus!

use vstd::prelude::*;
use crate::chunking::{is_split_of, wrap_message_packets};
use crate::codec::{compress_string, zlib_compressed};
use crate::consts::{MAX_MESSAGE_BODY_SIZE, MSG_TYPE_ACK, MSG_TYPE_END, MSG_TYPE_START};
use crate::error::TransferError;
use crate::header::MessageHeader;
use crate::packet::{packet_bytes, MessagePacket};
use crate::protocol::{ack_frame, control_frame, end_frame, is_ack_for, is_expected_ack, start_frame};
use crate::session::{Action, ActionView, Event, EventView, Receive, send_then, sends_frame};

verus! {

/// Where an outbound (save) session stands.
#[derive(Debug, Clone, Copy, PartialEq, Eq, Structural)]
pub enum SavePhase {
    /// Nothing sent yet.
    Ready,
    /// START sent; waiting for the peer's ACK.
    AwaitStartAck,
    /// The handshake ACK is being written.
    HandshakeDone,
    /// A DATA frame sent; waiting for its ACK.
    AwaitChunkAck,
    /// END sent; waiting for its ACK.
    AwaitEndAck,
    /// Every frame was acknowledged.
    Complete,
    /// The session ended with this error.
    Failed(TransferError),
}

/// One save: the ordered DATA frames of a payload pushed to the peer in lock
/// step, each acknowledged before the next is sent.
pub struct SaveSession {
    msg_id: u32,
    command: u8,
    packets: Vec<MessagePacket>,
    phase: SavePhase,
    next: usize,
}

/// The mathematical value of a save session.
pub struct SaveView {
    /// Session id stamped on every frame.
    pub msg_id: u32,
    /// Command code carried by START.
    pub command: u8,
    /// Wire images of the DATA frames, in sending order.
    pub frames: Seq<Seq<u8>>,
    pub phase: SavePhase,
    /// Index of the DATA frame sent last or to be sent next.
    pub next: nat,
}

/// The DATA frame, END frame, or nothing, that comes after `next` frames have
/// been acknowledged.
pub open spec fn save_send_next(s: SaveView) -> (SaveView, ActionView) {
    if s.next < s.frames.len() {
        (
            SaveView { phase: SavePhase::AwaitChunkAck, ..s },
            send_then(s.frames[s.next as int], Receive::Ack),
        )
    } else {
        (
            SaveView { phase: SavePhase::AwaitEndAck, ..s },
            send_then(control_frame(MSG_TYPE_END, s.msg_id, 0), Receive::Ack),
        )
    }
}

/// Ends the session with an error.
pub open spec fn save_fail(s: SaveView, e: TransferError) -> (SaveView, ActionView) {
    (SaveView { phase: SavePhase::Failed(e), ..s }, ActionView::Finish)
}

/// Opening a save: send START with the command, expect an ACK.
pub open spec fn save_begin(s: SaveView) -> (SaveView, ActionView) {
    (
        SaveView { phase: SavePhase::AwaitStartAck, ..s },
        send_then(control_frame(MSG_TYPE_START, s.msg_id, s.command), Receive::Ack),
    )
}

/// One step of a save: the next phase and action after `e`.
pub open spec fn save_step(s: SaveView, e: EventView) -> (SaveView, ActionView) {
    let acked = e matches EventView::Received(b) && is_ack_for(b, s.msg_id);
    match s.phase {
        SavePhase::AwaitStartAck => if e is WriteFailed {
            save_fail(s, TransferError::TransportError)
        } else if acked {
            (
                SaveView { phase: SavePhase::HandshakeDone, ..s },
                send_then(control_frame(MSG_TYPE_ACK, s.msg_id, 0), Receive::Nothing),
            )
        } else {
            save_fail(s, TransferError::HandshakeRejected)
        },
        SavePhase::HandshakeDone => if e is WriteFailed {
            save_fail(s, TransferError::TransportError)
        } else {
            save_send_next(s)
        },
        SavePhase::AwaitChunkAck => if e is WriteFailed {
            save_fail(s, TransferError::TransportError)
        } else if acked {
            save_send_next(SaveView { next: s.next + 1, ..s })
        } else {
            save_fail(s, TransferError::TransmissionInterrupted)
        },
        SavePhase::AwaitEndAck => if e is WriteFailed {
            save_fail(s, TransferError::TransportError)
        } else if acked {
            (SaveView { phase: SavePhase::Complete, ..s }, ActionView::Finish)
        } else {
            save_fail(s, TransferError::HandshakeRejected)
        },
        _ => (s, ActionView::Finish),
    }
}

/// The actions of a save that meets `events` one after another.
pub open spec fn save_run(s: SaveView, events: Seq<EventView>) -> Seq<ActionView>
    decreases events.len(),
{
    if events.len() == 0 {
        Seq::empty()
    } else {
        let (s1, a) = save_step(s, events[0]);
        seq![a] + save_run(s1, events.drop_first())
    }
}

/// The state of a save after it meets `events` one after another.
pub open spec fn save_after(s: SaveView, events: Seq<EventView>) -> SaveView
    decreases events.len(),
{
    if events.len() == 0 {
        s
    } else {
        save_after(save_step(s, events[0]).0, events.drop_first())
    }
}

/// The peer's acknowledgement of the session, as read from the channel.
pub open spec fn ack_event(msg_id: u32) -> EventView {
    EventView::Received(control_frame(MSG_TYPE_ACK, msg_id, 0))
}

/// `n` acknowledgements in a row.
pub open spec fn acks(msg_id: u32, n: nat) -> Seq<EventView> {
    Seq::new(n, |i: int| ack_event(msg_id))
}

/// Sending the DATA frames from index `from` on, each awaiting its ACK.
pub open spec fn data_sends(frames: Seq<Seq<u8>>, from: int) -> Seq<ActionView> {
    Seq::new((frames.len() - from) as nat, |i: int| send_then(frames[from + i], Receive::Ack))
}

/// Wire images of `packets` with every header stamped with `msg_id`.
pub open spec fn stamped_frames(packets: Seq<MessagePacket>, msg_id: u32) -> Seq<Seq<u8>> {
    packets.map_values(
        |p: MessagePacket| packet_bytes(MessageHeader { message_id: msg_id, ..p.header }, p.body@),
    )
}

impl View for SaveSession {
    type V = SaveView;

    closed spec fn view(&self) -> SaveView {
        SaveView {
            msg_id: self.msg_id,
            command: self.command,
            frames: self.packets@.map_values(|p: MessagePacket| packet_bytes(p.header, p.body@)),
            phase: self.phase,
            next: self.next as nat,
        }
    }
}

/// Every frame of a save that reaches the first step in a failed phase is
/// sent no more: each later action is `Finish`.
pub proof fn lemma_failed_save_sends_nothing(s: SaveView, events: Seq<EventView>)
    requires
        s.phase is Failed,
    ensures
        forall|i: int| 0 <= i < save_run(s, events).len() ==> save_run(s, events)[i] is Finish,
        save_run(s, events).len() == events.len(),
    decreases events.len(),
{
    if events.len() > 0 {
        lemma_failed_save_sends_nothing(s, events.drop_first());
    }
}

/// A save whose START meets anything but the peer's ACK fails with
/// `HandshakeRejected` and sends no DATA frame: the only frame it ever
/// writes is START.
pub proof fn lemma_save_without_start_ack(s: SaveView, reply: EventView, later: Seq<EventView>)
    requires
        s.phase == SavePhase::Ready,
        !(reply is WriteFailed),
        !(reply matches EventView::Received(b) && is_ack_for(b, s.msg_id)),
    ensures
        ({
            let (s1, first) = save_begin(s);
            let (s2, second) = save_step(s1, reply);
            &&& first == send_then(
                control_frame(MSG_TYPE_START, s.msg_id, s.command),
                Receive::Ack,
            )
            &&& s2.phase == SavePhase::Failed(TransferError::HandshakeRejected)
            &&& !sends_frame(second)
            &&& forall|i: int|
                0 <= i < save_run(s2, later).len() ==> !sends_frame(
                    #[trigger] save_run(s2, later)[i],
                )
        }),
{
    let (s1, first) = save_begin(s);
    let (s2, second) = save_step(s1, reply);
    lemma_failed_save_sends_nothing(s2, later);
}

proof fn lemma_ack_event_is_ack(msg_id: u32)
    ensures
        ack_event(msg_id) matches EventView::Received(b) && is_ack_for(b, msg_id),
{
    crate::header::lemma_header_round_trip(crate::protocol::control_header(MSG_TYPE_ACK, msg_id, 0));
}

proof fn lemma_save_acked_from(s: SaveView, k: nat)
    requires
        s.next == k <= s.frames.len(),
    ensures
        ({
            let n = s.frames.len();
            let (s1, a) = save_send_next(s);
            &&& seq![a] + save_run(s1, acks(s.msg_id, (n - k + 1) as nat)) == data_sends(
                s.frames,
                k as int,
            ) + seq![
                send_then(control_frame(MSG_TYPE_END, s.msg_id, 0), Receive::Ack),
                ActionView::Finish,
            ]
            &&& save_after(s1, acks(s.msg_id, (n - k + 1) as nat)).phase == SavePhase::Complete
        }),
    decreases s.frames.len() - k,
{
    let n = s.frames.len();
    let m = (n - k + 1) as nat;
    let (s1, a) = save_send_next(s);
    let evs = acks(s.msg_id, m);
    let end = send_then(control_frame(MSG_TYPE_END, s.msg_id, 0), Receive::Ack);
    lemma_ack_event_is_ack(s.msg_id);
    assert(evs[0] == ack_event(s.msg_id));
    let rest = evs.drop_first();
    if k < n {
        assert(rest =~= acks(s.msg_id, (n - (k + 1) + 1) as nat));
        let s_next = SaveView { next: k + 1, ..s1 };
        lemma_save_acked_from(s_next, k + 1);
        let (s2, a2) = save_send_next(s_next);
        assert(save_step(s1, evs[0]) == (s2, a2));
        assert(save_run(s1, evs) == seq![a2] + save_run(s2, rest));
        assert(save_after(s1, evs) == save_after(s2, rest));
        assert(seq![a] + (seq![a2] + save_run(s2, rest)) =~= seq![a] + seq![a2] + save_run(
            s2,
            rest,
        ));
        assert(data_sends(s.frames, k as int) =~= seq![a] + data_sends(s.frames, k + 1int));
        assert(seq![a] + save_run(s1, evs) =~= data_sends(s.frames, k as int) + seq![
            end,
            ActionView::Finish,
        ]);
    } else {
        assert(rest =~= Seq::<EventView>::empty());
        let s2 = SaveView { phase: SavePhase::Complete, ..s1 };
        assert(save_step(s1, evs[0]) == (s2, ActionView::Finish));
        assert(save_run(s2, rest) =~= Seq::<ActionView>::empty());
        assert(save_run(s1, evs) =~= seq![ActionView::Finish]);
        assert(save_after(s1, evs) == save_after(s2, rest));
        assert(data_sends(s.frames, k as int) =~= Seq::<ActionView>::empty());
        assert(seq![a] + save_run(s1, evs) =~= data_sends(s.frames, k as int) + seq![
            end,
            ActionView::Finish,
        ]);
    }
}

/// A save against a peer that acknowledges every frame sends START, the
/// handshake ACK, every DATA frame in order, then END, and completes.
pub proof fn lemma_save_all_acked(s: SaveView)
    requires
        s.phase == SavePhase::Ready,
        s.next == 0,
    ensures
        ({
            let (s1, first) = save_begin(s);
            let events = acks(s.msg_id, s.frames.len() + 3);
            &&& first == send_then(
                control_frame(MSG_TYPE_START, s.msg_id, s.command),
                Receive::Ack,
            )
            &&& save_run(s1, events) == seq![
                send_then(control_frame(MSG_TYPE_ACK, s.msg_id, 0), Receive::Nothing),
            ] + data_sends(s.frames, 0) + seq![
                send_then(control_frame(MSG_TYPE_END, s.msg_id, 0), Receive::Ack),
                ActionView::Finish,
            ]
            &&& save_after(s1, events).phase == SavePhase::Complete
        }),
{
    let n = s.frames.len();
    let (s1, first) = save_begin(s);
    let events = acks(s.msg_id, n + 3);
    lemma_ack_event_is_ack(s.msg_id);
    assert(events[0] == ack_event(s.msg_id));
    let hs = SaveView { phase: SavePhase::HandshakeDone, ..s1 };
    let handshake_ack = send_then(control_frame(MSG_TYPE_ACK, s.msg_id, 0), Receive::Nothing);
    assert(save_step(s1, events[0]) == (hs, handshake_ack));
    let rest = events.drop_first();
    assert(rest =~= acks(s.msg_id, n + 2));
    assert(rest[0] == ack_event(s.msg_id));
    let rest2 = rest.drop_first();
    assert(rest2 =~= acks(s.msg_id, (n - 0 + 1) as nat));
    lemma_save_acked_from(hs, 0);
    let (s3, a3) = save_send_next(hs);
    assert(save_step(hs, rest[0]) == (s3, a3));
    assert(save_run(hs, rest) == seq![a3] + save_run(s3, rest2));
    assert(save_after(hs, rest) == save_after(s3, rest2));
    assert(save_run(s1, events) == seq![handshake_ack] + save_run(hs, rest));
    assert(save_after(s1, events) == save_after(hs, rest));
    let tail = data_sends(s.frames, 0) + seq![
        send_then(control_frame(MSG_TYPE_END, s.msg_id, 0), Receive::Ack),
        ActionView::Finish,
    ];
    assert(seq![handshake_ack] + tail =~= seq![handshake_ack] + data_sends(s.frames, 0) + seq![
        send_then(control_frame(MSG_TYPE_END, s.msg_id, 0), Receive::Ack),
        ActionView::Finish,
    ]);
}

impl SaveSession {
    /// The session invariant: the next frame index stays within the frames,
    /// and below their count while a DATA frame awaits its ACK.
    pub closed spec fn wf(&self) -> bool {
        &&& self.next <= self.packets@.len() <= usize::MAX
        &&& self.phase == SavePhase::AwaitChunkAck ==> self.next < self.packets@.len()
    }

    /// A save of `packets` under session id `msg_id` and command `command`;
    /// every packet is stamped with the session id.
    pub fn new(packets: Vec<MessagePacket>, msg_id: u32, command: u8) -> (r: Self)
        ensures
            r.wf(),
            r@.msg_id == msg_id,
            r@.command == command,
            r@.phase == SavePhase::Ready,
            r@.next == 0,
            r@.frames == stamped_frames(packets@, msg_id),
    {
        let mut stamped = packets;
        let ghost original = stamped@;
        let n: usize = stamped.len();
        let mut i: usize = 0;
        while i < n
            invariant
                n == original.len(),
                i <= n,
                stamped@.len() == n,
                forall|j: int|
                    0 <= j < n ==> (#[trigger] stamped@[j]).header == (MessageHeader {
                        message_id: if j < i {
                            msg_id
                        } else {
                            original[j].header.message_id
                        },
                        ..original[j].header
                    }) && stamped@[j].body@ == original[j].body@,
            decreases n - i,
        {
            stamped[i].header.message_id = msg_id;
            i = i + 1;
        }
        let r = SaveSession {
            msg_id,
            command,
            packets: stamped,
            phase: SavePhase::Ready,
            next: 0,
        };
        assert(r@.frames =~= stamped_frames(original, msg_id));
        r
    }

    /// A save of a text payload: compressed with zlib, split into DATA frames
    /// of at most one full body each, stamped with the session id. Fails with
    /// `PayloadError` exactly when the compressed bytes do not fit the 32-bit
    /// size field.
    pub fn for_payload(payload: &str, msg_id: u32, command: u8) -> (r: Result<Self, TransferError>)
        ensures
            r is Ok <==> zlib_compressed(payload@).len() <= u32::MAX,
            r is Err ==> r == Err::<Self, TransferError>(TransferError::PayloadError),
            r matches Ok(s) ==> {
                &&& s.wf()
                &&& s@.msg_id == msg_id
                &&& s@.command == command
                &&& s@.phase == SavePhase::Ready
                &&& s@.next == 0
                &&& exists|packets: Seq<MessagePacket>|
                    is_split_of(packets, zlib_compressed(payload@), MAX_MESSAGE_BODY_SIZE as int)
                        && s@.frames == stamped_frames(packets, msg_id)
            },
    {
        let compressed = match compress_string(payload) {
            Ok((bytes, _len)) => bytes,
            Err(e) => {
                return Err(e);
            },
        };
        if compressed.len() > 0xffff_ffff {
            return Err(TransferError::PayloadError);
        }
        let packets = wrap_message_packets(compressed);
        let ghost split = packets@;
        let session = SaveSession::new(packets, msg_id, command);
        assert(is_split_of(split, zlib_compressed(payload@), MAX_MESSAGE_BODY_SIZE as int));
        Ok(session)
    }

    pub fn phase(&self) -> (r: SavePhase)
        ensures
            r == self@.phase,
    {
        self.phase
    }

    /// Opens the session: send START, expect an ACK.
    pub fn begin(&mut self) -> (a: Action)
        requires
            old(self).wf(),
            old(self)@.phase == SavePhase::Ready,
        ensures
            final(self).wf(),
            (final(self)@, a@) == save_begin(old(self)@),
    {
        self.phase = SavePhase::AwaitStartAck;
        Action::Exchange { send: Some(start_frame(self.msg_id, self.command)), receive: Receive::Ack }
    }

    fn send_next(&mut self) -> (a: Action)
        requires
            old(self).wf(),
        ensures
            final(self).wf(),
            (final(self)@, a@) == save_send_next(old(self)@),
    {
        if self.next < self.packets.len() {
            self.phase = SavePhase::AwaitChunkAck;
            let frame = self.packets[self.next].to_bytes();
            Action::Exchange { send: Some(frame), receive: Receive::Ack }
        } else {
            self.phase = SavePhase::AwaitEndAck;
            Action::Exchange { send: Some(end_frame(self.msg_id)), receive: Receive::Ack }
        }
    }

    fn fail(&mut self, e: TransferError) -> (a: Action)
        requires
            old(self).wf(),
        ensures
            final(self).wf(),
            (final(self)@, a@) == crate::save::save_fail(old(self)@, e),
    {
        self.phase = SavePhase::Failed(e);
        Action::Finish
    }

    /// Advances the session by the outcome of its last exchange.
    pub fn step(&mut self, event: Event) -> (a: Action)
        requires
            old(self).wf(),
        ensures
            final(self).wf(),
            (final(self)@, a@) == save_step(old(self)@, event@),
    {
        let write_failed = match &event {
            Event::WriteFailed => true,
            _ => false,
        };
        let acked = match &event {
            Event::Received(b) => is_expected_ack(b.as_slice(), self.msg_id),
            _ => false,
        };
        match self.phase {
            SavePhase::AwaitStartAck => {
                if write_failed {
                    self.fail(TransferError::TransportError)
                } else if acked {
                    self.phase = SavePhase::HandshakeDone;
                    Action::Exchange { send: Some(ack_frame(self.msg_id)), receive: Receive::Nothing }
                } else {
                    self.fail(TransferError::HandshakeRejected)
                }
            },
            SavePhase::HandshakeDone => {
                if write_failed {
                    self.fail(TransferError::TransportError)
                } else {
                    self.send_next()
                }
            },
            SavePhase::AwaitChunkAck => {
                if write_failed {
                    self.fail(TransferError::TransportError)
                } else if acked {
                    self.next = self.next + 1;
                    self.phase = SavePhase::HandshakeDone;
                    self.send_next()
                } else {
                    self.fail(TransferError::TransmissionInterrupted)
                }
            },
            SavePhase::AwaitEndAck => {
                if write_failed {
                    self.fail(TransferError::TransportError)
                } else if acked {
                    self.phase = SavePhase::Complete;
                    Action::Finish
                } else {
                    self.fail(TransferError::HandshakeRejected)
                }
            },
            _ => Action::Finish,
        }
    }

    /// The outcome of a finished save: `Ok` once END was acknowledged, else
    /// the error that ended it.
    pub fn result(&self) -> (r: Result<(), TransferError>)
        requires
            self@.phase is Complete || self@.phase is Failed,
        ensures
            self@.phase is Complete ==> r is Ok,
            self@.phase matches SavePhase::Failed(e) ==> r == Err::<(), TransferError>(e),
    {
        match self.phase {
            SavePhase::Failed(e) => Err(e),
            _ => Ok(()),
        }
    }
}

} // verus!

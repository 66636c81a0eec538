use vsock_blackbox::chunking::wrap_message_packets;
use vsock_blackbox::codec::compress_string;
use vsock_blackbox::consts::{
    CLIENT_MESSAGE_ID, DUMP_PROCESS_COMMAND, MSG_TYPE_ACK, MSG_TYPE_ALL_END, MSG_TYPE_DATA,
    MSG_TYPE_END, MSG_TYPE_START, SAVE_PROCESS_COMMAND,
};
use vsock_blackbox::dump::{DumpPhase, DumpSession};
use vsock_blackbox::error::TransferError;
use vsock_blackbox::header::MessageHeader;
use vsock_blackbox::packet::MessagePacket;
use vsock_blackbox::protocol::ack_frame;
use vsock_blackbox::save::{SavePhase, SaveSession};
use vsock_blackbox::session::{Action, Event, Receive};

fn frame_type(frame: &[u8]) -> u8 {
    MessageHeader::from_bytes(frame).unwrap().msg_type
}

fn header_only(msg_type: u8, id: u32) -> Vec<u8> {
    let mut p = MessagePacket::new(msg_type, 0, 0, 0);
    p.header.set_message_id(id);
    p.to_bytes()
}

/// Runs a save against a peer that answers every read with `reply(n)`, where
/// `n` counts the replies so far. Returns the frames written.
fn run_save(session: &mut SaveSession, reply: impl Fn(usize) -> Option<Vec<u8>>) -> Vec<Vec<u8>> {
    let mut sent = Vec::new();
    let mut replies = 0;
    let mut action = session.begin();
    loop {
        match action {
            Action::Finish => return sent,
            Action::Exchange { send, receive } => {
                if let Some(frame) = send {
                    sent.push(frame);
                }
                let event = match receive {
                    Receive::Nothing => Event::Completed,
                    _ => {
                        let r = reply(replies);
                        replies += 1;
                        match r {
                            Some(b) => Event::Received(b),
                            None => Event::ReadFailed,
                        }
                    }
                };
                action = session.step(event);
            }
        }
    }
}

#[test]
fn save_of_ten_thousand_bytes_sends_three_chunks() {
    let payload = vec![0xABu8; 10000];
    let packets = wrap_message_packets(payload.clone());
    let mut session = SaveSession::new(packets, CLIENT_MESSAGE_ID, SAVE_PROCESS_COMMAND);
    let sent = run_save(&mut session, |_| Some(ack_frame(CLIENT_MESSAGE_ID)));
    assert_eq!(session.phase(), SavePhase::Complete);
    assert_eq!(session.result(), Ok(()));
    let types: Vec<u8> = sent.iter().map(|f| frame_type(f)).collect();
    assert_eq!(
        types,
        vec![MSG_TYPE_START, MSG_TYPE_ACK, MSG_TYPE_DATA, MSG_TYPE_DATA, MSG_TYPE_DATA, MSG_TYPE_END]
    );
    let start = MessageHeader::from_bytes(&sent[0]).unwrap();
    assert_eq!(start.reserved, SAVE_PROCESS_COMMAND);
    let data: Vec<MessagePacket> =
        sent[2..5].iter().map(|f| MessagePacket::from_bytes(f).unwrap()).collect();
    let sizes: Vec<usize> = data.iter().map(|p| p.body.len()).collect();
    assert_eq!(sizes, vec![4076, 4076, 1848]);
    for (i, p) in data.iter().enumerate() {
        assert_eq!(p.header.message_id, CLIENT_MESSAGE_ID);
        assert_eq!(p.header.chunk_index as usize, i);
        assert_eq!(p.header.chunk_count, 3);
        assert_eq!(p.header.total_size, 10000);
    }
    let mut joined = Vec::new();
    for p in &data {
        joined.extend_from_slice(&p.body);
    }
    assert_eq!(joined, payload);
}

#[test]
fn save_without_start_ack_is_rejected_before_any_data() {
    let packets = wrap_message_packets(vec![1u8; 5000]);
    let mut session = SaveSession::new(packets, CLIENT_MESSAGE_ID, SAVE_PROCESS_COMMAND);
    let sent = run_save(&mut session, |_| Some(header_only(MSG_TYPE_END, CLIENT_MESSAGE_ID)));
    assert_eq!(session.result(), Err(TransferError::HandshakeRejected));
    assert_eq!(sent.len(), 1);
    assert_eq!(frame_type(&sent[0]), MSG_TYPE_START);

    let packets = wrap_message_packets(vec![1u8; 5000]);
    let mut closed = SaveSession::new(packets, CLIENT_MESSAGE_ID, SAVE_PROCESS_COMMAND);
    let sent = run_save(&mut closed, |_| None);
    assert_eq!(closed.result(), Err(TransferError::HandshakeRejected));
    assert!(sent.iter().all(|f| frame_type(f) != MSG_TYPE_DATA));
}

#[test]
fn save_with_foreign_ack_id_is_rejected() {
    let packets = wrap_message_packets(vec![1u8; 10]);
    let mut session = SaveSession::new(packets, CLIENT_MESSAGE_ID, SAVE_PROCESS_COMMAND);
    run_save(&mut session, |_| Some(ack_frame(2)));
    assert_eq!(session.result(), Err(TransferError::HandshakeRejected));
}

#[test]
fn save_missing_chunk_ack_is_interrupted() {
    let packets = wrap_message_packets(vec![1u8; 10000]);
    let mut session = SaveSession::new(packets, CLIENT_MESSAGE_ID, SAVE_PROCESS_COMMAND);
    let sent = run_save(&mut session, |n| if n < 2 { Some(ack_frame(CLIENT_MESSAGE_ID)) } else { None });
    assert_eq!(session.result(), Err(TransferError::TransmissionInterrupted));
    let data = sent.iter().filter(|f| frame_type(f) == MSG_TYPE_DATA).count();
    assert_eq!(data, 2);
}

#[test]
fn save_missing_end_ack_is_rejected() {
    let packets = wrap_message_packets(vec![1u8; 100]);
    let mut session = SaveSession::new(packets, CLIENT_MESSAGE_ID, SAVE_PROCESS_COMMAND);
    let sent = run_save(&mut session, |n| if n < 2 { Some(ack_frame(CLIENT_MESSAGE_ID)) } else { None });
    assert_eq!(session.result(), Err(TransferError::HandshakeRejected));
    assert_eq!(frame_type(sent.last().unwrap()), MSG_TYPE_END);
}

#[test]
fn save_write_failure_is_a_transport_error() {
    let packets = wrap_message_packets(vec![1u8; 100]);
    let mut session = SaveSession::new(packets, CLIENT_MESSAGE_ID, SAVE_PROCESS_COMMAND);
    let _ = session.begin();
    let action = session.step(Event::WriteFailed);
    assert!(matches!(action, Action::Finish));
    assert_eq!(session.result(), Err(TransferError::TransportError));
}

#[test]
fn save_of_empty_payload_sends_only_control_frames() {
    let mut session = SaveSession::new(Vec::new(), CLIENT_MESSAGE_ID, SAVE_PROCESS_COMMAND);
    let sent = run_save(&mut session, |_| Some(ack_frame(CLIENT_MESSAGE_ID)));
    assert_eq!(session.result(), Ok(()));
    let types: Vec<u8> = sent.iter().map(|f| frame_type(f)).collect();
    assert_eq!(types, vec![MSG_TYPE_START, MSG_TYPE_ACK, MSG_TYPE_END]);
}

#[test]
fn save_session_for_payload_compresses_and_stamps() {
    let text = "{\"k\":\"value value value value\"}";
    let mut session = SaveSession::for_payload(text, 5, SAVE_PROCESS_COMMAND).unwrap();
    let sent = run_save(&mut session, |_| Some(ack_frame(5)));
    assert_eq!(session.result(), Ok(()));
    let (compressed, _) = compress_string(text).unwrap();
    let data: Vec<MessagePacket> = sent
        .iter()
        .filter(|f| frame_type(f) == MSG_TYPE_DATA)
        .map(|f| MessagePacket::from_bytes(f).unwrap())
        .collect();
    assert_eq!(data.len(), 1);
    assert_eq!(data[0].header.message_id, 5);
    assert_eq!(data[0].body, compressed);
}

/// The frames a host sends for one report holding `json`.
fn report_frames(json: &str, id: u32) -> Vec<Vec<u8>> {
    let (compressed, _) = compress_string(json).unwrap();
    let mut packets = wrap_message_packets(compressed);
    let mut frames = Vec::new();
    for p in packets.iter_mut() {
        p.header.set_message_id(id);
        frames.push(p.to_bytes());
    }
    frames.push(header_only(MSG_TYPE_END, id));
    frames
}

/// Runs a dump against a host that sends `frames` in order, one per frame
/// read, and acknowledges every ACK read. Returns the frames written.
fn run_dump(session: &mut DumpSession, frames: Vec<Vec<u8>>) -> Vec<Vec<u8>> {
    let mut sent = Vec::new();
    let mut incoming = frames.into_iter();
    let mut action = session.begin();
    loop {
        match action {
            Action::Finish => return sent,
            Action::Exchange { send, receive } => {
                if let Some(frame) = send {
                    sent.push(frame);
                }
                let event = match receive {
                    Receive::Nothing => Event::Completed,
                    Receive::Ack => Event::Received(ack_frame(CLIENT_MESSAGE_ID)),
                    Receive::Frame => match incoming.next() {
                        Some(f) => Event::Received(f),
                        None => Event::ReadFailed,
                    },
                };
                action = session.step(event);
            }
        }
    }
}

#[test]
fn dump_with_immediate_all_end_returns_no_items() {
    let mut session = DumpSession::new(CLIENT_MESSAGE_ID, DUMP_PROCESS_COMMAND);
    let sent = run_dump(&mut session, vec![header_only(MSG_TYPE_ALL_END, CLIENT_MESSAGE_ID)]);
    assert_eq!(session.phase(), DumpPhase::Complete);
    assert_eq!(session.report_count(), 0);
    assert_eq!(session.result(), Ok(Vec::new()));
    let types: Vec<u8> = sent.iter().map(|f| frame_type(f)).collect();
    assert_eq!(types, vec![MSG_TYPE_START, MSG_TYPE_ACK, MSG_TYPE_ACK]);
    let start = MessageHeader::from_bytes(&sent[0]).unwrap();
    assert_eq!(start.reserved, DUMP_PROCESS_COMMAND);
}

#[test]
fn dump_with_corrupted_checksum_is_a_protocol_violation() {
    let mut frames = report_frames("{\"a\":1}", CLIENT_MESSAGE_ID);
    frames[0][19] = frames[0][19].wrapping_add(1);
    frames.push(header_only(MSG_TYPE_ALL_END, CLIENT_MESSAGE_ID));
    let mut session = DumpSession::new(CLIENT_MESSAGE_ID, DUMP_PROCESS_COMMAND);
    run_dump(&mut session, frames);
    assert_eq!(session.phase(), DumpPhase::Failed(TransferError::ProtocolViolation));
    assert_eq!(session.result(), Err(TransferError::ProtocolViolation));
}

#[test]
fn dump_with_foreign_message_id_is_a_protocol_violation() {
    let mut frames = report_frames("{\"a\":1}", 2);
    frames.push(header_only(MSG_TYPE_ALL_END, CLIENT_MESSAGE_ID));
    let mut session = DumpSession::new(CLIENT_MESSAGE_ID, DUMP_PROCESS_COMMAND);
    run_dump(&mut session, frames);
    assert_eq!(session.result(), Err(TransferError::ProtocolViolation));
}

#[test]
fn dump_collects_reports_in_order() {
    let mut frames = report_frames("{\"first\":[1,2,3]}", CLIENT_MESSAGE_ID);
    frames.extend(report_frames("{ \"second\" : true }", CLIENT_MESSAGE_ID));
    frames.push(header_only(MSG_TYPE_ALL_END, CLIENT_MESSAGE_ID));
    let mut session = DumpSession::new(CLIENT_MESSAGE_ID, DUMP_PROCESS_COMMAND);
    run_dump(&mut session, frames);
    assert_eq!(session.report_count(), 2);
    let bytes = session.result().unwrap();
    assert_eq!(String::from_utf8(bytes).unwrap(), "[{\"first\":[1,2,3]},{\"second\":true}]");
}

#[test]
fn dump_skips_a_report_that_is_not_json() {
    let mut frames = report_frames("not json at all", CLIENT_MESSAGE_ID);
    frames.extend(report_frames("[1]", CLIENT_MESSAGE_ID));
    frames.push(header_only(MSG_TYPE_ALL_END, CLIENT_MESSAGE_ID));
    let mut session = DumpSession::new(CLIENT_MESSAGE_ID, DUMP_PROCESS_COMMAND);
    run_dump(&mut session, frames);
    assert_eq!(session.phase(), DumpPhase::Complete);
    assert_eq!(String::from_utf8(session.result().unwrap()).unwrap(), "[[1]]");
}

#[test]
fn dump_of_a_report_that_does_not_inflate_fails_to_decode() {
    let mut p = MessagePacket::new(MSG_TYPE_DATA, 3, 0, 1);
    p.from_slice(&[1, 2, 3], 0);
    p.header.set_message_id(CLIENT_MESSAGE_ID);
    let frames = vec![p.to_bytes(), header_only(MSG_TYPE_END, CLIENT_MESSAGE_ID)];
    let mut session = DumpSession::new(CLIENT_MESSAGE_ID, DUMP_PROCESS_COMMAND);
    let sent = run_dump(&mut session, frames);
    assert_eq!(session.result(), Err(TransferError::DecodeError));
    let types: Vec<u8> = sent.iter().map(|f| frame_type(f)).collect();
    assert_eq!(types, vec![MSG_TYPE_START, MSG_TYPE_ACK, MSG_TYPE_ACK]);
}

#[test]
fn dump_acknowledges_every_fifth_chunk() {
    let data: Vec<u8> = (0..6 * 4076u32).map(|i| (i % 253) as u8).collect();
    let mut packets = wrap_message_packets(data);
    assert_eq!(packets.len(), 6);
    let mut frames = Vec::new();
    for p in packets.iter_mut() {
        p.header.set_message_id(CLIENT_MESSAGE_ID);
        frames.push(p.to_bytes());
    }
    let mut session = DumpSession::new(CLIENT_MESSAGE_ID, DUMP_PROCESS_COMMAND);
    let _ = session.begin();
    let first = session.step(Event::Received(ack_frame(CLIENT_MESSAGE_ID)));
    assert!(matches!(first, Action::Exchange { send: Some(_), receive: Receive::Frame }));
    for (i, f) in frames.into_iter().enumerate() {
        let action = session.step(Event::Received(f));
        match action {
            Action::Exchange { send, receive: Receive::Frame } => {
                assert_eq!(send.is_some(), i == 4, "chunk {}", i);
            }
            _ => panic!("unexpected action after chunk {}", i),
        }
    }
    assert_eq!(session.phase(), DumpPhase::Receiving);
}

#[test]
fn dump_ignores_other_frames_and_incomplete_end() {
    let mut session = DumpSession::new(CLIENT_MESSAGE_ID, DUMP_PROCESS_COMMAND);
    let _ = session.begin();
    let _ = session.step(Event::Received(ack_frame(CLIENT_MESSAGE_ID)));
    let a = session.step(Event::Received(header_only(MSG_TYPE_END, CLIENT_MESSAGE_ID)));
    assert!(matches!(a, Action::Exchange { send: None, receive: Receive::Frame }));
    let a = session.step(Event::Received(header_only(MSG_TYPE_ACK, CLIENT_MESSAGE_ID)));
    assert!(matches!(a, Action::Exchange { send: None, receive: Receive::Frame }));
    assert_eq!(session.phase(), DumpPhase::Receiving);
}

#[test]
fn dump_short_frame_is_a_decode_error() {
    let mut session = DumpSession::new(CLIENT_MESSAGE_ID, DUMP_PROCESS_COMMAND);
    let _ = session.begin();
    let _ = session.step(Event::Received(ack_frame(CLIENT_MESSAGE_ID)));
    let a = session.step(Event::Received(vec![1, 2, 3]));
    assert!(matches!(a, Action::Finish));
    assert_eq!(session.result(), Err(TransferError::DecodeError));
}

#[test]
fn dump_without_start_ack_is_rejected() {
    let mut session = DumpSession::new(CLIENT_MESSAGE_ID, DUMP_PROCESS_COMMAND);
    let _ = session.begin();
    let a = session.step(Event::ReadFailed);
    assert!(matches!(a, Action::Finish));
    assert_eq!(session.result(), Err(TransferError::HandshakeRejected));
}

#[test]
fn dump_read_failure_while_receiving_is_a_transport_error() {
    let mut session = DumpSession::new(CLIENT_MESSAGE_ID, DUMP_PROCESS_COMMAND);
    let _ = session.begin();
    let _ = session.step(Event::Received(ack_frame(CLIENT_MESSAGE_ID)));
    let _ = session.step(Event::ReadFailed);
    assert_eq!(session.result(), Err(TransferError::TransportError));
}

#[test]
fn dump_acknowledges_end_before_closing_the_report() {
    let frames = report_frames("{\"a\":1}", CLIENT_MESSAGE_ID);
    let mut session = DumpSession::new(CLIENT_MESSAGE_ID, DUMP_PROCESS_COMMAND);
    let _ = session.begin();
    let _ = session.step(Event::Received(ack_frame(CLIENT_MESSAGE_ID)));
    let n = frames.len();
    let mut last = None;
    for f in frames {
        last = Some(session.step(Event::Received(f)));
    }
    assert_eq!(n, 2);
    match last.unwrap() {
        Action::Exchange { send: Some(frame), receive: Receive::Ack } => {
            assert_eq!(frame, ack_frame(CLIENT_MESSAGE_ID));
        }
        _ => panic!("END was not acknowledged"),
    }
    assert_eq!(session.phase(), DumpPhase::AwaitReportAck);
    assert_eq!(session.report_count(), 0);
    let next = session.step(Event::Received(ack_frame(CLIENT_MESSAGE_ID)));
    assert!(matches!(next, Action::Exchange { send: None, receive: Receive::Frame }));
    assert_eq!(session.report_count(), 1);
}

#[test]
fn save_session_for_ordinary_payload_is_ready() {
    assert!(SaveSession::for_payload("", 1, SAVE_PROCESS_COMMAND).is_ok());
    assert!(SaveSession::for_payload("{\"x\":[1,2,3]}", 1, SAVE_PROCESS_COMMAND).is_ok());
}

use vstd::prelude::*;
use crate::consts::{
    DUMP_COMMAND, DUMP_PROCESS_COMMAND, MAX_MESSAGE_BODY_SIZE, MESSAGE_HEADER_SIZE, MSG_TYPE_ACK,
    MSG_TYPE_DATA, MSG_TYPE_END, MSG_TYPE_START, PROTOCOL_VERSION, SAVE_COMMAND,
    SAVE_PROCESS_COMMAND,
};
use crate::header::{header_bytes, header_from, MessageHeader};
use crate::packet::{min_int, MessagePacket};

verus! {

/// Command-line flag that selects a save.
pub const SAVE: &'static str = "--save";
/// Command-line flag that selects a dump.
pub const DUMP: &'static str = "--dump";
/// Command-line flag that selects a save of process state.
pub const SAVE_PROCESS: &'static str = "--save-process";
/// Command-line flag that selects a dump of process state.
pub const DUMP_PROCESS: &'static str = "--dump-process";

/// The header of a header-only control frame (START, END, ACK).
pub open spec fn control_header(msg_type: u8, msg_id: u32, reserved: u8) -> MessageHeader {
    MessageHeader {
        version: PROTOCOL_VERSION,
        msg_type,
        message_id: msg_id,
        total_size: 0,
        chunk_index: 0,
        chunk_count: 0,
        reserved,
        checksum: 0,
    }
}

/// The wire image of a control frame.
pub open spec fn control_frame(msg_type: u8, msg_id: u32, reserved: u8) -> Seq<u8> {
    header_bytes(control_header(msg_type, msg_id, reserved))
}

/// A reply is the expected acknowledgement: a full header of type ACK that
/// carries the expected message id.
pub open spec fn is_ack_for(reply: Seq<u8>, expected_msg_id: u32) -> bool {
    &&& reply.len() >= MESSAGE_HEADER_SIZE
    &&& header_from(reply).msg_type == MSG_TYPE_ACK
    &&& header_from(reply).message_id == expected_msg_id
}

/// Body length that a header declares for its frame: for chunk `i` of a DATA
/// stream, the bytes of `[i*M, min((i+1)*M, total))`; none for other frames.
pub open spec fn declared_body_len_of(h: MessageHeader) -> int {
    let start = h.chunk_index * MAX_MESSAGE_BODY_SIZE;
    if h.msg_type == MSG_TYPE_DATA && start < h.total_size {
        min_int(MAX_MESSAGE_BODY_SIZE as int, h.total_size - start)
    } else {
        0
    }
}

/// The command code that a command-line flag selects; 0 for an unknown flag.
pub open spec fn command_code_of(flag: Seq<char>) -> u8 {
    if flag == SAVE@ {
        SAVE_COMMAND
    } else if flag == DUMP@ {
        DUMP_COMMAND
    } else if flag == SAVE_PROCESS@ {
        SAVE_PROCESS_COMMAND
    } else if flag == DUMP_PROCESS@ {
        DUMP_PROCESS_COMMAND
    } else {
        0
    }
}

fn control_message(msg_type: u8, msg_id: u32, reserved: u8) -> (r: MessagePacket)
    ensures
        r.header == control_header(msg_type, msg_id, reserved),
        r.body@ == Seq::<u8>::empty(),
{
    let mut packet = MessagePacket::new(msg_type, 0, 0, 0);
    packet.header.set_message_id(msg_id);
    packet.header.set_reserved(reserved);
    packet
}

/// The START frame that opens a session: the session id as message id and
/// the command code in the reserved byte.
pub fn start_frame(msg_id: u32, command: u8) -> (r: Vec<u8>)
    ensures
        r@ == control_frame(MSG_TYPE_START, msg_id, command),
{
    let packet = control_message(MSG_TYPE_START, msg_id, command);
    let bytes = packet.to_bytes();
    assert(bytes@ =~= control_frame(MSG_TYPE_START, msg_id, command));
    bytes
}

/// The END frame that closes an outbound stream.
pub fn end_frame(msg_id: u32) -> (r: Vec<u8>)
    ensures
        r@ == control_frame(MSG_TYPE_END, msg_id, 0),
{
    let packet = control_message(MSG_TYPE_END, msg_id, 0);
    let bytes = packet.to_bytes();
    assert(bytes@ =~= control_frame(MSG_TYPE_END, msg_id, 0));
    bytes
}

/// The ACK frame for a session.
pub fn ack_frame(msg_id: u32) -> (r: Vec<u8>)
    ensures
        r@ == control_frame(MSG_TYPE_ACK, msg_id, 0),
{
    let packet = control_message(MSG_TYPE_ACK, msg_id, 0);
    let bytes = packet.to_bytes();
    assert(bytes@ =~= control_frame(MSG_TYPE_ACK, msg_id, 0));
    bytes
}

/// Whether the bytes read while waiting for an acknowledgement are the ACK
/// of the expected session. Short or foreign replies are not.
pub fn is_expected_ack(reply: &[u8], expected_msg_id: u32) -> (r: bool)
    ensures
        r == is_ack_for(reply@, expected_msg_id),
{
    match MessagePacket::from_bytes(reply) {
        Ok(packet) => packet.header.msg_type == MSG_TYPE_ACK && packet.header.message_id
            == expected_msg_id,
        Err(_) => false,
    }
}

/// Number of body bytes that follow a header on the wire, so that a reader
/// can gather a whole frame across several reads.
pub fn declared_body_len(header: &MessageHeader) -> (r: usize)
    ensures
        r == declared_body_len_of(*header),
        r <= MAX_MESSAGE_BODY_SIZE,
{
    if header.msg_type != MSG_TYPE_DATA {
        return 0;
    }
    let index: u64 = header.chunk_index as u64;
    assert(index * 4076 <= 0xffff_ffff * 4076) by (nonlinear_arith)
        requires
            index <= 0xffff_ffff,
    ;
    let start: u64 = index * MAX_MESSAGE_BODY_SIZE as u64;
    let total: u64 = header.total_size as u64;
    if start >= total {
        0
    } else if total - start > MAX_MESSAGE_BODY_SIZE as u64 {
        MAX_MESSAGE_BODY_SIZE
    } else {
        (total - start) as usize
    }
}

fn bytes_equal(a: &[u8], b: &[u8]) -> (r: bool)
    ensures
        r == (a@ == b@),
{
    if a.len() != b.len() {
        return false;
    }
    let mut i: usize = 0;
    while i < a.len()
        invariant
            a@.len() == b@.len(),
            i <= a@.len(),
            forall|j: int| 0 <= j < i ==> a@[j] == b@[j],
        decreases a@.len() - i,
    {
        if a[i] != b[i] {
            return false;
        }
        i = i + 1;
    }
    assert(a@ =~= b@);
    true
}

fn is_flag(command: &str, flag: &str) -> (r: bool)
    ensures
        r == (command@ == flag@),
{
    proof {
        vstd::utf8::encode_utf8_decode_utf8(command@);
        vstd::utf8::encode_utf8_decode_utf8(flag@);
    }
    bytes_equal(command.as_bytes(), flag.as_bytes())
}

/// Maps a command-line flag to the command code sent on START; 0 for an
/// unknown flag.
pub fn get_command_code(command: &str) -> (r: u8)
    ensures
        r == command_code_of(command@),
{
    if is_flag(command, SAVE) {
        SAVE_COMMAND
    } else if is_flag(command, DUMP) {
        DUMP_COMMAND
    } else if is_flag(command, SAVE_PROCESS) {
        SAVE_PROCESS_COMMAND
    } else if is_flag(command, DUMP_PROCESS) {
        DUMP_PROCESS_COMMAND
    } else {
        0
    }
}

} // verus!

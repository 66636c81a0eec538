use vstd::prelude::*;

verus! {

/// Largest frame that a single read may deliver: header plus largest body.
pub const MAX_MESSAGE_PACKET_SIZE: usize = 4096;

/// Length of the fixed frame header.
pub const MESSAGE_HEADER_SIZE: usize = 20;

/// Largest body that one DATA frame carries.
pub const MAX_MESSAGE_BODY_SIZE: usize = 4076;

/// The one protocol version this library speaks.
pub const PROTOCOL_VERSION: u8 = 1;

pub const MSG_TYPE_START: u8 = 0x01;
pub const MSG_TYPE_DATA: u8 = 0x02;
pub const MSG_TYPE_END: u8 = 0x03;
pub const MSG_TYPE_ACK: u8 = 0x04;
pub const MSG_TYPE_ERROR: u8 = 0x05;
pub const MSG_TYPE_ALL_END: u8 = 0x06;

/// Command codes carried in the reserved byte of a START frame.
pub const SAVE_COMMAND: u8 = 0x01;
pub const DUMP_COMMAND: u8 = 0x02;
pub const SAVE_PROCESS_COMMAND: u8 = 0x03;
pub const DUMP_PROCESS_COMMAND: u8 = 0x04;

/// The message id that a client session stamps on every frame it sends.
pub const CLIENT_MESSAGE_ID: u32 = 1;

} // verus!

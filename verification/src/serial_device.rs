//! What the device puts on the serial line: a payload under an opcode,
//! framed, and the echo for a letter typed at the other end.
//!
//! Nothing here touches the serial port. Each function gives the bytes
//! that are to be written to it.
use crate::base_protocol::{
    decode, frame_of, lemma_frame_layout, lemma_round_trip, BaseProtocolLayerError, MAX_DATA_SIZE,
};
use crate::base_protocol_handler::make_frame_from_slice;
use crate::opcode_protocol::{lemma_split_round_trip, split_opcode, OpCode, OPCODE_HEADER_SIZE};
use vstd::prelude::*;

verus! {

/// The longest inner payload that fits in a frame behind its opcode.
pub const MAX_MSG_SIZE: usize = MAX_DATA_SIZE - OPCODE_HEADER_SIZE;

/// The bytes that carry `data` under `opcode`: the frame around the
/// opcode's tag and the data. Nothing is sent for no data, nor for data
/// that is too long for a frame.
pub open spec fn serial_msg(data: Seq<u8>, opcode: OpCode) -> Option<Seq<u8>> {
    if data.len() == 0 || data.len() > MAX_MSG_SIZE {
        None
    } else {
        Some(frame_of(opcode.wire() + data))
    }
}

/// What a letter typed at the other end asks of the device.
#[derive(Debug, Clone, PartialEq, Eq)]
pub enum LetterAction {
    /// The line is done: send this echo, run the line, and clear it.
    Submit(Vec<u8>),
    /// A letter is rubbed out: send this echo.
    Erase(Vec<u8>),
    /// Nothing to send.
    Nothing,
}

/// The bytes to write to the serial port for `data` under `opcode`, or
/// `None` where nothing is to be written.
pub fn write_serial_msg(data: &[u8], opcode: OpCode) -> (msg: Option<Vec<u8>>)
    ensures
        match serial_msg(data@, opcode) {
            Some(bytes) => msg matches Some(m) && m@ == bytes,
            None => msg is None,
        },
{
    if data.len() == 0 || data.len() > MAX_MSG_SIZE {
        return None;
    }
    let tag = opcode.encode();
    let mut inner: Vec<u8> = Vec::new();
    inner.push(tag[0]);
    inner.push(tag[1]);
    let mut i: usize = 0;
    while i < data.len()
        invariant
            i <= data@.len(),
            inner@ == opcode.wire() + data@.take(i as int),
        decreases data@.len() - i,
    {
        inner.push(data[i]);
        assert(data@.take(i + 1) == data@.take(i as int).push(data@[i as int]));
        i += 1;
    }
    assert(data@.take(i as int) == data@);
    Some(make_frame_from_slice(inner.as_slice()))
}

/// What the letter `c` asks for when the command line holds
/// `com_line_len` letters.
///
/// A line feed ends the line and is answered with the letter `n`. A
/// backspace is answered with backspace, blank, backspace, but only
/// where there is something to rub out. Both answers go out as echo
/// messages. No other letter is answered.
pub fn handle_serial_letter(c: char, com_line_len: usize) -> (action: LetterAction)
    ensures
        c == '\n' ==> (action matches LetterAction::Submit(msg) && Some(msg@) == serial_msg(
            seq![0x6eu8],
            OpCode::ECHO,
        )),
        c == '\x08' && com_line_len > 0 ==> (action matches LetterAction::Erase(msg) && Some(msg@)
            == serial_msg(seq![0x08u8, 0x20u8, 0x08u8], OpCode::ECHO)),
        c == '\x08' && com_line_len == 0 ==> action is Nothing,
        c != '\n' && c != '\x08' ==> action is Nothing,
{
    if c == '\n' {
        let del: [u8; 1] = [0x6e];
        assert(del@ == seq![0x6eu8]);
        match write_serial_msg(del.as_slice(), OpCode::ECHO) {
            Some(msg) => LetterAction::Submit(msg),
            None => LetterAction::Nothing,
        }
    } else if c == '\x08' {
        if com_line_len > 0 {
            let del: [u8; 3] = [0x08, 0x20, 0x08];
            assert(del@ == seq![0x08u8, 0x20u8, 0x08u8]);
            match write_serial_msg(del.as_slice(), OpCode::ECHO) {
                Some(msg) => LetterAction::Erase(msg),
                None => LetterAction::Nothing,
            }
        } else {
            LetterAction::Nothing
        }
    } else {
        LetterAction::Nothing
    }
}

/// What the device sends is what the host reads: a message decodes to
/// one frame that takes all of its bytes, and that frame's payload
/// splits into the opcode and the data it was made from.
pub proof fn lemma_serial_msg_round_trip(data: Seq<u8>, opcode: OpCode)
    requires
        0 < data.len() <= MAX_MSG_SIZE,
    ensures
        serial_msg(data, opcode) matches Some(msg) && decode(msg) == Ok::<
            (Seq<u8>, nat),
            BaseProtocolLayerError,
        >((opcode.wire() + data, msg.len())) && split_opcode(opcode.wire() + data) == Some(
            (opcode, data),
        ),
{
    let inner = opcode.wire() + data;
    lemma_round_trip(inner);
    lemma_split_round_trip(opcode, data);
    lemma_frame_layout(inner);
}

} // verus!

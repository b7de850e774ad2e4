//! What the host does with what it reads: where a frame goes by its
//! opcode, when the reading loop stops, and what a key pressed at the
//! terminal turns into.
//!
//! Nothing here prints, logs or sends. Each function says what is to be
//! done, and the program around it does it.
use crate::base_protocol::frame_of;
use crate::base_protocol_handler::{make_frame_from_slice, Polled, ReaderState};
use crate::opcode_protocol::{split_opcode, OpCode, OPCODE_HEADER_SIZE};
use vstd::prelude::*;
use vstd::string::StringSliceAdditionalSpecFns;
use vstd::utf8::valid_utf8;

verus! {

/// What is to be done with the payload of one frame.
#[derive(Debug, Clone, Copy, PartialEq, Eq)]
pub enum FrameAction<'a> {
    /// Show this text as it is.
    Echo(&'a str),
    /// Hand these bytes to the log decoder.
    Log(&'a [u8]),
    /// Hold off sending for a while.
    Jam,
    /// Do nothing with it.
    Drop,
}

/// What the reading loop does after one read.
#[derive(Debug, Clone, Copy, PartialEq, Eq)]
pub enum LoopAction<'a> {
    /// A frame came: do this with it and go on.
    Handle(FrameAction<'a>),
    /// Nothing to do this time: go on.
    Continue,
    /// The source is gone: leave the loop.
    Stop,
}

/// What the loop does after one look at the terminal.
#[derive(Debug, Clone, PartialEq, Eq)]
pub enum TermAction {
    /// A key was pressed: send this frame and go on.
    Send(Vec<u8>),
    /// No key was pressed: go on.
    Continue,
    /// The terminal is gone: leave the loop.
    Stop,
}

/// `core::str::from_utf8` gives the bytes back as text where they are
/// valid UTF-8, and an error, here `None`, where they are not.
#[verifier::external_body]
fn text_of(data: &[u8]) -> (text: Option<&str>)
    ensures
        text is Some <==> valid_utf8(data@),
        text matches Some(t) ==> t.spec_bytes() == data@,
{
    core::str::from_utf8(data).ok()
}

/// The text to show for the payload of an echo frame, or `None` where
/// the payload is not valid UTF-8.
pub fn handle_echo_data(data: &[u8]) -> (text: Option<&str>)
    ensures
        text is Some <==> valid_utf8(data@),
        text matches Some(t) ==> t.spec_bytes() == data@,
{
    text_of(data)
}

/// Where the payload `data` of a frame goes by its opcode.
///
/// Echo payloads are shown if they are text and dropped if they are not.
/// Log payloads go to the log decoder. A jam asks the sender to hold off
/// and goes nowhere else. Everything else is dropped.
pub fn handle_new_frame<'a>(opcode: OpCode, data: &'a [u8]) -> (action: FrameAction<'a>)
    ensures
        match opcode {
            OpCode::ECHO => if valid_utf8(data@) {
                action matches FrameAction::Echo(text) && text.spec_bytes() == data@
            } else {
                action is Drop
            },
            OpCode::LOG => action matches FrameAction::Log(bytes) && bytes@ == data@,
            OpCode::JAM => action is Jam,
            OpCode::INVALID => action is Drop,
        },
{
    match opcode {
        OpCode::ECHO => match handle_echo_data(data) {
            Some(text) => FrameAction::Echo(text),
            None => FrameAction::Drop,
        },
        OpCode::LOG => FrameAction::Log(data),
        OpCode::JAM => FrameAction::Jam,
        OpCode::INVALID => FrameAction::Drop,
    }
}

/// What the reading loop does with what one read returned.
///
/// A frame is split into its opcode and the rest, and handled by the
/// opcode. The loop ends once the reader is broken; while it is
/// incomplete or cools down there is nothing to do. A frame has to hold
/// its opcode.
pub fn loop_logic<'a>(read: &'a Result<Vec<u8>, ReaderState>) -> (action: LoopAction<'a>)
    requires
        read matches Ok(frame) ==> frame@.len() >= OPCODE_HEADER_SIZE,
    ensures
        match *read {
            Ok(frame) => {
                &&& split_opcode(frame@) matches Some((opcode, data))
                &&& action matches LoopAction::Handle(handled)
                &&& match opcode {
                    OpCode::ECHO => if valid_utf8(data) {
                        handled matches FrameAction::Echo(text) && text.spec_bytes() == data
                    } else {
                        handled is Drop
                    },
                    OpCode::LOG => handled matches FrameAction::Log(bytes) && bytes@ == data,
                    OpCode::JAM => handled is Jam,
                    OpCode::INVALID => handled is Drop,
                }
            },
            Err(ReaderState::Broken) => action is Stop,
            Err(ReaderState::INVALID) => action is Continue,
            Err(ReaderState::INCOMPLETE) => action is Continue,
        },
{
    match read {
        Ok(frame) => match OpCode::from_slice(frame.as_slice()) {
            Some((opcode, data)) => LoopAction::Handle(handle_new_frame(opcode, data)),
            None => vstd::pervasive::unreached(),
        },
        Err(ReaderState::Broken) => LoopAction::Stop,
        Err(_) => LoopAction::Continue,
    }
}

/// What one look at the terminal leads to: a key that was pressed goes
/// out as the frame that carries its one byte.
pub fn handle_term(polled: Polled) -> (action: TermAction)
    ensures
        match polled {
            Polled::Byte(key) => action matches TermAction::Send(frame) && frame@ == frame_of(
                seq![key],
            ),
            Polled::Empty => action is Continue,
            Polled::Disconnected => action is Stop,
        },
{
    match polled {
        Polled::Byte(key) => {
            let payload: [u8; 1] = [key];
            assert(payload@ == seq![key]);
            TermAction::Send(make_frame_from_slice(payload.as_slice()))
        },
        Polled::Empty => TermAction::Continue,
        Polled::Disconnected => TermAction::Stop,
    }
}

} // verus!

use framelink::base_protocol_handler::{Polled, ReaderState};
use framelink::opcode_protocol::OpCode;
use framelink::printer::{
    handle_echo_data, handle_new_frame, handle_term, loop_logic, FrameAction, LoopAction,
    TermAction,
};

#[test]
fn echo_of_text_is_shown() {
    assert_eq!(handle_new_frame(OpCode::ECHO, b"hello"), FrameAction::Echo("hello"));
    assert_eq!(handle_new_frame(OpCode::ECHO, b""), FrameAction::Echo(""));
    assert_eq!(
        handle_new_frame(OpCode::ECHO, "gr\u{fc}\u{df}e".as_bytes()),
        FrameAction::Echo("gr\u{fc}\u{df}e")
    );
}

#[test]
fn echo_of_bad_text_is_dropped() {
    assert_eq!(handle_new_frame(OpCode::ECHO, &[0x68, 0xFF, 0x69]), FrameAction::Drop);
    assert_eq!(handle_new_frame(OpCode::ECHO, &[0xC3]), FrameAction::Drop);
    assert_eq!(handle_new_frame(OpCode::ECHO, &[0xED, 0xA0, 0x80]), FrameAction::Drop);
}

#[test]
fn echo_data_is_text_or_nothing() {
    assert_eq!(handle_echo_data(b"abc"), Some("abc"));
    assert_eq!(handle_echo_data(&[0x80]), None);
}

#[test]
fn log_goes_to_the_decoder_as_it_is() {
    assert_eq!(handle_new_frame(OpCode::LOG, &[0x99]), FrameAction::Log(&[0x99]));
    assert_eq!(handle_new_frame(OpCode::LOG, &[0xFF, 0x00]), FrameAction::Log(&[0xFF, 0x00]));
}

#[test]
fn jam_goes_nowhere_else() {
    assert_eq!(handle_new_frame(OpCode::JAM, b"text"), FrameAction::Jam);
    assert_eq!(handle_new_frame(OpCode::JAM, &[]), FrameAction::Jam);
}

#[test]
fn invalid_is_dropped() {
    assert_eq!(handle_new_frame(OpCode::INVALID, b"text"), FrameAction::Drop);
}

#[test]
fn loop_handles_a_frame_by_its_opcode() {
    let read = Ok(vec![0x02, 0x00, 0x99]);
    assert_eq!(loop_logic(&read), LoopAction::Handle(FrameAction::Log(&[0x99])));
    let read = Ok(vec![0x01, 0x00, b'o', b'k']);
    assert_eq!(loop_logic(&read), LoopAction::Handle(FrameAction::Echo("ok")));
    let read = Ok(vec![0xFF, 0xFF]);
    assert_eq!(loop_logic(&read), LoopAction::Handle(FrameAction::Jam));
    let read = Ok(vec![0x07, 0x00, 1, 2]);
    assert_eq!(loop_logic(&read), LoopAction::Handle(FrameAction::Drop));
}

#[test]
fn loop_stops_only_when_the_reader_is_broken() {
    assert_eq!(loop_logic(&Err(ReaderState::Broken)), LoopAction::Stop);
    assert_eq!(loop_logic(&Err(ReaderState::INVALID)), LoopAction::Continue);
    assert_eq!(loop_logic(&Err(ReaderState::INCOMPLETE)), LoopAction::Continue);
}

#[test]
fn key_goes_out_as_a_frame_of_one_byte() {
    assert_eq!(
        handle_term(Polled::Byte(b'x')),
        TermAction::Send(vec![0xAB, 0xCD, 0, 0, 0, 1, b'x', 0x12, 0x34])
    );
}

#[test]
fn no_key_and_no_terminal() {
    assert_eq!(handle_term(Polled::Empty), TermAction::Continue);
    assert_eq!(handle_term(Polled::Disconnected), TermAction::Stop);
}

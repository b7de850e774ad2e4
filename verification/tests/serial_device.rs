use framelink::base_protocol::BaseProtocolLayer;
use framelink::opcode_protocol::OpCode;
use framelink::serial_device::{handle_serial_letter, write_serial_msg, LetterAction, MAX_MSG_SIZE};

#[test]
fn log_message_is_a_frame_around_tag_and_data() {
    assert_eq!(
        write_serial_msg(&[0x99], OpCode::LOG),
        Some(vec![0xAB, 0xCD, 0, 0, 0, 3, 0x02, 0x00, 0x99, 0x12, 0x34])
    );
}

#[test]
fn jam_message_carries_the_jam_tag() {
    assert_eq!(
        write_serial_msg(&[1, 2], OpCode::JAM),
        Some(vec![0xAB, 0xCD, 0, 0, 0, 4, 0xFF, 0xFF, 1, 2, 0x12, 0x34])
    );
}

#[test]
fn nothing_is_sent_for_no_data() {
    assert_eq!(write_serial_msg(&[], OpCode::ECHO), None);
}

#[test]
fn nothing_is_sent_for_data_that_does_not_fit() {
    assert_eq!(MAX_MSG_SIZE, 1014);
    assert_eq!(write_serial_msg(&vec![0u8; 1015], OpCode::LOG), None);
    let longest = write_serial_msg(&vec![7u8; 1014], OpCode::LOG).unwrap();
    assert_eq!(longest.len(), 1024);
}

#[test]
fn message_reads_back_as_opcode_and_data() {
    let data: Vec<u8> = (0..300).map(|i| (i % 256) as u8).collect();
    let msg = write_serial_msg(&data, OpCode::ECHO).unwrap();
    let (payload, consumed) = BaseProtocolLayer::from_slice(&msg).unwrap();
    assert_eq!(consumed, msg.len());
    assert_eq!(OpCode::from_slice(payload), Some((OpCode::ECHO, data.as_slice())));
}

#[test]
fn line_feed_submits_the_line() {
    let echo = vec![0xAB, 0xCD, 0, 0, 0, 3, 0x01, 0x00, b'n', 0x12, 0x34];
    assert_eq!(handle_serial_letter('\n', 0), LetterAction::Submit(echo.clone()));
    assert_eq!(handle_serial_letter('\n', 12), LetterAction::Submit(echo));
}

#[test]
fn backspace_rubs_out_where_there_is_a_letter() {
    let echo = vec![0xAB, 0xCD, 0, 0, 0, 5, 0x01, 0x00, 0x08, b' ', 0x08, 0x12, 0x34];
    assert_eq!(handle_serial_letter('\x08', 1), LetterAction::Erase(echo));
    assert_eq!(handle_serial_letter('\x08', 0), LetterAction::Nothing);
}

#[test]
fn other_letters_are_not_answered() {
    assert_eq!(handle_serial_letter('a', 3), LetterAction::Nothing);
    assert_eq!(handle_serial_letter('\r', 3), LetterAction::Nothing);
    assert_eq!(handle_serial_letter(' ', 0), LetterAction::Nothing);
}

use critical_section::RestoreState;
use framelink::glob_log::{log_read, GlobLog};

fn log_frame(log: &mut GlobLog, bytes: &[u8]) {
    log.acquire(RestoreState::invalid());
    log.write(bytes);
    log.release();
}

fn read_all(log: &mut GlobLog) -> Vec<Vec<u8>> {
    let mut frames = Vec::new();
    loop {
        match log_read(log) {
            Some(frame) => frames.push(frame.as_slice().to_vec()),
            None => return frames,
        }
    }
}

#[test]
fn new_logger_has_nothing_to_send() {
    let mut log = GlobLog::new();
    assert!(!log.has_frames());
    assert!(log_read(&mut log).is_none());
}

#[test]
fn first_log_frame_is_encoded_behind_a_separator() {
    let mut log = GlobLog::new();
    log_frame(&mut log, &[1, 2, 3]);
    assert!(log.has_frames());
    assert_eq!(read_all(&mut log), vec![vec![0x00, 1, 2, 3, 0x78, 0x00]]);
    assert!(!log.has_frames());
}

#[test]
fn later_log_frames_have_no_separator_in_front() {
    let mut log = GlobLog::new();
    log_frame(&mut log, &[1, 2, 3]);
    log_frame(&mut log, &[4, 5]);
    log_frame(&mut log, &[6]);
    assert_eq!(
        read_all(&mut log),
        vec![vec![0x00, 1, 2, 3, 0x78, 0x00], vec![4, 5, 0x7C, 0x00], vec![6, 0x7E, 0x00]]
    );
}

#[test]
fn zero_bytes_are_packed_by_the_encoder() {
    let mut log = GlobLog::new();
    log_frame(&mut log, &[9]);
    read_all(&mut log);
    log_frame(&mut log, &[0, 7, 0]);
    assert_eq!(read_all(&mut log), vec![vec![7, 0x7D, 0x00]]);
}

#[test]
fn log_frame_written_in_pieces_is_one_frame() {
    let mut log = GlobLog::new();
    log_frame(&mut log, &[9]);
    read_all(&mut log);
    log.acquire(RestoreState::invalid());
    log.write(&[4]);
    log.write(&[]);
    log.write(&[5]);
    log.flush();
    log.release();
    assert_eq!(read_all(&mut log), vec![vec![4, 5, 0x7C, 0x00]]);
}

#[test]
fn log_frames_come_out_in_the_order_they_were_logged() {
    let mut log = GlobLog::new();
    for i in 1..=20u8 {
        log_frame(&mut log, &[i, i]);
    }
    let frames = read_all(&mut log);
    assert_eq!(frames.len(), 20);
    assert_eq!(frames[0], vec![0x00, 1, 1, 0x7C, 0x00]);
    for i in 1..20usize {
        assert_eq!(frames[i], vec![i as u8 + 1, i as u8 + 1, 0x7C, 0x00]);
    }
}

#[test]
fn log_frame_that_outgrows_the_buffer_is_dropped() {
    let mut log = GlobLog::new();
    log_frame(&mut log, &[1]);
    log_frame(&mut log, &vec![0x11u8; 2000]);
    log_frame(&mut log, &[2]);
    assert_eq!(read_all(&mut log), vec![vec![0x00, 1, 0x7E, 0x00], vec![2, 0x7E, 0x00]]);
}

#[test]
fn full_logger_drops_the_newest_log_frames() {
    let mut log = GlobLog::new();
    for i in 0..70u8 {
        log_frame(&mut log, &[i + 1]);
    }
    let frames = read_all(&mut log);
    assert_eq!(frames.len(), 50);
    assert_eq!(frames[0], vec![0x00, 1, 0x7E, 0x00]);
    for i in 1..50usize {
        assert_eq!(frames[i], vec![i as u8 + 1, 0x7E, 0x00]);
    }
}

#[test]
fn logger_hands_back_the_state_it_was_given() {
    let mut log = GlobLog::new();
    let state = critical_section::with(|_| RestoreState::invalid());
    log.acquire(state);
    log.write(&[1]);
    let back = log.release();
    assert_eq!(format!("{:?}", back), format!("{:?}", state));
}

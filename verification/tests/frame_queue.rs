use critical_section::RestoreState;
use framelink::frame_queue::{FrameQueue, FRAME_CAPACITY, QUEUE_CAPACITY};

fn log_frame(log: &mut FrameQueue, bytes: &[u8]) {
    log.acquire(RestoreState::invalid());
    log.write(bytes);
    log.release();
}

fn frame_of_index(i: usize) -> Vec<u8> {
    vec![(i % 256) as u8, (i / 256) as u8, 0xA5]
}

fn drain_all(log: &mut FrameQueue) -> Vec<Vec<u8>> {
    let mut frames = Vec::new();
    loop {
        match log.drain() {
            Some(frame) => frames.push(frame.as_slice().to_vec()),
            None => return frames,
        }
    }
}

#[test]
fn capacities_are_as_documented() {
    assert_eq!(FRAME_CAPACITY, 1024);
    assert_eq!(QUEUE_CAPACITY, 50);
}

#[test]
fn new_queue_is_empty() {
    let mut log = FrameQueue::new();
    assert!(!log.has_frames());
    assert!(log.drain().is_none());
}

#[test]
fn one_frame_goes_in_and_comes_out() {
    let mut log = FrameQueue::new();
    log_frame(&mut log, &[1, 2, 3]);
    assert!(log.has_frames());
    let frame = log.drain().unwrap();
    assert_eq!(frame.as_slice(), &[1, 2, 3]);
    assert!(!log.has_frames());
    assert!(log.drain().is_none());
}

#[test]
fn three_frames_come_out_in_the_order_they_went_in() {
    let mut log = FrameQueue::new();
    log_frame(&mut log, &[0xF1]);
    log_frame(&mut log, &[0xF2, 0xF2]);
    log_frame(&mut log, &[0xF3, 0xF3, 0xF3]);
    assert_eq!(log.drain().unwrap().as_slice(), &[0xF1]);
    assert!(log.has_frames());
    assert_eq!(log.drain().unwrap().as_slice(), &[0xF2, 0xF2]);
    assert_eq!(log.drain().unwrap().as_slice(), &[0xF3, 0xF3, 0xF3]);
    assert!(!log.has_frames());
    assert!(log.drain().is_none());
}

#[test]
fn frame_written_in_pieces_is_one_frame() {
    let mut log = FrameQueue::new();
    log.acquire(RestoreState::invalid());
    log.write(&[1, 2]);
    log.write(&[]);
    log.write(&[3]);
    log.write(&[4, 5, 6]);
    log.release();
    assert_eq!(drain_all(&mut log), vec![vec![1, 2, 3, 4, 5, 6]]);
}

#[test]
fn empty_frame_is_queued() {
    let mut log = FrameQueue::new();
    log.acquire(RestoreState::invalid());
    log.release();
    assert!(log.has_frames());
    assert_eq!(drain_all(&mut log), vec![Vec::<u8>::new()]);
}

#[test]
fn acquire_forgets_the_frame_before() {
    let mut log = FrameQueue::new();
    log.acquire(RestoreState::invalid());
    log.write(&[9, 9, 9]);
    log.acquire(RestoreState::invalid());
    log.write(&[1]);
    log.release();
    assert_eq!(drain_all(&mut log), vec![vec![1]]);
}

#[test]
fn frame_that_fills_the_buffer_is_queued() {
    let mut log = FrameQueue::new();
    let bytes = vec![0x5Au8; 1024];
    log_frame(&mut log, &bytes);
    assert_eq!(drain_all(&mut log), vec![bytes]);
}

#[test]
fn frame_that_outgrows_the_buffer_is_dropped() {
    let mut log = FrameQueue::new();
    log_frame(&mut log, &vec![0x5Au8; 1025]);
    assert!(!log.has_frames());
    assert!(log.drain().is_none());
}

#[test]
fn write_past_the_buffer_spoils_the_rest_of_the_frame() {
    let mut log = FrameQueue::new();
    log.acquire(RestoreState::invalid());
    log.write(&vec![1u8; 1000]);
    log.write(&vec![2u8; 25]);
    log.write(&[3]);
    log.release();
    assert!(!log.has_frames());
    assert!(log.drain().is_none());
}

#[test]
fn spoilt_frame_leaves_the_queue_as_it_was() {
    let mut log = FrameQueue::new();
    log_frame(&mut log, &[1]);
    log_frame(&mut log, &vec![0u8; 2000]);
    log_frame(&mut log, &[2]);
    assert_eq!(drain_all(&mut log), vec![vec![1], vec![2]]);
}

#[test]
fn write_without_a_frame_is_dropped() {
    let mut log = FrameQueue::new();
    log.write(&[1, 2, 3]);
    log.release();
    assert!(!log.has_frames());
}

#[test]
fn full_queue_keeps_the_oldest_frames() {
    let mut log = FrameQueue::new();
    for i in 0..60 {
        log_frame(&mut log, &frame_of_index(i));
    }
    let frames = drain_all(&mut log);
    assert_eq!(frames.len(), 50);
    for (i, frame) in frames.iter().enumerate() {
        assert_eq!(*frame, frame_of_index(i));
    }
}

#[test]
fn exactly_as_many_frames_as_fit_are_all_kept() {
    let mut log = FrameQueue::new();
    for i in 0..50 {
        log_frame(&mut log, &frame_of_index(i));
    }
    let frames = drain_all(&mut log);
    assert_eq!(frames.len(), 50);
    assert_eq!(frames[0], frame_of_index(0));
    assert_eq!(frames[49], frame_of_index(49));
}

#[test]
fn queue_takes_frames_again_after_a_take() {
    let mut log = FrameQueue::new();
    for i in 0..50 {
        log_frame(&mut log, &frame_of_index(i));
    }
    log_frame(&mut log, &[0xEE]);
    assert_eq!(log.drain().unwrap().as_slice(), frame_of_index(0).as_slice());
    log_frame(&mut log, &[0xDD]);
    let frames = drain_all(&mut log);
    assert_eq!(frames.len(), 50);
    assert_eq!(frames[0], frame_of_index(1));
    assert_eq!(frames[48], frame_of_index(49));
    assert_eq!(frames[49], vec![0xDD]);
}

#[test]
fn queue_wraps_around_many_times() {
    let mut log = FrameQueue::new();
    for i in 0..500 {
        log_frame(&mut log, &frame_of_index(i));
        log_frame(&mut log, &frame_of_index(i + 1000));
        assert_eq!(log.drain().unwrap().as_slice(), frame_of_index(i).as_slice());
        assert_eq!(log.drain().unwrap().as_slice(), frame_of_index(i + 1000).as_slice());
        assert!(!log.has_frames());
    }
}

#[test]
fn release_hands_back_the_state_it_was_given() {
    let mut log = FrameQueue::new();
    let state = critical_section::with(|_| RestoreState::invalid());
    log.acquire(state);
    log.write(&[1]);
    let back = log.release();
    assert_eq!(format!("{:?}", back), format!("{:?}", state));
}

//! Finished frames queued for sending, on a device that must not wait.
//!
//! A producer that runs with interrupts masked writes one frame at a time
//! into a buffer. When the frame is finished it is copied into a queue of
//! fixed size, from which the sending loop takes frames in the order they
//! came. Nothing here waits or allocates: a frame that outgrows the buffer
//! is given up, and a frame that finds the queue full is dropped.
use vstd::prelude::*;

verus! {

/// The most bytes one frame in the making can hold.
pub const FRAME_CAPACITY: usize = 1024;

/// The most finished frames that wait for the sending loop.
pub const QUEUE_CAPACITY: usize = 50;

/// A buffer of bytes with a fixed capacity, `heapless::Vec`.
#[verifier::external_type_specification]
#[verifier::external_body]
#[verifier::reject_recursive_types(T)]
pub struct ExHeaplessVec<T, const N: usize>(heapless::Vec<T, N>);

/// A queue with a fixed capacity, `heapless::Deque`.
#[verifier::external_type_specification]
#[verifier::external_body]
#[verifier::reject_recursive_types(T)]
pub struct ExHeaplessDeque<T, const N: usize>(heapless::Deque<T, N>);

/// The state that `critical_section::acquire` hands out and
/// `critical_section::release` takes back.
#[verifier::external_type_specification]
#[verifier::external_body]
pub struct ExRestoreState(critical_section::RestoreState);

/// The bytes that a frame buffer holds, first to last.
pub uninterp spec fn frame_bytes(frame: heapless::Vec<u8, 1024>) -> Seq<u8>;

/// The frames that wait in a queue, oldest first, each as its bytes.
pub uninterp spec fn queued_frames(queue: heapless::Deque<heapless::Vec<u8, 1024>, 50>) -> Seq<
    Seq<u8>,
>;

/// `heapless::Vec::new` makes a buffer that holds nothing.
#[verifier::external_body]
fn frame_new() -> (frame: heapless::Vec<u8, 1024>)
    ensures
        frame_bytes(frame) == Seq::<u8>::empty(),
{
    heapless::Vec::new()
}

/// `heapless::Vec::clear` removes every byte.
#[verifier::external_body]
fn frame_clear(frame: &mut heapless::Vec<u8, 1024>)
    ensures
        frame_bytes(*final(frame)) == Seq::<u8>::empty(),
{
    frame.clear()
}

/// `heapless::Vec::push` appends the byte where the buffer holds fewer
/// bytes than its capacity, and otherwise leaves the buffer as it is and
/// hands the byte back.
#[verifier::external_body]
fn frame_push(frame: &mut heapless::Vec<u8, 1024>, byte: u8) -> (rejected: Option<u8>)
    ensures
        rejected is None <==> frame_bytes(*old(frame)).len() < FRAME_CAPACITY,
        rejected is None ==> frame_bytes(*final(frame)) == frame_bytes(*old(frame)).push(byte),
        rejected is Some ==> frame_bytes(*final(frame)) == frame_bytes(*old(frame)),
        rejected is Some ==> rejected == Some(byte),
{
    frame.push(byte).err()
}

/// `Clone::clone` of a `heapless::Vec` makes a buffer with the same
/// bytes in the same order.
#[verifier::external_body]
fn frame_clone(frame: &heapless::Vec<u8, 1024>) -> (copy: heapless::Vec<u8, 1024>)
    ensures
        frame_bytes(copy) == frame_bytes(*frame),
{
    frame.clone()
}

/// `heapless::Deque::new` makes a queue that holds nothing.
#[verifier::external_body]
fn queue_new() -> (queue: heapless::Deque<heapless::Vec<u8, 1024>, 50>)
    ensures
        queued_frames(queue) == Seq::<Seq<u8>>::empty(),
{
    heapless::Deque::new()
}

/// `heapless::Deque::push_back` puts the frame behind all others where
/// the queue holds fewer frames than its capacity, and otherwise leaves
/// the queue as it is and hands the frame back.
#[verifier::external_body]
fn queue_push_back(
    queue: &mut heapless::Deque<heapless::Vec<u8, 1024>, 50>,
    frame: heapless::Vec<u8, 1024>,
) -> (rejected: Option<heapless::Vec<u8, 1024>>)
    ensures
        rejected is None <==> queued_frames(*old(queue)).len() < QUEUE_CAPACITY,
        rejected is None ==> queued_frames(*final(queue)) == queued_frames(*old(queue)).push(
            frame_bytes(frame),
        ),
        rejected is Some ==> queued_frames(*final(queue)) == queued_frames(*old(queue)),
        rejected matches Some(back) ==> frame_bytes(back) == frame_bytes(frame),
{
    queue.push_back(frame).err()
}

/// `heapless::Deque::pop_front` takes out the oldest frame, or gives
/// `None` and changes nothing where the queue is empty.
#[verifier::external_body]
fn queue_pop_front(queue: &mut heapless::Deque<heapless::Vec<u8, 1024>, 50>) -> (front: Option<
    heapless::Vec<u8, 1024>,
>)
    ensures
        front is None <==> queued_frames(*old(queue)).len() == 0,
        front is None ==> queued_frames(*final(queue)) == queued_frames(*old(queue)),
        front matches Some(frame) ==> frame_bytes(frame) == queued_frames(*old(queue))[0]
            && queued_frames(*final(queue)) == queued_frames(*old(queue)).drop_first(),
{
    queue.pop_front()
}

/// `heapless::Deque::is_empty` tells whether the queue holds no frame.
#[verifier::external_body]
fn queue_is_empty(queue: &heapless::Deque<heapless::Vec<u8, 1024>, 50>) -> (empty: bool)
    ensures
        empty <==> queued_frames(*queue).len() == 0,
{
    queue.is_empty()
}

/// `critical_section::RestoreState::invalid` makes a placeholder state
/// that stands for no critical section. Nothing is claimed of it.
#[verifier::external_body]
fn restore_state_invalid() -> (state: critical_section::RestoreState) {
    critical_section::RestoreState::invalid()
}

/// Whether the frame in the making is still whole.
#[allow(non_camel_case_types)]
#[derive(Debug, Clone, Copy, PartialEq, Eq, Structural)]
pub enum FrameState {
    /// Every byte written so far is in the buffer.
    VALID,
    /// A byte did not fit, or no frame has been started.
    INVALID,
}

/// A frame queue as a plain value.
pub struct FrameQueueView {
    /// Whether the frame in the making is still whole.
    pub frame_state: FrameState,
    /// The bytes of the frame in the making.
    pub current_frame: Seq<u8>,
    /// The finished frames that wait, oldest first.
    pub queue: Seq<Seq<u8>>,
    /// What the critical section around the frame in the making is to be
    /// left with.
    pub restore_state: critical_section::RestoreState,
}

impl FrameQueueView {
    /// What every frame queue keeps true: nothing is over its capacity.
    pub open spec fn well_formed(self) -> bool {
        &&& self.current_frame.len() <= FRAME_CAPACITY
        &&& self.queue.len() <= QUEUE_CAPACITY
        &&& forall|i: int| 0 <= i < self.queue.len() ==> (#[trigger] self.queue[i]).len()
            <= FRAME_CAPACITY
    }

    /// Starts a frame: the buffer is emptied and marked whole, and the
    /// state of the critical section is kept for the end of the frame.
    pub open spec fn acquire(
        self,
        restore_state: critical_section::RestoreState,
    ) -> FrameQueueView {
        FrameQueueView {
            frame_state: FrameState::VALID,
            current_frame: Seq::empty(),
            restore_state,
            ..self
        }
    }

    /// Adds bytes to the frame in the making. Bytes that do not fit fill
    /// the buffer up and spoil the frame; a spoilt frame takes no more.
    pub open spec fn write(self, bytes: Seq<u8>) -> FrameQueueView {
        match self.frame_state {
            FrameState::VALID => if self.current_frame.len() + bytes.len() <= FRAME_CAPACITY {
                FrameQueueView { current_frame: self.current_frame + bytes, ..self }
            } else {
                FrameQueueView {
                    frame_state: FrameState::INVALID,
                    current_frame: self.current_frame + bytes.take(
                        FRAME_CAPACITY - self.current_frame.len(),
                    ),
                    ..self
                }
            },
            FrameState::INVALID => self,
        }
    }

    /// Ends a frame: a whole frame goes to the back of the queue if there
    /// is room for it; a spoilt frame, or one that finds the queue full,
    /// goes nowhere.
    pub open spec fn release(self) -> FrameQueueView {
        if self.frame_state == FrameState::VALID && self.queue.len() < QUEUE_CAPACITY {
            FrameQueueView { queue: self.queue.push(self.current_frame), ..self }
        } else {
            self
        }
    }

    /// Takes the oldest frame out of the queue, if there is one.
    pub open spec fn drain(self) -> (FrameQueueView, Option<Seq<u8>>) {
        if self.queue.len() > 0 {
            (FrameQueueView { queue: self.queue.drop_first(), ..self }, Some(self.queue[0]))
        } else {
            (self, None)
        }
    }

    /// Adds one piece of bytes after the other to the frame in the making.
    pub open spec fn write_all(self, pieces: Seq<Seq<u8>>) -> FrameQueueView
        decreases pieces.len(),
    {
        if pieces.len() == 0 {
            self
        } else {
            self.write(pieces[0]).write_all(pieces.drop_first())
        }
    }

    /// One frame from start to end, written in the given pieces.
    pub open spec fn cycle(
        self,
        restore_state: critical_section::RestoreState,
        pieces: Seq<Seq<u8>>,
    ) -> FrameQueueView {
        self.acquire(restore_state).write_all(pieces).release()
    }

    /// One frame after the other from start to end, each written in one
    /// piece.
    pub open spec fn log_all(
        self,
        restore_state: critical_section::RestoreState,
        frames: Seq<Seq<u8>>,
    ) -> FrameQueueView
        decreases frames.len(),
    {
        if frames.len() == 0 {
            self
        } else {
            self.cycle(restore_state, seq![frames[0]]).log_all(restore_state, frames.drop_first())
        }
    }

    /// Takes frames out of the queue `times` times: the queue afterwards
    /// and the frames that came out, in the order they came.
    pub open spec fn drain_many(self, times: nat) -> (FrameQueueView, Seq<Seq<u8>>)
        decreases times,
    {
        if times == 0 {
            (self, Seq::empty())
        } else {
            let (after, front) = self.drain();
            let (last, rest) = after.drain_many((times - 1) as nat);
            match front {
                Some(frame) => (last, seq![frame] + rest),
                None => (last, rest),
            }
        }
    }
}

/// All the pieces one after the other.
pub open spec fn joined(pieces: Seq<Seq<u8>>) -> Seq<u8>
    decreases pieces.len(),
{
    if pieces.len() == 0 {
        Seq::empty()
    } else {
        pieces[0] + joined(pieces.drop_first())
    }
}

/// What `log_read` hands out, as bytes.
pub open spec fn frame_view(frame: Option<heapless::Vec<u8, 1024>>) -> Option<Seq<u8>> {
    match frame {
        Some(frame) => Some(frame_bytes(frame)),
        None => None,
    }
}

/// The frame in the making, the finished frames that wait to be sent, and
/// the critical section the logger is in.
#[derive(Debug)]
pub struct FrameQueue {
    frame_state: FrameState,
    current_frame: heapless::Vec<u8, 1024>,
    deque: heapless::Deque<heapless::Vec<u8, 1024>, 50>,
    deque_state: bool,
    restore_state: critical_section::RestoreState,
}

impl View for FrameQueue {
    type V = FrameQueueView;

    closed spec fn view(&self) -> FrameQueueView {
        FrameQueueView {
            frame_state: self.frame_state,
            current_frame: frame_bytes(self.current_frame),
            queue: queued_frames(self.deque),
            restore_state: self.restore_state,
        }
    }
}

impl FrameQueue {
    /// Holds of every value this type's functions hand out.
    pub closed spec fn wf(&self) -> bool {
        &&& self@.well_formed()
        &&& self.deque_state == (self@.queue.len() > 0)
    }

    /// A frame queue that holds nothing, with no frame started.
    pub fn new() -> (log: Self)
        ensures
            log.wf(),
            log@.frame_state == FrameState::INVALID,
            log@.current_frame == Seq::<u8>::empty(),
            log@.queue == Seq::<Seq<u8>>::empty(),
    {
        FrameQueue {
            frame_state: FrameState::INVALID,
            current_frame: frame_new(),
            deque: queue_new(),
            deque_state: false,
            restore_state: restore_state_invalid(),
        }
    }

    /// Whether a finished frame waits to be sent.
    pub fn has_frames(&self) -> (waiting: bool)
        requires
            self.wf(),
        ensures
            waiting == (self@.queue.len() > 0),
    {
        self.deque_state
    }

    /// Starts a frame. `restore_state` is what entering the critical
    /// section gave; [`FrameQueue::release`] hands it back.
    pub fn acquire(&mut self, restore_state: critical_section::RestoreState)
        requires
            old(self).wf(),
        ensures
            final(self).wf(),
            final(self)@ == old(self)@.acquire(restore_state),
    {
        self.restore_state = restore_state;
        frame_clear(&mut self.current_frame);
        self.frame_state = FrameState::VALID;
    }

    /// Adds `bytes` to the frame in the making.
    pub fn write(&mut self, bytes: &[u8])
        requires
            old(self).wf(),
        ensures
            final(self).wf(),
            final(self)@ == old(self)@.write(bytes@),
    {
        match self.frame_state {
            FrameState::VALID => {
                let mut i: usize = 0;
                while i < bytes.len()
                    invariant
                        i <= bytes@.len(),
                        self.wf(),
                        old(self)@.frame_state == FrameState::VALID,
                        self@.frame_state == FrameState::VALID,
                        self@.current_frame == old(self)@.current_frame + bytes@.take(i as int),
                        self@.queue == old(self)@.queue,
                        self@.restore_state == old(self)@.restore_state,
                    decreases bytes@.len() - i,
                {
                    match frame_push(&mut self.current_frame, bytes[i]) {
                        None => {
                            assert(bytes@.take(i + 1) == bytes@.take(i as int).push(
                                bytes@[i as int],
                            ));
                        },
                        Some(_) => {
                            self.frame_state = FrameState::INVALID;
                            assert(i == FRAME_CAPACITY - old(self)@.current_frame.len());
                            return ;
                        },
                    }
                    i += 1;
                }
                assert(bytes@.take(i as int) == bytes@);
            },
            FrameState::INVALID => {},
        }
    }

    /// Ends a frame and hands back what the critical section is to be
    /// left with.
    pub fn release(&mut self) -> (restore_state: critical_section::RestoreState)
        requires
            old(self).wf(),
        ensures
            final(self).wf(),
            final(self)@ == old(self)@.release(),
            restore_state == old(self)@.restore_state,
    {
        match self.frame_state {
            FrameState::VALID => {
                let copy = frame_clone(&self.current_frame);
                match queue_push_back(&mut self.deque, copy) {
                    None => {
                        self.deque_state = true;
                    },
                    Some(_) => {},
                }
            },
            FrameState::INVALID => {},
        }
        self.restore_state
    }

    /// Takes the oldest frame out of the queue, if there is one.
    pub fn drain(&mut self) -> (frame: Option<heapless::Vec<u8, 1024>>)
        requires
            old(self).wf(),
        ensures
            final(self).wf(),
            (final(self)@, frame_view(frame)) == old(self)@.drain(),
    {
        let frame = queue_pop_front(&mut self.deque);
        if queue_is_empty(&self.deque) {
            self.deque_state = false;
        }
        frame
    }
}

/// Writing pieces of bytes touches the frame in the making only: the
/// queue and the state of the critical section stay, and so does a
/// frame that is spoilt.
pub proof fn lemma_write_all_keeps_queue(log: FrameQueueView, pieces: Seq<Seq<u8>>)
    ensures
        log.write_all(pieces).queue == log.queue,
        log.write_all(pieces).restore_state == log.restore_state,
        log.frame_state == FrameState::INVALID ==> log.write_all(pieces) == log,
    decreases pieces.len(),
{
    if pieces.len() > 0 {
        lemma_write_all_keeps_queue(log.write(pieces[0]), pieces.drop_first());
    }
}

/// A frame that is written in several runs of pieces is the frame that
/// is written in all the pieces at once.
pub proof fn lemma_cycle_in_runs(
    log: FrameQueueView,
    restore_state: critical_section::RestoreState,
    first: Seq<Seq<u8>>,
    second: Seq<Seq<u8>>,
    third: Seq<Seq<u8>>,
)
    ensures
        log.acquire(restore_state).write_all(first).write_all(second).write_all(third).release()
            == log.cycle(restore_state, first + second + third),
{
    let started = log.acquire(restore_state);
    lemma_write_all_append(started, first, second);
    lemma_write_all_append(started, first + second, third);
}

/// Pieces written in two runs are written as in one run.
pub proof fn lemma_write_all_append(
    log: FrameQueueView,
    first: Seq<Seq<u8>>,
    second: Seq<Seq<u8>>,
)
    ensures
        log.write_all(first).write_all(second) == log.write_all(first + second),
    decreases first.len(),
{
    if first.len() == 0 {
        assert(first + second =~= second);
    } else {
        lemma_write_all_append(log.write(first[0]), first.drop_first(), second);
        assert((first + second).drop_first() =~= first.drop_first() + second);
    }
}

/// The frames that are in a queue after `frames` were offered to it one
/// by one: what was there and, of the new ones, the first that fit.
pub open spec fn kept(queue: Seq<Seq<u8>>, frames: Seq<Seq<u8>>) -> Seq<Seq<u8>> {
    if queue.len() + frames.len() <= QUEUE_CAPACITY {
        queue + frames
    } else {
        (queue + frames).take(QUEUE_CAPACITY as int)
    }
}

/// What writing a frame in pieces comes to: all the pieces one after the
/// other where they fit in the buffer together, and a spoilt frame where
/// they do not. The queue is not touched.
pub proof fn lemma_write_all(log: FrameQueueView, pieces: Seq<Seq<u8>>)
    requires
        log.frame_state == FrameState::VALID,
        log.current_frame.len() <= FRAME_CAPACITY,
    ensures
        log.current_frame.len() + joined(pieces).len() <= FRAME_CAPACITY ==> log.write_all(pieces)
            == (FrameQueueView { current_frame: log.current_frame + joined(pieces), ..log }),
        log.current_frame.len() + joined(pieces).len() > FRAME_CAPACITY ==> log.write_all(
            pieces,
        ).frame_state == FrameState::INVALID,
        log.write_all(pieces).queue == log.queue,
        log.write_all(pieces).restore_state == log.restore_state,
    decreases pieces.len(),
{
    if pieces.len() == 0 {
        assert(log.current_frame + joined(pieces) =~= log.current_frame);
    } else {
        let next = log.write(pieces[0]);
        let rest = pieces.drop_first();
        if next.frame_state == FrameState::VALID {
            lemma_write_all(next, rest);
            assert(log.current_frame + pieces[0] + joined(rest) =~= log.current_frame + joined(
                pieces,
            ));
        } else {
            lemma_write_all_keeps_queue(next, rest);
        }
    }
}

/// A frame that outgrows the buffer never reaches the queue: however it
/// is written, the queue after its end is the queue before its start.
pub proof fn lemma_spoilt_frame_is_dropped(
    log: FrameQueueView,
    restore_state: critical_section::RestoreState,
    pieces: Seq<Seq<u8>>,
)
    requires
        joined(pieces).len() > FRAME_CAPACITY,
    ensures
        log.cycle(restore_state, pieces).queue == log.queue,
{
    lemma_write_all(log.acquire(restore_state), pieces);
}

/// A frame that fits in the buffer goes to the back of the queue as it
/// was written, if the queue has room, and nowhere if it has none.
pub proof fn lemma_whole_frame_is_queued(
    log: FrameQueueView,
    restore_state: critical_section::RestoreState,
    pieces: Seq<Seq<u8>>,
)
    requires
        joined(pieces).len() <= FRAME_CAPACITY,
    ensures
        log.cycle(restore_state, pieces).queue == (if log.queue.len() < QUEUE_CAPACITY {
            log.queue.push(joined(pieces))
        } else {
            log.queue
        }),
{
    lemma_write_all(log.acquire(restore_state), pieces);
    assert(Seq::<u8>::empty() + joined(pieces) =~= joined(pieces));
}

/// Frames that are logged one after the other queue up in that order,
/// behind what was there, until the queue is full; the ones that come
/// after that are dropped, and no frame that is in the queue is changed
/// or pushed out.
pub proof fn lemma_log_all(
    log: FrameQueueView,
    restore_state: critical_section::RestoreState,
    frames: Seq<Seq<u8>>,
)
    requires
        log.queue.len() <= QUEUE_CAPACITY,
        forall|i: int| 0 <= i < frames.len() ==> (#[trigger] frames[i]).len() <= FRAME_CAPACITY,
    ensures
        log.log_all(restore_state, frames).queue == kept(log.queue, frames),
    decreases frames.len(),
{
    if frames.len() == 0 {
        assert(log.queue + frames =~= log.queue);
    } else {
        let first = frames[0];
        let rest = frames.drop_first();
        let next = log.cycle(restore_state, seq![first]);
        assert(joined(seq![first]) =~= first) by {
            assert(seq![first].drop_first() =~= Seq::<Seq<u8>>::empty());
            assert(joined(seq![first].drop_first()) =~= Seq::<u8>::empty());
        }
        lemma_whole_frame_is_queued(log, restore_state, seq![first]);
        assert forall|i: int| 0 <= i < rest.len() implies (#[trigger] rest[i]).len()
            <= FRAME_CAPACITY by {
            assert(rest[i] == frames[i + 1]);
        }
        lemma_log_all(next, restore_state, rest);
        if log.queue.len() < QUEUE_CAPACITY {
            assert(log.queue.push(first) + rest =~= log.queue + frames);
        } else {
            assert((log.queue + rest).take(QUEUE_CAPACITY as int) =~= log.queue);
            assert((log.queue + frames).take(QUEUE_CAPACITY as int) =~= log.queue);
        }
    }
}

/// Taking frames out of the queue gives them oldest first and leaves the
/// others as they were.
pub proof fn lemma_drain_many(log: FrameQueueView, times: nat)
    ensures
        times <= log.queue.len() ==> log.drain_many(times).1 == log.queue.take(times as int)
            && log.drain_many(times).0.queue == log.queue.skip(times as int),
        times > log.queue.len() ==> log.drain_many(times).1 == log.queue && log.drain_many(
            times,
        ).0.queue.len() == 0,
    decreases times,
{
    if times == 0 {
        assert(log.queue.take(0) =~= Seq::<Seq<u8>>::empty());
        assert(log.queue.skip(0) =~= log.queue);
    } else {
        let (after, front) = log.drain();
        lemma_drain_many(after, (times - 1) as nat);
        if log.queue.len() > 0 {
            let rest = after.drain_many((times - 1) as nat).1;
            if times <= log.queue.len() {
                assert(seq![log.queue[0]] + log.queue.drop_first().take(times - 1)
                    =~= log.queue.take(times as int));
                assert(log.queue.drop_first().skip(times - 1) =~= log.queue.skip(times as int));
            } else {
                assert(seq![log.queue[0]] + log.queue.drop_first() =~= log.queue);
            }
        } else {
            assert(log.drain_many(times).1 =~= log.queue);
        }
    }
}

/// First in, first out: frames that are logged into an empty queue that
/// has room for all of them come out, one per take, exactly as they were
/// logged and in the order they were logged.
pub proof fn lemma_queue_is_fifo(
    log: FrameQueueView,
    restore_state: critical_section::RestoreState,
    frames: Seq<Seq<u8>>,
)
    requires
        log.queue.len() == 0,
        frames.len() <= QUEUE_CAPACITY,
        forall|i: int| 0 <= i < frames.len() ==> (#[trigger] frames[i]).len() <= FRAME_CAPACITY,
    ensures
        log.log_all(restore_state, frames).drain_many(frames.len()).1 == frames,
        forall|k: nat|
            k <= frames.len() ==> #[trigger] log.log_all(restore_state, frames).drain_many(k).1
                == frames.take(k as int),
{
    lemma_log_all(log, restore_state, frames);
    let full = log.log_all(restore_state, frames);
    assert(log.queue + frames =~= frames);
    assert forall|k: nat| k <= frames.len() implies #[trigger] full.drain_many(k).1
        == frames.take(k as int) by {
        lemma_drain_many(full, k);
    }
    assert(frames.take(frames.len() as int) =~= frames);
}

/// The newest are dropped: of more frames than the queue has room for,
/// logged into an empty queue, the oldest that fit are kept as they
/// were, and they are all that comes out.
pub proof fn lemma_overflow_drops_newest(
    log: FrameQueueView,
    restore_state: critical_section::RestoreState,
    frames: Seq<Seq<u8>>,
    times: nat,
)
    requires
        log.queue.len() == 0,
        frames.len() > QUEUE_CAPACITY,
        forall|i: int| 0 <= i < frames.len() ==> (#[trigger] frames[i]).len() <= FRAME_CAPACITY,
        times >= QUEUE_CAPACITY,
    ensures
        log.log_all(restore_state, frames).queue == frames.take(QUEUE_CAPACITY as int),
        log.log_all(restore_state, frames).drain_many(times).1 == frames.take(
            QUEUE_CAPACITY as int,
        ),
{
    lemma_log_all(log, restore_state, frames);
    let full = log.log_all(restore_state, frames);
    assert(log.queue + frames =~= frames);
    lemma_drain_many(full, times);
    assert(full.queue.take(QUEUE_CAPACITY as int) =~= full.queue);
}

/// Every step of a frame and every take keeps a frame queue well formed.
pub proof fn lemma_keeps_well_formed(
    log: FrameQueueView,
    restore_state: critical_section::RestoreState,
    bytes: Seq<u8>,
)
    requires
        log.well_formed(),
    ensures
        log.acquire(restore_state).well_formed(),
        log.write(bytes).well_formed(),
        log.release().well_formed(),
        log.drain().0.well_formed(),
{
    let after = log.drain().0;
    assert forall|i: int| 0 <= i < after.queue.len() implies (#[trigger] after.queue[i]).len()
        <= FRAME_CAPACITY by {
        if log.queue.len() > 0 {
            assert(after.queue[i] == log.queue[i + 1]);
        }
    }
}

} // verus!

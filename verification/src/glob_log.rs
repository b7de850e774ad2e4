//! The logger of a device: log frames are encoded and queued for sending.
//!
//! The logging framework calls the logger with interrupts masked, once to
//! start a log frame, any number of times with its bytes, and once to end
//! it. The bytes go through the framework's encoder into a
//! [`FrameQueue`], and the sending loop takes the finished frames out
//! with [`log_read`].
use crate::frame_queue::{
    frame_view, lemma_write_all_keeps_queue, FrameQueue, FrameQueueView, FrameState,
};
use vstd::prelude::*;

verus! {

/// The encoder of log frames, `defmt::Encoder`. Nothing is known of what
/// it holds.
#[verifier::external_type_specification]
#[verifier::external_body]
pub struct ExEncoder(defmt::Encoder);

/// `defmt::Encoder::new` makes an encoder. Nothing is claimed of it.
#[verifier::external_body]
fn encoder_new() -> (encoder: defmt::Encoder) {
    defmt::Encoder::new()
}

/// The pieces of bytes that `defmt::Encoder::start_frame` hands to its
/// sink, in the order it hands them over, when it is called on this
/// encoder. Which they are depends on the encoding the crate is built
/// with and on what the encoder has seen before.
pub uninterp spec fn encoder_start_output(encoder: defmt::Encoder) -> Seq<Seq<u8>>;

/// The pieces of bytes that `defmt::Encoder::write` hands to its sink,
/// in the order it hands them over, when it is called on this encoder
/// with `data`. Which they are depends on the encoding the crate is
/// built with and on what the encoder has seen before.
pub uninterp spec fn encoder_output(encoder: defmt::Encoder, data: Seq<u8>) -> Seq<Seq<u8>>;

/// The pieces of bytes that `defmt::Encoder::end_frame` hands to its
/// sink, in the order it hands them over, when it is called on this
/// encoder. Which they are depends on the encoding the crate is built
/// with and on what the encoder has seen before.
pub uninterp spec fn encoder_end_output(encoder: defmt::Encoder) -> Seq<Seq<u8>>;

/// `defmt::Encoder::start_frame` opens a frame and calls what it is
/// given with each piece of bytes to send, in order: here
/// [`FrameQueue::write`], so the queue is left as those pieces written
/// to it leave it.
#[verifier::external_body]
fn encoder_start_frame(encoder: &mut defmt::Encoder, queue: &mut FrameQueue)
    requires
        old(queue).wf(),
    ensures
        final(queue).wf(),
        final(queue)@ == old(queue)@.write_all(encoder_start_output(*old(encoder))),
{
    encoder.start_frame(|bytes| queue.write(bytes))
}

/// `defmt::Encoder::write` encodes `data` and calls what it is given
/// with each piece of bytes to send, in order: here
/// [`FrameQueue::write`], so the queue is left as those pieces written
/// to it leave it.
#[verifier::external_body]
fn encoder_write(encoder: &mut defmt::Encoder, queue: &mut FrameQueue, data: &[u8])
    requires
        old(queue).wf(),
    ensures
        final(queue).wf(),
        final(queue)@ == old(queue)@.write_all(encoder_output(*old(encoder), data@)),
{
    encoder.write(data, |bytes| queue.write(bytes))
}

/// `defmt::Encoder::end_frame` closes a frame and calls what it is given
/// with each piece of bytes to send, in order: here
/// [`FrameQueue::write`], so the queue is left as those pieces written
/// to it leave it.
#[verifier::external_body]
fn encoder_end_frame(encoder: &mut defmt::Encoder, queue: &mut FrameQueue)
    requires
        old(queue).wf(),
    ensures
        final(queue).wf(),
        final(queue)@ == old(queue)@.write_all(encoder_end_output(*old(encoder))),
{
    encoder.end_frame(|bytes| queue.write(bytes))
}

/// `critical_section::with` runs what it is given once, inside a
/// critical section, and hands back what that returned: here one call of
/// [`FrameQueue::drain`], whose contract is repeated.
#[verifier::external_body]
fn pop_in_critical_section(queue: &mut FrameQueue) -> (frame: Option<heapless::Vec<u8, 1024>>)
    requires
        old(queue).wf(),
    ensures
        final(queue).wf(),
        (final(queue)@, frame_view(frame)) == old(queue)@.drain(),
{
    critical_section::with(|_| queue.drain())
}

/// The logger of a device: an encoder of log frames that writes into a
/// frame queue.
///
/// What the logger is given goes through the encoder, and what the
/// encoder makes of it is written to the queue piece by piece. So the
/// queue is left as [`FrameQueueView::write_all`] says of the pieces that
/// the encoder hands over.
pub struct GlobLog {
    queue: FrameQueue,
    encoder: defmt::Encoder,
}

impl View for GlobLog {
    type V = FrameQueueView;

    closed spec fn view(&self) -> FrameQueueView {
        self.queue@
    }
}

impl GlobLog {
    /// Holds of every value this type's functions hand out.
    pub closed spec fn wf(&self) -> bool {
        self.queue.wf()
    }

    /// The encoder that the log frames go through.
    pub closed spec fn encoder(&self) -> defmt::Encoder {
        self.encoder
    }

    /// A logger with an empty queue and no frame started.
    pub fn new() -> (log: Self)
        ensures
            log.wf(),
            log@.frame_state == FrameState::INVALID,
            log@.current_frame == Seq::<u8>::empty(),
            log@.queue == Seq::<Seq<u8>>::empty(),
    {
        GlobLog { queue: FrameQueue::new(), encoder: encoder_new() }
    }

    /// Whether a finished frame waits to be sent.
    pub fn has_frames(&self) -> (waiting: bool)
        requires
            self.wf(),
        ensures
            waiting == (self@.queue.len() > 0),
    {
        self.queue.has_frames()
    }

    /// Starts a log frame. `restore_state` is what entering the critical
    /// section gave; [`GlobLog::release`] hands it back.
    ///
    /// The buffer is emptied and marked whole, and the encoder opens its
    /// frame: what it hands over is written to the buffer. The queue is
    /// not touched.
    pub fn acquire(&mut self, restore_state: critical_section::RestoreState)
        requires
            old(self).wf(),
        ensures
            final(self).wf(),
            final(self)@ == old(self)@.acquire(restore_state).write_all(
                encoder_start_output(old(self).encoder()),
            ),
            final(self)@.queue == old(self)@.queue,
            final(self)@.restore_state == restore_state,
    {
        self.queue.acquire(restore_state);
        proof {
            lemma_write_all_keeps_queue(self@, encoder_start_output(self.encoder()));
        }
        encoder_start_frame(&mut self.encoder, &mut self.queue);
    }

    /// Adds `bytes` to the log frame: the encoder is given them, and
    /// what it hands over is written to the buffer. The queue is not
    /// touched, and a frame that is spoilt takes nothing.
    pub fn write(&mut self, bytes: &[u8])
        requires
            old(self).wf(),
        ensures
            final(self).wf(),
            final(self)@ == old(self)@.write_all(encoder_output(old(self).encoder(), bytes@)),
            final(self)@.queue == old(self)@.queue,
            final(self)@.restore_state == old(self)@.restore_state,
            old(self)@.frame_state == FrameState::INVALID ==> final(self)@ == old(self)@,
    {
        proof {
            lemma_write_all_keeps_queue(self@, encoder_output(self.encoder(), bytes@));
        }
        encoder_write(&mut self.encoder, &mut self.queue, bytes);
    }

    /// There is nothing to flush: frames leave through [`log_read`].
    pub fn flush(&mut self)
        ensures
            *final(self) == *old(self),
    {
    }

    /// Ends the log frame and hands back what the critical section is to
    /// be left with.
    ///
    /// The encoder closes its frame: what it hands over is written to
    /// the buffer. Then a whole frame goes to the back of the queue if
    /// there is room; a spoilt frame, or one that finds the queue full,
    /// goes nowhere. No frame that waits is changed or pushed out.
    pub fn release(&mut self) -> (restore_state: critical_section::RestoreState)
        requires
            old(self).wf(),
        ensures
            final(self).wf(),
            final(self)@ == old(self)@.write_all(
                encoder_end_output(old(self).encoder()),
            ).release(),
            restore_state == old(self)@.restore_state,
            old(self)@.frame_state == FrameState::INVALID ==> final(self)@ == old(self)@,
            final(self)@.queue == old(self)@.queue || (old(self)@.frame_state == FrameState::VALID
                && final(self)@.queue.len() == old(self)@.queue.len() + 1
                && final(self)@.queue.drop_last() == old(self)@.queue),
    {
        proof {
            lemma_write_all_keeps_queue(self@, encoder_end_output(self.encoder()));
        }
        encoder_end_frame(&mut self.encoder, &mut self.queue);
        proof {
            assert(self@.release().queue == old(self)@.queue || self@.release().queue.drop_last()
                == old(self)@.queue) by {
                assert(old(self)@.queue.push(self@.current_frame).drop_last() == old(self)@.queue);
            }
        }
        self.queue.release()
    }
}

/// Hands the oldest finished frame to the sending loop, or `None` where
/// none waits. The critical section is entered only when a frame waits.
pub fn log_read(log: &mut GlobLog) -> (frame: Option<heapless::Vec<u8, 1024>>)
    requires
        old(log).wf(),
    ensures
        final(log).wf(),
        (final(log)@, frame_view(frame)) == old(log)@.drain(),
{
    if log.queue.has_frames() {
        pop_in_critical_section(&mut log.queue)
    } else {
        None
    }
}

} // verus!

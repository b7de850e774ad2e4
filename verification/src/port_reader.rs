//! Bytes taken from a port and passed on, one by one, to a channel.
use std::sync::mpsc::Sender;
use vstd::prelude::*;

verus! {

/// The sending end of a channel, `std::sync::mpsc::Sender`. Nothing is
/// known of what it holds.
#[verifier::external_type_specification]
#[verifier::external_body]
#[verifier::reject_recursive_types(T)]
pub struct ExSender<T>(Sender<T>);

/// What one read from a port gave.
#[derive(Debug, Clone, Copy, PartialEq, Eq, Structural)]
pub enum ReadOutcome {
    /// This many bytes were put at the front of the buffer.
    Data(usize),
    /// Nothing came within the port's time limit.
    TimedOut,
    /// Nothing is there yet.
    WouldBlock,
    /// The port failed in another way.
    Failed,
}

/// Puts one byte into the channel with `Sender::send` and tells whether
/// it was taken. It is not once the receiver is gone, so nothing is
/// claimed of the answer.
#[verifier::external_body]
fn send_byte(output: &Sender<u8>, byte: u8) -> (sent: bool) {
    output.send(byte).is_ok()
}

/// What the sending loop does next.
#[derive(Debug, Clone, Copy, PartialEq, Eq, Structural)]
pub enum SendStep {
    /// Hand this byte to the channel.
    Send(u8),
    /// The channel did not take the last byte: give up.
    Stop,
    /// Every byte was taken: done, with their number.
    Done(usize),
}

/// What comes next when `passed` of the bytes have been taken by the
/// channel and `taken` is its last answer: the next byte in order while
/// the channel takes them, the end once it has taken them all, and
/// giving up as soon as it refuses one.
pub open spec fn next_send(bytes: Seq<u8>, passed: nat, taken: bool) -> SendStep {
    if !taken {
        SendStep::Stop
    } else if passed < bytes.len() {
        SendStep::Send(bytes[passed as int])
    } else {
        SendStep::Done(bytes.len() as usize)
    }
}

/// What the sending loop does next, when `passed` of `bytes` have been
/// taken by the channel and `taken` is its last answer. Before the first
/// byte is sent there is no answer yet, which counts as taken.
pub fn send_step(bytes: &[u8], passed: usize, taken: bool) -> (step: SendStep)
    ensures
        step == next_send(bytes@, passed as nat, taken),
{
    if !taken {
        SendStep::Stop
    } else if passed < bytes.len() {
        SendStep::Send(bytes[passed])
    } else {
        SendStep::Done(bytes.len())
    }
}

/// The bytes that are passed on after a read into `buffer` that ended as
/// `outcome` says: the ones that were read, where their number is one
/// the buffer can hold; none after a read that found nothing in time;
/// and `None` where the read failed.
pub open spec fn bytes_read(buffer: Seq<u8>, outcome: ReadOutcome) -> Option<Seq<u8>> {
    match outcome {
        ReadOutcome::Data(len) => if len <= buffer.len() {
            Some(buffer.take(len as int))
        } else {
            None
        },
        ReadOutcome::TimedOut => Some(Seq::empty()),
        ReadOutcome::WouldBlock => Some(Seq::empty()),
        ReadOutcome::Failed => None,
    }
}

/// Feeds a channel of bytes with what reads from a port give.
///
/// The port itself stays with the caller: it reads into
/// [`PortReader::buffer`] and tells [`PortReader::try_read`] how the read
/// ended.
#[derive(Debug)]
pub struct PortReader {
    output: Sender<u8>,
    buf: Vec<u8>,
}

impl View for PortReader {
    type V = Seq<u8>;

    /// What the buffer holds.
    closed spec fn view(&self) -> Seq<u8> {
        self.buf@
    }
}

impl PortReader {
    /// A reader that takes up to `read_size` bytes at a time and passes
    /// them to `output`.
    pub fn new(output: Sender<u8>, read_size: usize) -> (reader: Self)
        ensures
            reader@ == Seq::new(read_size as nat, |i: int| 0u8),
            reader.output() == output,
    {
        let mut buf: Vec<u8> = Vec::new();
        buf.resize(read_size, 0);
        assert(buf@ == Seq::new(read_size as nat, |i: int| 0u8));
        PortReader { output, buf }
    }

    /// The channel that the bytes are passed on to.
    pub closed spec fn output(&self) -> Sender<u8> {
        self.output
    }

    /// Where the next read puts its bytes.
    pub fn buffer(&mut self) -> (buf: &mut [u8])
        ensures
            buf@ == old(self)@,
            final(self)@ == final(buf)@,
            final(self).output() == old(self).output(),
    {
        self.buf.as_mut_slice()
    }

    /// The bytes to pass on after a read into the buffer that ended as
    /// `outcome` says, or `None` where the read failed.
    pub fn received(&self, outcome: ReadOutcome) -> (bytes: Option<&[u8]>)
        ensures
            match bytes_read(self@, outcome) {
                Some(read) => bytes matches Some(b) && b@ == read,
                None => bytes is None,
            },
    {
        match outcome {
            ReadOutcome::Data(len) => {
                if len <= self.buf.len() {
                    Some(vstd::slice::slice_subrange(self.buf.as_slice(), 0, len))
                } else {
                    None
                }
            },
            ReadOutcome::TimedOut => Some(vstd::slice::slice_subrange(self.buf.as_slice(), 0, 0)),
            ReadOutcome::WouldBlock => Some(vstd::slice::slice_subrange(self.buf.as_slice(), 0, 0)),
            ReadOutcome::Failed => None,
        }
    }

    /// Passes on what a read into the buffer gave.
    ///
    /// The bytes of [`PortReader::received`] go to the channel as
    /// [`send_step`] says, step by step: one by one, first to last, and
    /// their number is returned once all are taken. `None` tells that the
    /// read failed or the channel did not take a byte; what is behind it
    /// is not sent. With no byte to send it is not asked: the result is
    /// `Some(0)`.
    pub fn try_read(&mut self, outcome: ReadOutcome) -> (res: Option<usize>)
        ensures
            final(self)@ == old(self)@,
            final(self).output() == old(self).output(),
            match bytes_read(old(self)@, outcome) {
                Some(read) => if read.len() == 0 {
                    res == Some(0usize)
                } else {
                    res is None || res == Some(read.len() as usize)
                },
                None => res is None,
            },
    {
        match self.received(outcome) {
            Some(bytes) => {
                let mut passed: usize = 0;
                let mut taken: bool = true;
                loop
                    invariant
                        passed <= bytes@.len(),
                        !taken ==> bytes@.len() > 0,
                        self@ == old(self)@,
                        self.output() == old(self).output(),
                        bytes_read(old(self)@, outcome) == Some(bytes@),
                    decreases bytes@.len() - passed, if taken { 1int } else { 0int },
                {
                    match send_step(bytes, passed, taken) {
                        SendStep::Send(byte) => {
                            taken = send_byte(&self.output, byte);
                            if taken {
                                passed = passed + 1;
                            }
                        },
                        SendStep::Stop => {
                            return None;
                        },
                        SendStep::Done(len) => {
                            return Some(len);
                        },
                    }
                }
            },
            None => None,
        }
    }
}

/// The order of sending: while the channel takes what it is given, the
/// bytes go out one by one, each in its place, none left out, repeated
/// or added, and after the last of them the loop is done with their
/// number; as soon as the channel refuses a byte the loop gives up, and
/// nothing more is sent.
pub proof fn lemma_send_order(bytes: Seq<u8>)
    ensures
        forall|i: nat| i < bytes.len() ==> #[trigger] next_send(bytes, i, true) == SendStep::Send(
            bytes[i as int],
        ),
        next_send(bytes, bytes.len(), true) == SendStep::Done(bytes.len() as usize),
        forall|i: nat| #[trigger] next_send(bytes, i, false) == SendStep::Stop,
{
}

} // verus!

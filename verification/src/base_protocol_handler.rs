//! The host side of the link: frames put back together from a byte stream.
//!
//! Bytes arrive one at a time. They are collected until they make up a
//! frame, which is then handed out. Bytes that cannot belong to a frame
//! put the reader into a cooldown: everything that arrives is thrown away
//! until the line has been quiet for [`COOLDOWN_NANOS`], and only then
//! does parsing start again. A source that has gone away for good leaves
//! the reader broken.
//!
//! [`Reassembler`] holds these rules and takes what the outside world
//! gave (a byte, the time) as arguments. [`BaseProtocolReader`] ties it to
//! a channel and a clock.
use crate::base_protocol::{
    decode, frame_of, lemma_decoded_is_frame, lemma_frame_layout, lemma_incomplete_is_short,
    lemma_prefix_incomplete, lemma_round_trip, BaseProtocolLayer, BaseProtocolLayerError,
    FRAME_INFO_SIZE, INVALID_STATE_COOLDOWN, MAX_DATA_SIZE, MAX_FRAME_SIZE,
};
use std::sync::mpsc::{Receiver, TryRecvError};
use std::time::Instant;
use vstd::prelude::*;
use vstd::slice::slice_to_vec;

verus! {

/// The cooldown of [`crate::base_protocol::INVALID_STATE_COOLDOWN`]
/// seconds, in the nanoseconds that timestamps are counted in.
pub const COOLDOWN_NANOS: u128 = 2_000_000_000;

/// The most bytes one read throws away during a cooldown before it
/// returns to its caller.
pub const DISCARD_LIMIT: u64 = 0xffff_ffff_ffff_ffff;

/// Where a reader stands.
#[allow(non_camel_case_types)]
#[derive(Debug, Clone, Copy, PartialEq, Eq, Structural)]
pub enum ReaderState {
    /// The byte source is gone. Nothing will ever be read again.
    Broken,
    /// Bad bytes were seen; input is thrown away until the line is quiet.
    INVALID,
    /// Collecting the bytes of the next frame.
    INCOMPLETE,
}

/// What one look at the byte source gave.
#[derive(Debug, Clone, Copy, PartialEq, Eq, Structural)]
pub enum Polled {
    /// The next byte of the stream.
    Byte(u8),
    /// Nothing has arrived yet.
    Empty,
    /// The other end has hung up and nothing is left to read.
    Disconnected,
}

/// A reader as a plain value: the bytes collected for the next frame, the
/// state, and the time the last bad or discarded byte was seen.
pub struct ReaderView {
    /// The bytes collected for the next frame.
    pub frame: Seq<u8>,
    /// Where the reader stands.
    pub state: ReaderState,
    /// When the last bad or discarded byte was seen, in nanoseconds on
    /// the reader's clock.
    pub invalid_time: nat,
}

impl ReaderView {
    /// A reader that has not seen anything yet.
    pub open spec fn start() -> ReaderView {
        ReaderView { frame: Seq::empty(), state: ReaderState::INCOMPLETE, invalid_time: 0 }
    }

    /// What every reader keeps true: the bytes it holds are the unfinished
    /// start of a frame, and it holds none while it cools down.
    pub open spec fn well_formed(self) -> bool {
        &&& self.frame.len() == 0 || decode(self.frame) == Err::<
            (Seq<u8>, nat),
            BaseProtocolLayerError,
        >(BaseProtocolLayerError::INCOMPLETE)
        &&& self.state == ReaderState::INVALID ==> self.frame.len() == 0
    }

    /// Whether the reader still throws input away at time `now`.
    pub open spec fn cooling(self, now: nat) -> bool {
        self.state == ReaderState::INVALID && now - self.invalid_time < COOLDOWN_NANOS
    }

    /// The reader at the start of a read at time `now`: a cooldown that
    /// has run out is over, and nothing else changes.
    pub open spec fn settle(self, now: nat) -> ReaderView {
        if self.state == ReaderState::INVALID && !self.cooling(now) {
            ReaderView { state: ReaderState::INCOMPLETE, ..self }
        } else {
            self
        }
    }

    /// One look at the byte source at time `now`: the reader afterwards,
    /// and what the read returns if it ends here.
    pub open spec fn step(self, polled: Polled, now: nat) -> (
        ReaderView,
        Option<Result<Seq<u8>, ReaderState>>,
    ) {
        match self.state {
            ReaderState::Broken => (self, Some(Err(ReaderState::Broken))),
            ReaderState::INVALID => match polled {
                Polled::Byte(_) => (ReaderView { invalid_time: now, ..self }, None),
                Polled::Empty => (self, Some(Err(ReaderState::INVALID))),
                Polled::Disconnected => (
                    ReaderView { state: ReaderState::Broken, ..self },
                    Some(Err(ReaderState::Broken)),
                ),
            },
            ReaderState::INCOMPLETE => match polled {
                Polled::Byte(byte) => match decode(self.frame.push(byte)) {
                    Ok((payload, _)) => (
                        ReaderView { frame: Seq::empty(), ..self },
                        Some(Ok(payload)),
                    ),
                    Err(BaseProtocolLayerError::INVALID) => (
                        ReaderView {
                            frame: Seq::empty(),
                            state: ReaderState::INVALID,
                            invalid_time: now,
                        },
                        Some(Err(ReaderState::INVALID)),
                    ),
                    Err(BaseProtocolLayerError::INCOMPLETE) => (
                        ReaderView { frame: self.frame.push(byte), ..self },
                        None,
                    ),
                },
                Polled::Empty => (self, Some(Err(ReaderState::INCOMPLETE))),
                Polled::Disconnected => (
                    ReaderView { state: ReaderState::Broken, ..self },
                    Some(Err(ReaderState::Broken)),
                ),
            },
        }
    }

    /// Looks at the byte source again and again, as `polls` tells what
    /// each look gave and when, until a step ends the read or `polls`
    /// runs out.
    pub open spec fn drive(self, polls: Seq<(Polled, nat)>) -> (
        ReaderView,
        Option<Result<Seq<u8>, ReaderState>>,
    )
        decreases polls.len(),
    {
        if polls.len() == 0 {
            (self, None)
        } else {
            let (next, out) = self.step(polls[0].0, polls[0].1);
            if out is Some {
                (next, out)
            } else {
                next.drive(polls.drop_first())
            }
        }
    }

    /// One whole read that starts at time `now` and then sees `polls`:
    /// the reader afterwards and what the read returns. A read that stops
    /// looking before a step has ended it reports the state it is in.
    pub open spec fn read(self, now: nat, polls: Seq<(Polled, nat)>) -> (
        ReaderView,
        Result<Seq<u8>, ReaderState>,
    ) {
        let (after, out) = self.settle(now).drive(polls);
        (
            after,
            match out {
                Some(reply) => reply,
                None => Err(after.state),
            },
        )
    }

    /// One read after the other, each with the time it starts at and
    /// what it sees: the reader after the last of them.
    pub open spec fn read_many(self, reads: Seq<(nat, Seq<(Polled, nat)>)>) -> ReaderView
        decreases reads.len(),
    {
        if reads.len() == 0 {
            self
        } else {
            self.read(reads[0].0, reads[0].1).0.read_many(reads.drop_first())
        }
    }
}

/// The bytes of `bytes`, each as a byte that arrived at the time `at`
/// gives for its position.
pub open spec fn arrivals(bytes: Seq<u8>, at: spec_fn(int) -> nat) -> Seq<(Polled, nat)> {
    Seq::new(bytes.len(), |i: int| (Polled::Byte(bytes[i]), at(i)))
}

/// What a step hands out, with the payload as a sequence.
pub open spec fn output_view(out: Option<Result<Vec<u8>, ReaderState>>) -> Option<
    Result<Seq<u8>, ReaderState>,
> {
    match out {
        Some(reply) => Some(reply_view(reply)),
        None => None,
    }
}

/// What a read returns, with the payload as a sequence.
pub open spec fn reply_view(reply: Result<Vec<u8>, ReaderState>) -> Result<
    Seq<u8>,
    ReaderState,
> {
    match reply {
        Ok(payload) => Ok(payload@),
        Err(state) => Err(state),
    }
}

/// The rules of the reader, free of any byte source or clock.
#[derive(Debug)]
pub struct Reassembler {
    frame: Vec<u8>,
    state: ReaderState,
    invalid_time: u128,
}

impl View for Reassembler {
    type V = ReaderView;

    closed spec fn view(&self) -> ReaderView {
        ReaderView {
            frame: self.frame@,
            state: self.state,
            invalid_time: self.invalid_time as nat,
        }
    }
}

impl Reassembler {
    /// Holds of every value this type's functions hand out.
    pub open spec fn wf(&self) -> bool {
        self@.well_formed()
    }

    /// A reader that has not seen anything yet.
    pub fn new() -> (reader: Self)
        ensures
            reader.wf(),
            reader@ == ReaderView::start(),
    {
        Reassembler { frame: Vec::new(), state: ReaderState::INCOMPLETE, invalid_time: 0 }
    }

    /// Where the reader stands.
    pub fn state(&self) -> (state: ReaderState)
        ensures
            state == self@.state,
    {
        self.state
    }

    /// The number of bytes collected for the next frame.
    pub fn pending(&self) -> (len: usize)
        ensures
            len == self@.frame.len(),
    {
        self.frame.len()
    }

    /// Whether input is still thrown away at time `now`.
    pub fn is_cooling(&self, now: u128) -> (cooling: bool)
        ensures
            cooling == self@.cooling(now as nat),
    {
        match self.state {
            ReaderState::INVALID => now < self.invalid_time || now - self.invalid_time
                < COOLDOWN_NANOS,
            _ => false,
        }
    }

    /// Starts a read at time `now`: ends a cooldown that has run out.
    pub fn settle(&mut self, now: u128)
        requires
            old(self).wf(),
        ensures
            final(self).wf(),
            final(self)@ == old(self)@.settle(now as nat),
    {
        match self.state {
            ReaderState::INVALID => {
                if !self.is_cooling(now) {
                    self.state = ReaderState::INCOMPLETE;
                }
            },
            _ => {},
        }
    }

    /// Takes what one look at the byte source gave at time `now`.
    ///
    /// `None` asks for another look; `Some` is what the read returns.
    pub fn step(&mut self, polled: Polled, now: u128) -> (out: Option<
        Result<Vec<u8>, ReaderState>,
    >)
        requires
            old(self).wf(),
        ensures
            final(self).wf(),
            final(self)@ == old(self)@.step(polled, now as nat).0,
            output_view(out) == old(self)@.step(polled, now as nat).1,
    {
        match self.state {
            ReaderState::Broken => Some(Err(ReaderState::Broken)),
            ReaderState::INVALID => match polled {
                Polled::Byte(_) => {
                    self.invalid_time = now;
                    None
                },
                Polled::Empty => Some(Err(ReaderState::INVALID)),
                Polled::Disconnected => {
                    self.state = ReaderState::Broken;
                    Some(Err(ReaderState::Broken))
                },
            },
            ReaderState::INCOMPLETE => match polled {
                Polled::Byte(byte) => {
                    self.frame.push(byte);
                    match BaseProtocolLayer::from_slice(self.frame.as_slice()) {
                        Ok((payload, _)) => {
                            let payload: Vec<u8> = slice_to_vec(payload);
                            self.frame.clear();
                            Some(Ok(payload))
                        },
                        Err(BaseProtocolLayerError::INVALID) => {
                            self.state = ReaderState::INVALID;
                            self.frame.clear();
                            self.invalid_time = now;
                            Some(Err(ReaderState::INVALID))
                        },
                        Err(BaseProtocolLayerError::INCOMPLETE) => None,
                    }
                },
                Polled::Empty => Some(Err(ReaderState::INCOMPLETE)),
                Polled::Disconnected => {
                    self.state = ReaderState::Broken;
                    Some(Err(ReaderState::Broken))
                },
            },
        }
    }
}

/// The receiving end of a channel, `std::sync::mpsc::Receiver`. Nothing
/// is known of what it holds.
#[verifier::external_type_specification]
#[verifier::external_body]
#[verifier::reject_recursive_types(T)]
pub struct ExReceiver<T>(Receiver<T>);

/// A reading of the monotonic clock, `std::time::Instant`. Nothing is
/// known of what it holds.
#[verifier::external_type_specification]
#[verifier::external_body]
pub struct ExInstant(Instant);

/// `Instant::now` reads the clock. What it gives depends on when it is
/// called, so nothing is claimed of it.
pub assume_specification[ Instant::now ]() -> (now: Instant)
;

/// `Instant::elapsed` gives the time since the reading was taken. It
/// depends on when it is called, so nothing is claimed of it.
pub assume_specification[ Instant::elapsed ](since: &Instant) -> (elapsed: std::time::Duration)
;

/// `Duration::as_nanos` gives a span of time in nanoseconds. The span
/// itself is opaque here, so nothing is claimed of the number.
pub assume_specification[ std::time::Duration::as_nanos ](span: &std::time::Duration) -> (nanos:
    u128)
;

/// Looks once at the channel without waiting, with `Receiver::try_recv`,
/// and tells its three answers apart. Which one comes depends on the
/// sender, so nothing is claimed of it.
#[verifier::external_body]
fn poll_source(byte_stream: &Receiver<u8>) -> (polled: Polled) {
    match byte_stream.try_recv() {
        Ok(byte) => Polled::Byte(byte),
        Err(TryRecvError::Empty) => Polled::Empty,
        Err(TryRecvError::Disconnected) => Polled::Disconnected,
    }
}

/// A reader on a channel of bytes, with a clock of its own.
#[derive(Debug)]
pub struct BaseProtocolReader {
    reader: Reassembler,
    byte_stream: Receiver<u8>,
    clock: Instant,
}

impl View for BaseProtocolReader {
    type V = ReaderView;

    closed spec fn view(&self) -> ReaderView {
        self.reader@
    }
}

impl BaseProtocolReader {
    /// Holds of every value this type's functions hand out.
    pub open spec fn wf(&self) -> bool {
        self@.well_formed()
    }

    /// A reader on `byte_stream` that has not seen anything yet. Its
    /// clock starts now.
    pub fn new(byte_stream: Receiver<u8>) -> (reader: Self)
        ensures
            reader.wf(),
            reader@ == ReaderView::start(),
            reader.byte_stream() == byte_stream,
    {
        BaseProtocolReader { reader: Reassembler::new(), byte_stream, clock: Instant::now() }
    }

    /// The channel the reader takes its bytes from.
    pub closed spec fn byte_stream(&self) -> Receiver<u8> {
        self.byte_stream
    }

    /// The start of the reader's clock: every time it reads is counted
    /// from here.
    pub closed spec fn clock(&self) -> Instant {
        self.clock
    }

    /// Where the reader stands.
    pub fn state(&self) -> (state: ReaderState)
        ensures
            state == self@.state,
    {
        self.reader.state()
    }

    /// Reads as far as the bytes that have arrived allow, without waiting.
    ///
    /// `Ok` carries the payload of the next frame. `Err` carries the state
    /// the reader is left in: `INCOMPLETE` when more bytes are needed,
    /// `INVALID` while it cools down after bad bytes, `Broken` once the
    /// source is gone. What happens is what [`ReaderView::read`] says of
    /// the time at the start and of what the source gave, look by look.
    /// While it collects, the read goes on looking until a step ends it.
    /// The channel and the start of the clock are never changed.
    ///
    /// A read always returns: while it collects, a frame or a bad byte
    /// ends it within [`MAX_FRAME_SIZE`] bytes, and while it cools down
    /// it stops after [`DISCARD_LIMIT`] bytes and leaves the rest to the
    /// next read.
    pub fn try_read_frame(&mut self) -> (res: Result<Vec<u8>, ReaderState>)
        requires
            old(self).wf(),
        ensures
            final(self).wf(),
            final(self).byte_stream() == old(self).byte_stream(),
            final(self).clock() == old(self).clock(),
            exists|now: nat, polls: Seq<(Polled, nat)>|
                {
                    &&& #[trigger] old(self)@.read(now, polls) == (final(self)@, reply_view(res))
                    &&& old(self)@.settle(now).state == ReaderState::INCOMPLETE ==> old(
                        self,
                    )@.settle(now).drive(polls).1 is Some
                },
            old(self)@.state == ReaderState::Broken ==> final(self)@ == old(self)@ && res
                == Err::<Vec<u8>, ReaderState>(ReaderState::Broken),
            res matches Ok(payload) ==> payload@.len() <= MAX_DATA_SIZE && final(self)@.state
                == ReaderState::INCOMPLETE && final(self)@.frame.len() == 0,
            res matches Err(state) ==> state == final(self)@.state,
    {
        match self.reader.state() {
            ReaderState::Broken => {
                assert(self@.read(0, Seq::empty()) == (
                    self@,
                    reply_view(Err(ReaderState::Broken)),
                ));
                Err(ReaderState::Broken)
            },
            ReaderState::INVALID => {
                let now: u128 = self.clock.elapsed().as_nanos();
                let ghost before = self@;
                self.reader.settle(now);
                match self.reader.state() {
                    ReaderState::INVALID => {
                        let Ghost(polls) = self.empty_byte_reader();
                        let state = self.reader.state();
                        assert(before.read(now as nat, polls) == (self@, reply_view(Err(state))));
                        Err(state)
                    },
                    _ => {
                        let (res, Ghost(polls)) = self.try_build_frame();
                        assert(before.read(now as nat, polls) == (self@, reply_view(res)));
                        res
                    },
                }
            },
            ReaderState::INCOMPLETE => {
                let ghost before = self@;
                let (res, Ghost(polls)) = self.try_build_frame();
                assert(before.read(0, polls) == (self@, reply_view(res)));
                res
            },
        }
    }

    /// Collects bytes until they make up a frame, turn out bad, or the
    /// source has no more. Also hands back what the source gave.
    fn try_build_frame(&mut self) -> (res: (
        Result<Vec<u8>, ReaderState>,
        Ghost<Seq<(Polled, nat)>>,
    ))
        requires
            old(self).wf(),
            old(self)@.state == ReaderState::INCOMPLETE,
        ensures
            final(self).wf(),
            final(self).byte_stream() == old(self).byte_stream(),
            final(self).clock() == old(self).clock(),
            old(self)@.drive(res.1@) == (final(self)@, Some(reply_view(res.0))),
            res.0 matches Ok(payload) ==> payload@.len() <= MAX_DATA_SIZE && final(self)@.state
                == ReaderState::INCOMPLETE && final(self)@.frame.len() == 0,
            res.0 matches Err(state) ==> state == final(self)@.state,
    {
        let ghost start = self@;
        let ghost mut polls: Seq<(Polled, nat)> = Seq::empty();
        loop
            invariant
                start == old(self)@,
                self.byte_stream() == old(self).byte_stream(),
                self.clock() == old(self).clock(),
                self.wf(),
                self@.state == ReaderState::INCOMPLETE,
                start.drive(polls) == (self@, None::<Result<Seq<u8>, ReaderState>>),
            decreases MAX_FRAME_SIZE - self@.frame.len(),
        {
            proof {
                if self@.frame.len() > 0 {
                    lemma_incomplete_is_short(self@.frame);
                }
            }
            let polled = poll_source(&self.byte_stream);
            let now: u128 = self.clock.elapsed().as_nanos();
            let ghost before = self@;
            let out = self.reader.step(polled, now);
            proof {
                lemma_drive_push(start, polls, (polled, now as nat));
                polls = polls.push((polled, now as nat));
                if self@.frame.len() > 0 {
                    lemma_incomplete_is_short(self@.frame);
                }
            }
            match out {
                Some(res) => {
                    proof {
                        if res is Ok {
                            lemma_decoded_is_frame(before.frame.push(polled->Byte_0));
                        }
                    }
                    return (res, Ghost(polls));
                },
                None => {},
            }
        }
    }

    /// Throws away what has arrived, until the source has no more or
    /// [`DISCARD_LIMIT`] bytes are gone. Also hands back what the source
    /// gave.
    fn empty_byte_reader(&mut self) -> (polls: Ghost<Seq<(Polled, nat)>>)
        requires
            old(self).wf(),
            old(self)@.state == ReaderState::INVALID,
        ensures
            final(self).wf(),
            final(self).byte_stream() == old(self).byte_stream(),
            final(self).clock() == old(self).clock(),
            final(self)@.state != ReaderState::INCOMPLETE,
            old(self)@.drive(polls@).0 == final(self)@,
            match old(self)@.drive(polls@).1 {
                Some(reply) => reply == Err::<Seq<u8>, ReaderState>(final(self)@.state),
                None => true,
            },
    {
        let ghost start = self@;
        let ghost mut polls: Seq<(Polled, nat)> = Seq::empty();
        let mut budget: u64 = DISCARD_LIMIT;
        while budget > 0
            invariant
                start == old(self)@,
                self.byte_stream() == old(self).byte_stream(),
                self.clock() == old(self).clock(),
                self.wf(),
                self@.state == ReaderState::INVALID,
                start.drive(polls) == (self@, None::<Result<Seq<u8>, ReaderState>>),
            decreases budget,
        {
            let polled = poll_source(&self.byte_stream);
            let now: u128 = self.clock.elapsed().as_nanos();
            let out = self.reader.step(polled, now);
            proof {
                lemma_drive_push(start, polls, (polled, now as nat));
                polls = polls.push((polled, now as nat));
            }
            match out {
                Some(_) => {
                    return Ghost(polls);
                },
                None => {},
            }
            budget = budget - 1;
        }
        Ghost(polls)
    }
}

/// The frame that carries `slice`, in a buffer of its own.
pub fn make_frame_from_slice(slice: &[u8]) -> (frame: Vec<u8>)
    requires
        slice@.len() <= MAX_DATA_SIZE,
    ensures
        frame@ == frame_of(slice@),
{
    let mut frame: Vec<u8> = Vec::new();
    frame.resize(slice.len() + FRAME_INFO_SIZE, 0);
    let _ = BaseProtocolLayer::into_frame(frame.as_mut_slice(), slice);
    frame
}

/// One more look after looks that did not end the read is one more step.
pub proof fn lemma_drive_push(start: ReaderView, polls: Seq<(Polled, nat)>, next: (Polled, nat))
    requires
        start.drive(polls).1 is None,
    ensures
        start.drive(polls.push(next)) == start.drive(polls).0.step(next.0, next.1),
    decreases polls.len(),
{
    let longer = polls.push(next);
    if polls.len() == 0 {
        assert(longer.drop_first() =~= Seq::<(Polled, nat)>::empty());
        let (after, out) = start.step(next.0, next.1);
        assert(after.drive(Seq::empty()) == (after, None::<Result<Seq<u8>, ReaderState>>));
    } else {
        let (after, out) = start.step(polls[0].0, polls[0].1);
        assert(longer.drop_first() =~= polls.drop_first().push(next));
        lemma_drive_push(after, polls.drop_first(), next);
    }
}

/// A frame that arrives byte by byte is not handed out before its last
/// byte: after any shorter part of it the reader holds that part, has
/// returned nothing, and asks for more.
pub proof fn lemma_no_frame_before_last_byte(
    start: ReaderView,
    payload: Seq<u8>,
    at: spec_fn(int) -> nat,
    k: int,
)
    requires
        start.state == ReaderState::INCOMPLETE,
        start.frame.len() == 0,
        payload.len() <= MAX_DATA_SIZE,
        0 <= k < frame_of(payload).len(),
    ensures
        start.drive(arrivals(frame_of(payload), at).take(k)) == (
            ReaderView { frame: frame_of(payload).take(k), ..start },
            None::<Result<Seq<u8>, ReaderState>>,
        ),
    decreases k,
{
    let frame = frame_of(payload);
    let polls = arrivals(frame, at);
    lemma_frame_layout(payload);
    if k == 0 {
        assert(polls.take(0) =~= Seq::<(Polled, nat)>::empty());
        assert(frame.take(0) =~= start.frame);
    } else {
        lemma_no_frame_before_last_byte(start, payload, at, k - 1);
        let held = ReaderView { frame: frame.take(k - 1), ..start };
        lemma_drive_push(start, polls.take(k - 1), polls[k - 1]);
        assert(polls.take(k - 1).push(polls[k - 1]) =~= polls.take(k));
        assert(frame.take(k - 1).push(frame[k - 1]) =~= frame.take(k));
        lemma_prefix_incomplete(payload, k);
    }
}

/// A frame that arrives byte by byte is handed out on its last byte,
/// with exactly the payload it carries, and leaves the reader as it was.
pub proof fn lemma_frame_on_last_byte(start: ReaderView, payload: Seq<u8>, at: spec_fn(int) -> nat)
    requires
        start.state == ReaderState::INCOMPLETE,
        start.frame.len() == 0,
        payload.len() <= MAX_DATA_SIZE,
    ensures
        start.drive(arrivals(frame_of(payload), at)) == (
            start,
            Some(Ok::<Seq<u8>, ReaderState>(payload)),
        ),
        forall|now: nat| #[trigger]
            start.read(now, arrivals(frame_of(payload), at)) == (
                start,
                Ok::<Seq<u8>, ReaderState>(payload),
            ),
{
    let frame = frame_of(payload);
    let polls = arrivals(frame, at);
    let n = frame.len() as int;
    lemma_frame_layout(payload);
    lemma_no_frame_before_last_byte(start, payload, at, n - 1);
    lemma_drive_push(start, polls.take(n - 1), polls[n - 1]);
    assert(polls.take(n - 1).push(polls[n - 1]) =~= polls);
    assert(frame.take(n - 1).push(frame[n - 1]) =~= frame);
    lemma_round_trip(payload);
    assert(ReaderView { frame: Seq::empty(), ..start } == start) by {
        assert(start.frame =~= Seq::<u8>::empty());
    }
}

/// What looks at the byte source lead to during a cooldown: the reader
/// keeps no bytes, hands out no frame, and is left cooling down or
/// broken.
pub proof fn lemma_drive_while_invalid(start: ReaderView, polls: Seq<(Polled, nat)>)
    requires
        start.state == ReaderState::INVALID,
    ensures
        start.drive(polls).0.frame == start.frame,
        start.drive(polls).0.state != ReaderState::INCOMPLETE,
        match start.drive(polls).1 {
            Some(reply) => reply == Err::<Seq<u8>, ReaderState>(start.drive(polls).0.state),
            None => start.drive(polls).0.state == ReaderState::INVALID,
        },
    decreases polls.len(),
{
    if polls.len() > 0 {
        let (next, out) = start.step(polls[0].0, polls[0].1);
        if out is None {
            lemma_drive_while_invalid(next, polls.drop_first());
        }
    }
}

/// While the cooldown runs, a read hands out no frame whatever arrives,
/// and the reader does not go back to collecting.
pub proof fn lemma_no_frame_while_cooling(start: ReaderView, now: nat, polls: Seq<(Polled, nat)>)
    requires
        start.cooling(now),
    ensures
        start.read(now, polls).1 == Err::<Seq<u8>, ReaderState>(start.read(now, polls).0.state),
        start.read(now, polls).0.state != ReaderState::INCOMPLETE,
{
    lemma_drive_while_invalid(start, polls);
}

/// Every byte that arrives during a cooldown is thrown away and starts
/// the cooldown afresh: after a run of bytes the reader still cools
/// down, counting from the last of them.
pub proof fn lemma_discard_restarts_cooldown(
    start: ReaderView,
    bytes: Seq<u8>,
    at: spec_fn(int) -> nat,
)
    requires
        start.state == ReaderState::INVALID,
        bytes.len() > 0,
    ensures
        start.drive(arrivals(bytes, at)) == (
            ReaderView { invalid_time: at(bytes.len() - 1), ..start },
            None::<Result<Seq<u8>, ReaderState>>,
        ),
    decreases bytes.len(),
{
    let polls = arrivals(bytes, at);
    let n = bytes.len() as int;
    let shorter = bytes.take(n - 1);
    assert(polls.take(n - 1) =~= arrivals(shorter, at));
    assert(polls.take(n - 1).push(polls[n - 1]) =~= polls);
    if n == 1 {
        assert(polls.take(0) =~= Seq::<(Polled, nat)>::empty());
    } else {
        lemma_discard_restarts_cooldown(start, shorter, at);
    }
    lemma_drive_push(start, polls.take(n - 1), polls[n - 1]);
}

/// After a run of bytes during a cooldown, the next read finds the
/// reader cooling down for as long as less than the cooldown has passed
/// since the last of the bytes, and collecting again from then on.
pub proof fn lemma_cooldown_counts_from_last_byte(
    start: ReaderView,
    bytes: Seq<u8>,
    at: spec_fn(int) -> nat,
    now: nat,
)
    requires
        start.state == ReaderState::INVALID,
        bytes.len() > 0,
    ensures
        start.drive(arrivals(bytes, at)).0.settle(now).state == (if now - at(bytes.len() - 1)
            < COOLDOWN_NANOS {
            ReaderState::INVALID
        } else {
            ReaderState::INCOMPLETE
        }),
{
    lemma_discard_restarts_cooldown(start, bytes, at);
}

/// Once the line has been quiet for the whole cooldown, the reader takes
/// frames again: a frame that arrives then is handed out.
pub proof fn lemma_frames_again_after_cooldown(
    start: ReaderView,
    now: nat,
    payload: Seq<u8>,
    at: spec_fn(int) -> nat,
)
    requires
        start.well_formed(),
        start.state == ReaderState::INVALID,
        now - start.invalid_time >= COOLDOWN_NANOS,
        payload.len() <= MAX_DATA_SIZE,
    ensures
        start.read(now, arrivals(frame_of(payload), at)) == (
            ReaderView { state: ReaderState::INCOMPLETE, ..start },
            Ok::<Seq<u8>, ReaderState>(payload),
        ),
{
    lemma_frame_on_last_byte(start.settle(now), payload, at);
}

/// A broken reader stays broken: whatever a read is given, it reports
/// `Broken` and changes nothing.
pub proof fn lemma_broken_is_absorbing(start: ReaderView, now: nat, polls: Seq<(Polled, nat)>)
    requires
        start.state == ReaderState::Broken,
    ensures
        start.read(now, polls) == (start, Err::<Seq<u8>, ReaderState>(ReaderState::Broken)),
        forall|polled: Polled, at: nat| #[trigger]
            start.step(polled, at) == (
                start,
                Some(Err::<Seq<u8>, ReaderState>(ReaderState::Broken)),
            ),
{
}

/// Nothing brings a broken reader back: after any number of reads,
/// whatever they see, it is as it was.
pub proof fn lemma_broken_forever(start: ReaderView, reads: Seq<(nat, Seq<(Polled, nat)>)>)
    requires
        start.state == ReaderState::Broken,
    ensures
        start.read_many(reads) == start,
    decreases reads.len(),
{
    if reads.len() > 0 {
        lemma_broken_is_absorbing(start, reads[0].0, reads[0].1);
        lemma_broken_forever(start, reads.drop_first());
    }
}

/// The cooldown in nanoseconds is the cooldown in seconds.
pub proof fn lemma_cooldown_in_seconds()
    ensures
        COOLDOWN_NANOS == INVALID_STATE_COOLDOWN * 1_000_000_000,
{
}

/// Every read keeps a reader well formed.
pub proof fn lemma_read_keeps_well_formed(start: ReaderView, now: nat, polls: Seq<(Polled, nat)>)
    requires
        start.well_formed(),
    ensures
        start.read(now, polls).0.well_formed(),
{
    lemma_drive_keeps_well_formed(start.settle(now), polls);
}

/// Every look at the byte source keeps a reader well formed.
pub proof fn lemma_drive_keeps_well_formed(start: ReaderView, polls: Seq<(Polled, nat)>)
    requires
        start.well_formed(),
    ensures
        start.drive(polls).0.well_formed(),
    decreases polls.len(),
{
    if polls.len() > 0 {
        let (next, out) = start.step(polls[0].0, polls[0].1);
        if out is None {
            lemma_drive_keeps_well_formed(next, polls.drop_first());
        }
    }
}

} // verus!

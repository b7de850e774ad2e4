//! Frames of a length that is known beforehand, read from a port piece by
//! piece.
use crate::port_reader::ReadOutcome;
use vstd::prelude::*;

verus! {

/// Why a read did not complete a frame.
#[derive(Debug, Clone, Copy, PartialEq, Eq, Structural)]
pub enum DynReadError {
    /// The frame isn't complete: more bytes have to come.
    WouldBlock,
    /// The port failed, or claimed more bytes than it was asked for.
    Failed,
}

/// A reader as a plain value: the bytes of the frame, and how many of
/// them have arrived.
pub struct DynReaderView {
    /// The bytes of the frame; the ones that have not arrived yet are
    /// whatever the buffer holds.
    pub data: Seq<u8>,
    /// How many bytes of the frame have arrived.
    pub offset: nat,
}

impl DynReaderView {
    /// The length of the frames that are read.
    pub open spec fn size(self) -> nat {
        self.data.len()
    }

    /// What every reader keeps true: no more has arrived than a frame
    /// holds.
    pub open spec fn well_formed(self) -> bool {
        self.offset <= self.data.len()
    }

    /// A reader for frames of `size` bytes, of which none has arrived.
    pub open spec fn target(size: nat) -> DynReaderView {
        DynReaderView { data: Seq::new(size, |i: int| 0u8), offset: 0 }
    }

    /// The reader after a read that ended as `outcome` says, and what the
    /// read returns: the whole frame once its last byte is there.
    pub open spec fn absorb(self, outcome: ReadOutcome) -> (
        DynReaderView,
        Result<Seq<u8>, DynReadError>,
    ) {
        match outcome {
            ReadOutcome::Data(len) => if self.offset + len > self.size() {
                (self, Err(DynReadError::Failed))
            } else if self.offset + len == self.size() {
                (DynReaderView { offset: 0, ..self }, Ok(self.data))
            } else {
                (
                    DynReaderView { offset: self.offset + len as nat, ..self },
                    Err(DynReadError::WouldBlock),
                )
            },
            ReadOutcome::TimedOut => (self, Err(DynReadError::WouldBlock)),
            ReadOutcome::WouldBlock => (self, Err(DynReadError::WouldBlock)),
            ReadOutcome::Failed => (self, Err(DynReadError::Failed)),
        }
    }
}

/// Collects the bytes of one frame of a set length over as many reads as
/// it takes.
///
/// The port itself stays with the caller: it reads into
/// [`DynReader::window`] and tells [`DynReader::try_read_frame`] how the
/// read ended.
#[derive(Debug)]
pub struct DynReader {
    data: Vec<u8>,
    size: usize,
    offset: usize,
}

impl View for DynReader {
    type V = DynReaderView;

    closed spec fn view(&self) -> DynReaderView {
        DynReaderView { data: self.data@, offset: self.offset as nat }
    }
}

impl DynReader {
    /// Holds of every value this type's functions hand out.
    pub closed spec fn wf(&self) -> bool {
        &&& self@.well_formed()
        &&& self.size == self.data@.len()
    }

    /// A reader for frames of no bytes.
    pub fn new() -> (reader: Self)
        ensures
            reader.wf(),
            reader@ == DynReaderView::target(0),
    {
        let reader = DynReader { data: Vec::new(), size: 0, offset: 0 };
        assert(reader@.data == DynReaderView::target(0).data);
        reader
    }

    /// Sets the length of the frames to read and forgets what has arrived.
    pub fn set_new_target_size(&mut self, size: usize)
        ensures
            final(self).wf(),
            final(self)@ == DynReaderView::target(size as nat),
    {
        self.data.clear();
        self.data.resize(size, 0);
        self.size = size;
        self.offset = 0;
        assert(self@.data == DynReaderView::target(size as nat).data);
    }

    /// Where the next read puts its bytes: the part of the frame that has
    /// not arrived yet.
    pub fn window(&mut self) -> (window: &mut [u8])
        requires
            old(self).wf(),
        ensures
            window@ == old(self)@.data.skip(old(self)@.offset as int),
            final(window)@.len() == window@.len() ==> final(self).wf(),
            final(self)@.offset == old(self)@.offset,
            final(self)@.data == old(self)@.data.take(old(self)@.offset as int) + final(window)@,
    {
        let (_, rest) = self.data.as_mut_slice().split_at_mut(self.offset);
        rest
    }

    /// Takes in what a read into the window gave.
    pub fn try_read_frame(&mut self, outcome: ReadOutcome) -> (res: Result<Vec<u8>, DynReadError>)
        requires
            old(self).wf(),
        ensures
            final(self).wf(),
            final(self)@ == old(self)@.absorb(outcome).0,
            match old(self)@.absorb(outcome).1 {
                Ok(frame) => res matches Ok(f) && f@ == frame,
                Err(e) => res matches Err(r) && r == e,
            },
    {
        match outcome {
            ReadOutcome::Data(len) => {
                if len > self.size - self.offset {
                    Err(DynReadError::Failed)
                } else {
                    self.offset = self.offset + len;
                    if self.offset == self.size {
                        self.offset = 0;
                        Ok(self.data.clone())
                    } else {
                        Err(DynReadError::WouldBlock)
                    }
                }
            },
            ReadOutcome::TimedOut => Err(DynReadError::WouldBlock),
            ReadOutcome::WouldBlock => Err(DynReadError::WouldBlock),
            ReadOutcome::Failed => Err(DynReadError::Failed),
        }
    }
}

} // verus!

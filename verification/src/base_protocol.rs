//! The outer framing layer of the link.
//!
//! A frame wraps one payload for transport over a byte stream:
//!
//! ```text
//! [preamble: u16 = 0xABCD][length: u32][payload: length bytes][trailer: u16 = 0x1234]
//! ```
//!
//! All three fixed-width fields are big-endian. A frame is at most
//! [`MAX_FRAME_SIZE`] bytes long, so a payload is at most [`MAX_DATA_SIZE`].
use vstd::prelude::*;

verus! {

/// Seconds of silence on the line before parsing resumes after a bad frame.
pub const INVALID_STATE_COOLDOWN: usize = 2;

/// The two bytes every frame starts with.
pub const FRAME_PREAMBLE: u16 = 0xabcd;

/// The two bytes every frame ends with.
pub const FRAME_TRAILING: u16 = 0x1234;

/// Bytes of framing around a payload: preamble, length and trailer.
pub const FRAME_INFO_SIZE: usize = 8;

/// The longest frame, framing included.
pub const MAX_FRAME_SIZE: usize = 1024;

/// The longest payload a frame can carry.
pub const MAX_DATA_SIZE: usize = MAX_FRAME_SIZE - FRAME_INFO_SIZE;

/// Why a byte sequence did not yield a frame.
#[allow(non_camel_case_types)]
#[derive(Debug, Clone, Copy, PartialEq, Eq, Structural)]
pub enum BaseProtocolLayerError {
    /// Nothing wrong so far, but the frame has not fully arrived.
    INCOMPLETE,
    /// The bytes cannot be the start of any frame.
    INVALID,
}

/// Why a payload could not be framed.
#[derive(Debug, Clone, Copy, PartialEq, Eq, Structural)]
pub enum EncodeError {
    /// The payload is longer than [`MAX_DATA_SIZE`], or the destination is
    /// not exactly as long as the frame.
    TooLarge,
}

/// The framing layer. It has no state: every function works on the bytes
/// it is given.
pub struct BaseProtocolLayer;

/// The value of two bytes read as a big-endian `u16`.
pub open spec fn be16(hi: u8, lo: u8) -> int {
    hi * 0x100 + lo
}

/// The value of four bytes read as a big-endian `u32`.
pub open spec fn be32(b0: u8, b1: u8, b2: u8, b3: u8) -> int {
    b0 * 0x100_0000 + b1 * 0x1_0000 + b2 * 0x100 + b3
}

/// The four bytes of a length field, most significant first.
pub open spec fn length_bytes(len: nat) -> Seq<u8> {
    seq![
        ((len / 0x100_0000) % 0x100) as u8,
        ((len / 0x1_0000) % 0x100) as u8,
        ((len / 0x100) % 0x100) as u8,
        (len % 0x100) as u8,
    ]
}

/// The frame that carries `payload`.
pub open spec fn frame_of(payload: Seq<u8>) -> Seq<u8> {
    seq![0xabu8, 0xcdu8] + length_bytes(payload.len()) + payload + seq![0x12u8, 0x34u8]
}

/// The length field of a byte sequence that holds at least a frame header.
pub open spec fn length_field(bytes: Seq<u8>) -> int {
    be32(bytes[2], bytes[3], bytes[4], bytes[5])
}

/// What the bytes received so far amount to: a payload together with the
/// number of bytes its frame occupies, or the reason there is none yet.
///
/// Fewer than eight bytes decide nothing. After that the preamble, the
/// length and, once the whole frame is there, the trailer are checked in
/// this order. Bytes after the trailer are not looked at.
pub open spec fn decode(bytes: Seq<u8>) -> Result<(Seq<u8>, nat), BaseProtocolLayerError> {
    if bytes.len() < FRAME_INFO_SIZE {
        Err(BaseProtocolLayerError::INCOMPLETE)
    } else if be16(bytes[0], bytes[1]) != FRAME_PREAMBLE {
        Err(BaseProtocolLayerError::INVALID)
    } else if length_field(bytes) > MAX_DATA_SIZE {
        Err(BaseProtocolLayerError::INVALID)
    } else if bytes.len() < FRAME_INFO_SIZE + length_field(bytes) {
        Err(BaseProtocolLayerError::INCOMPLETE)
    } else if be16(bytes[6 + length_field(bytes)], bytes[7 + length_field(bytes)])
        != FRAME_TRAILING {
        Err(BaseProtocolLayerError::INVALID)
    } else {
        Ok(
            (
                bytes.subrange(6, 6 + length_field(bytes)),
                (FRAME_INFO_SIZE + length_field(bytes)) as nat,
            ),
        )
    }
}

/// The part of a frame-sized buffer that is left for the payload.
pub open spec fn payload_region(buffer: Seq<u8>) -> Option<Seq<u8>> {
    if buffer.len() < FRAME_INFO_SIZE {
        None
    } else {
        Some(buffer.subrange(6, buffer.len() - 2))
    }
}

impl BaseProtocolLayer {
    /// Reads one frame from the front of `slice`.
    ///
    /// On success the payload is handed out together with the number of
    /// bytes the frame took; whatever follows in `slice` is left alone.
    pub fn from_slice(slice: &[u8]) -> (res: Result<(&[u8], usize), BaseProtocolLayerError>)
        ensures
            match decode(slice@) {
                Ok((payload, consumed)) => res matches Ok((p, n)) && p@ == payload && n
                    == consumed,
                Err(e) => res matches Err(r) && r == e,
            },
    {
        if slice.len() < FRAME_INFO_SIZE {
            return Err(BaseProtocolLayerError::INCOMPLETE);
        }
        let preamble: u16 = (slice[0] as u16) * 0x100 + (slice[1] as u16);
        if preamble != FRAME_PREAMBLE {
            return Err(BaseProtocolLayerError::INVALID);
        }
        let size: u32 = (slice[2] as u32) * 0x100_0000 + (slice[3] as u32) * 0x1_0000 + (
        slice[4] as u32) * 0x100 + (slice[5] as u32);
        if size > MAX_DATA_SIZE as u32 {
            return Err(BaseProtocolLayerError::INVALID);
        }
        let size: usize = size as usize;
        if slice.len() < FRAME_INFO_SIZE + size {
            return Err(BaseProtocolLayerError::INCOMPLETE);
        }
        let trailer: u16 = (slice[6 + size] as u16) * 0x100 + (slice[7 + size] as u16);
        if trailer != FRAME_TRAILING {
            return Err(BaseProtocolLayerError::INVALID);
        }
        Ok((&slice[6..6 + size], FRAME_INFO_SIZE + size))
    }

    /// Writes the frame that carries `payload` into `dest`.
    ///
    /// `dest` must be exactly as long as the frame. Where it is not, or
    /// the payload is too long for any frame, nothing is written.
    pub fn into_frame(dest: &mut [u8], payload: &[u8]) -> (res: Result<(), EncodeError>)
        ensures
            res is Ok <==> payload@.len() <= MAX_DATA_SIZE && old(dest)@.len() == FRAME_INFO_SIZE
                + payload@.len(),
            res is Ok ==> final(dest)@ == frame_of(payload@),
            res is Err ==> final(dest)@ == old(dest)@,
            res is Err ==> res == Err::<(), EncodeError>(EncodeError::TooLarge),
    {
        let len: usize = payload.len();
        if len > MAX_DATA_SIZE || dest.len() != FRAME_INFO_SIZE + len {
            return Err(EncodeError::TooLarge);
        }
        dest[0] = 0xab;
        dest[1] = 0xcd;
        dest[2] = ((len / 0x100_0000) % 0x100) as u8;
        dest[3] = ((len / 0x1_0000) % 0x100) as u8;
        dest[4] = ((len / 0x100) % 0x100) as u8;
        dest[5] = (len % 0x100) as u8;
        let mut i: usize = 0;
        while i < len
            invariant
                i <= len,
                len == payload@.len(),
                len <= MAX_DATA_SIZE,
                dest@.len() == FRAME_INFO_SIZE + len,
                dest@.subrange(0, 6) == seq![0xabu8, 0xcdu8] + length_bytes(len as nat),
                forall|j: int| 0 <= j < i ==> dest@[6 + j] == payload@[j],
            decreases len - i,
        {
            let ghost before = dest@;
            dest[6 + i] = payload[i];
            assert(dest@.subrange(0, 6) == before.subrange(0, 6));
            i += 1;
        }
        let ghost before = dest@;
        dest[6 + len] = 0x12;
        dest[7 + len] = 0x34;
        assert(dest@.subrange(0, 6) == before.subrange(0, 6));
        assert(dest@ == frame_of(payload@));
        Ok(())
    }

    /// The part of a frame-sized buffer between the header and the
    /// trailer, or `None` where the buffer is too short to hold a frame.
    pub fn reserve_header(slice: &[u8]) -> (res: Option<&[u8]>)
        ensures
            match payload_region(slice@) {
                Some(region) => res matches Some(r) && r@ == region,
                None => res is None,
            },
    {
        if slice.len() < FRAME_INFO_SIZE {
            None
        } else {
            Some(&slice[6..slice.len() - 2])
        }
    }

    /// The number of bytes the framing adds to a payload.
    pub fn get_reserve_size() -> (size: usize)
        ensures
            size == FRAME_INFO_SIZE,
    {
        FRAME_INFO_SIZE
    }
}

/// Reading back the four bytes of a length field gives the length.
pub proof fn lemma_length_bytes(len: nat)
    requires
        len <= u32::MAX,
    ensures
        length_bytes(len).len() == 4,
        be32(
            length_bytes(len)[0],
            length_bytes(len)[1],
            length_bytes(len)[2],
            length_bytes(len)[3],
        ) == len,
{
}

/// The layout of a frame, byte by byte.
pub proof fn lemma_frame_layout(payload: Seq<u8>)
    requires
        payload.len() <= MAX_DATA_SIZE,
    ensures
        frame_of(payload).len() == FRAME_INFO_SIZE + payload.len(),
        frame_of(payload)[0] == 0xab,
        frame_of(payload)[1] == 0xcd,
        length_field(frame_of(payload)) == payload.len(),
        frame_of(payload).subrange(6, 6 + payload.len() as int) == payload,
        frame_of(payload)[6 + payload.len() as int] == 0x12,
        frame_of(payload)[7 + payload.len() as int] == 0x34,
{
    lemma_length_bytes(payload.len());
}

/// A frame decodes to the payload it was made from, and takes up exactly
/// its own length.
pub proof fn lemma_round_trip(payload: Seq<u8>)
    requires
        payload.len() <= MAX_DATA_SIZE,
    ensures
        decode(frame_of(payload)) == Ok::<(Seq<u8>, nat), BaseProtocolLayerError>(
            (payload, (FRAME_INFO_SIZE + payload.len()) as nat),
        ),
{
    lemma_frame_layout(payload);
}

/// Bytes that follow a frame do not change what is decoded from it.
pub proof fn lemma_no_over_read(payload: Seq<u8>, rest: Seq<u8>)
    requires
        payload.len() <= MAX_DATA_SIZE,
    ensures
        decode(frame_of(payload) + rest) == decode(frame_of(payload)),
{
    lemma_frame_layout(payload);
    let whole = frame_of(payload) + rest;
    assert(whole.subrange(6, 6 + payload.len() as int) == payload);
}

/// While a frame is still arriving, every proper prefix of it is
/// incomplete: no frame shows up before the last byte.
pub proof fn lemma_prefix_incomplete(payload: Seq<u8>, k: int)
    requires
        payload.len() <= MAX_DATA_SIZE,
        0 <= k < FRAME_INFO_SIZE + payload.len(),
    ensures
        decode(frame_of(payload).take(k)) == Err::<(Seq<u8>, nat), BaseProtocolLayerError>(
            BaseProtocolLayerError::INCOMPLETE,
        ),
{
    lemma_frame_layout(payload);
}

/// Whatever decodes successfully starts with the frame of the payload
/// that came out, and that frame is what was consumed.
pub proof fn lemma_decoded_is_frame(bytes: Seq<u8>)
    requires
        decode(bytes) is Ok,
    ensures
        decode(bytes)->Ok_0.0.len() <= MAX_DATA_SIZE,
        decode(bytes)->Ok_0.1 == FRAME_INFO_SIZE + decode(bytes)->Ok_0.0.len(),
        decode(bytes)->Ok_0.1 <= bytes.len(),
        bytes.take(decode(bytes)->Ok_0.1 as int) == frame_of(decode(bytes)->Ok_0.0),
{
    let payload = decode(bytes)->Ok_0.0;
    let n = decode(bytes)->Ok_0.1 as int;
    lemma_frame_layout(payload);
    lemma_length_bytes(payload.len());
    let head = bytes.take(n);
    let frame = frame_of(payload);
    assert(head.len() == frame.len());
    assert forall|i: int| 0 <= i < n implies head[i] == frame[i] by {
        if 6 <= i < 6 + payload.len() {
            assert(frame[i] == frame.subrange(6, 6 + payload.len() as int)[i - 6]);
        }
    }
    assert(head =~= frame);
}

/// A byte sequence that is still incomplete is shorter than the longest
/// frame: a reader that stops at the first other verdict never holds more.
pub proof fn lemma_incomplete_is_short(bytes: Seq<u8>)
    requires
        decode(bytes) == Err::<(Seq<u8>, nat), BaseProtocolLayerError>(
            BaseProtocolLayerError::INCOMPLETE,
        ),
    ensures
        bytes.len() < MAX_FRAME_SIZE,
{
}

} // verus!

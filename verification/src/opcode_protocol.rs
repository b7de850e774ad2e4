//! The operation tag that rides on top of a frame's payload.
//!
//! An opcode-framed payload starts with a two-byte tag, least significant
//! byte first, and the rest is the inner payload:
//!
//! ```text
//! [opcode: u16, little-endian][inner payload]
//! ```
//!
//! The tag is little-endian although the length field of the frame around
//! it is big-endian; both are part of the wire format.
use vstd::prelude::*;

verus! {

/// Bytes taken by the tag in front of the inner payload.
pub const OPCODE_HEADER_SIZE: usize = 2;

/// How the payload of a frame is to be handled.
#[allow(non_camel_case_types)]
#[derive(Debug, Clone, Copy, PartialEq, Eq, Structural)]
pub enum OpCode {
    /// Tag 0, and what every unassigned tag is read as.
    INVALID,
    /// Tag 1: text to show as it is.
    ECHO,
    /// Tag 2: one encoded log frame.
    LOG,
    /// Tag 0xFFFF: the peer asks the sender to hold off.
    JAM,
}

/// The opcode a tag is assigned to, if any.
pub open spec fn opcode_of_tag(tag: u16) -> Option<OpCode> {
    if tag == 0 {
        Some(OpCode::INVALID)
    } else if tag == 1 {
        Some(OpCode::ECHO)
    } else if tag == 2 {
        Some(OpCode::LOG)
    } else if tag == 0xffff {
        Some(OpCode::JAM)
    } else {
        None
    }
}

/// What an opcode-framed payload splits into: the opcode and the inner
/// payload. Fewer than two bytes hold no tag; a tag that is not assigned
/// reads as [`OpCode::INVALID`] and still takes its two bytes.
pub open spec fn split_opcode(bytes: Seq<u8>) -> Option<(OpCode, Seq<u8>)> {
    if bytes.len() < OPCODE_HEADER_SIZE {
        None
    } else {
        let tag = (bytes[0] + bytes[1] * 0x100) as u16;
        let rest = bytes.subrange(2, bytes.len() as int);
        match opcode_of_tag(tag) {
            Some(code) => Some((code, rest)),
            None => Some((OpCode::INVALID, rest)),
        }
    }
}

impl OpCode {
    /// The number that stands for this opcode on the wire.
    pub open spec fn tag(self) -> u16 {
        match self {
            OpCode::INVALID => 0,
            OpCode::ECHO => 1,
            OpCode::LOG => 2,
            OpCode::JAM => 0xffff,
        }
    }

    /// The two bytes of this opcode's tag, least significant first.
    pub open spec fn wire(self) -> Seq<u8> {
        seq![(self.tag() % 0x100) as u8, (self.tag() / 0x100) as u8]
    }

    /// The number that stands for this opcode on the wire.
    pub fn to_tag(self) -> (tag: u16)
        ensures
            tag == self.tag(),
    {
        match self {
            OpCode::INVALID => 0,
            OpCode::ECHO => 1,
            OpCode::LOG => 2,
            OpCode::JAM => 0xffff,
        }
    }

    /// The opcode that `tag` is assigned to, or `Err` where it is assigned
    /// to none.
    pub fn from_tag(tag: u16) -> (res: Result<OpCode, ()>)
        ensures
            match opcode_of_tag(tag) {
                Some(code) => res == Ok::<OpCode, ()>(code),
                None => res == Err::<OpCode, ()>(()),
            },
    {
        if tag == 0 {
            Ok(OpCode::INVALID)
        } else if tag == 1 {
            Ok(OpCode::ECHO)
        } else if tag == 2 {
            Ok(OpCode::LOG)
        } else if tag == 0xffff {
            Ok(OpCode::JAM)
        } else {
            Err(())
        }
    }

    /// The two bytes that go in front of an inner payload.
    pub fn encode(self) -> (bytes: [u8; 2])
        ensures
            bytes@ == self.wire(),
    {
        let tag: u16 = self.to_tag();
        [(tag % 0x100) as u8, (tag / 0x100) as u8]
    }

    /// Splits an opcode-framed payload into its opcode and the inner
    /// payload. `None` means only that the tag has not fully arrived.
    pub fn from_slice(slice: &[u8]) -> (res: Option<(OpCode, &[u8])>)
        ensures
            match split_opcode(slice@) {
                Some((code, rest)) => res matches Some((c, r)) && c == code && r@ == rest,
                None => res is None,
            },
    {
        if slice.len() < OPCODE_HEADER_SIZE {
            None
        } else {
            let tag: u16 = (slice[0] as u16) + (slice[1] as u16) * 0x100;
            let rest = &slice[2..slice.len()];
            match OpCode::from_tag(tag) {
                Ok(code) => Some((code, rest)),
                Err(_) => Some((OpCode::INVALID, rest)),
            }
        }
    }
}

impl core::convert::TryFrom<u16> for OpCode {
    type Error = ();

    /// The opcode that `tag` is assigned to, or `Err` where it is assigned
    /// to none.
    fn try_from(tag: u16) -> (res: Result<OpCode, ()>) {
        OpCode::from_tag(tag)
    }
}

impl vstd::std_specs::convert::TryFromSpecImpl<u16> for OpCode {
    open spec fn obeys_try_from_spec() -> bool {
        true
    }

    open spec fn try_from_spec(tag: u16) -> Result<OpCode, ()> {
        match opcode_of_tag(tag) {
            Some(code) => Ok(code),
            None => Err(()),
        }
    }
}

impl core::convert::From<OpCode> for u16 {
    /// The number that stands for `code` on the wire.
    fn from(code: OpCode) -> (tag: u16) {
        code.to_tag()
    }
}

impl vstd::std_specs::convert::FromSpecImpl<OpCode> for u16 {
    open spec fn obeys_from_spec() -> bool {
        true
    }

    open spec fn from_spec(code: OpCode) -> u16 {
        code.tag()
    }
}

/// Every opcode is found again from its own tag.
pub proof fn lemma_tag_round_trip(code: OpCode)
    ensures
        opcode_of_tag(code.tag()) == Some(code),
{
}

/// An inner payload behind an opcode's two bytes splits back into that
/// opcode and that payload.
pub proof fn lemma_split_round_trip(code: OpCode, inner: Seq<u8>)
    ensures
        split_opcode(code.wire() + inner) == Some((code, inner)),
{
    let bytes = code.wire() + inner;
    assert(bytes.subrange(2, bytes.len() as int) == inner);
}

} // verus!

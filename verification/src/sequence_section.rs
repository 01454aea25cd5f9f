//! The sequences-section header: sequence count and compression modes.

use vstd::prelude::*;

verus! {

use crate::errors::DecodeError;

/// The parsed header of a block's sequences section.
pub struct SequencesHeader {
    pub num_sequences: u32,
    pub modes: Option<CompressionModes>,
}

/// One decoded sequence: emit `ll` literals, then copy `ml` bytes from the
/// offset that `of` resolves to through the repeat-offset history.
#[derive(Clone, Copy, Debug, PartialEq, Eq, Structural)]
pub struct Sequence {
    pub ll: u32,
    pub ml: u32,
    pub of: u32,
}

/// The modes byte: three 2-bit fields, literal lengths in bits 7:6, offsets
/// in 5:4, match lengths in 3:2; bits 1:0 are reserved and must be zero.
#[derive(Clone, Copy, Debug, PartialEq, Eq, Structural)]
pub struct CompressionModes(pub u8);

/// How one of the three FSE tables is described.
#[derive(Clone, Copy, Debug, PartialEq, Eq, Structural)]
pub enum ModeType {
    Predefined,
    RLE,
    FSECompressed,
    Repeat,
}

/// The mode a 2-bit field value selects.
pub open spec fn spec_decode_mode(m: u8) -> ModeType {
    if m == 0 {
        ModeType::Predefined
    } else if m == 1 {
        ModeType::RLE
    } else if m == 2 {
        ModeType::FSECompressed
    } else {
        ModeType::Repeat
    }
}

impl CompressionModes {
    pub fn decode_mode(m: u8) -> (r: ModeType)
        requires
            m <= 3,
        ensures
            r == spec_decode_mode(m),
    {
        match m {
            0 => ModeType::Predefined,
            1 => ModeType::RLE,
            2 => ModeType::FSECompressed,
            _ => ModeType::Repeat,
        }
    }

    pub fn ll_mode(&self) -> (r: ModeType)
        ensures
            r == spec_decode_mode((self.0 >> 6) as u8),
    {
        let m = self.0;
        proof {
            assert(m >> 6 <= 3) by (bit_vector);
        }
        Self::decode_mode(m >> 6)
    }

    pub fn of_mode(&self) -> (r: ModeType)
        ensures
            r == spec_decode_mode(((self.0 >> 4) & 0x3) as u8),
    {
        let m = self.0;
        proof {
            assert((m >> 4) & 0x3 <= 3) by (bit_vector);
        }
        Self::decode_mode((m >> 4) & 0x3)
    }

    pub fn ml_mode(&self) -> (r: ModeType)
        ensures
            r == spec_decode_mode(((self.0 >> 2) & 0x3) as u8),
    {
        let m = self.0;
        proof {
            assert((m >> 2) & 0x3 <= 3) by (bit_vector);
        }
        Self::decode_mode((m >> 2) & 0x3)
    }
}

impl SequencesHeader {
    pub fn new() -> (r: SequencesHeader)
        ensures
            r.num_sequences == 0,
            r.modes is None,
    {
        SequencesHeader { num_sequences: 0, modes: None }
    }

    /// Parses the sequence count (1 to 3 bytes) and, when sequences are
    /// present, the modes byte. Returns the bytes consumed.
    pub fn parse_from_header(&mut self, source: &[u8]) -> (r: Result<u8, DecodeError>)
        ensures
            source@.len() == 0 ==> r == Err::<u8, DecodeError>(DecodeError::InputTruncated),
            source@.len() >= 1 && source@[0] == 0 ==> r == Ok::<u8, DecodeError>(1u8) && final(self).num_sequences == 0 && final(self).modes is None,
            source@.len() >= 2 && 1 <= source@[0] <= 127 && source@[1] & 3 == 0 ==> r == Ok::<
                u8,
                DecodeError,
            >(2u8) && final(self).num_sequences == source@[0] && final(self).modes == Some(
                CompressionModes(source@[1]),
            ),
            source@.len() >= 3 && 128 <= source@[0] <= 254 && source@[2] & 3 == 0 ==> r == Ok::<
                u8,
                DecodeError,
            >(3u8) && final(self).num_sequences == (source@[0] - 128) * 256 + source@[1] && final(self).modes == Some(CompressionModes(source@[2])),
            source@.len() >= 4 && source@[0] == 255 && source@[3] & 3 == 0 ==> r == Ok::<
                u8,
                DecodeError,
            >(4u8) && final(self).num_sequences == source@[1] + source@[2] * 256 + 0x7F00 && final(self).modes == Some(CompressionModes(source@[3])),
            source@.len() >= 2 && 1 <= source@[0] <= 127 && source@[1] & 3 != 0 ==> r == Err::<
                u8,
                DecodeError,
            >(DecodeError::MalformedHeader),
            source@.len() >= 3 && 128 <= source@[0] <= 254 && source@[2] & 3 != 0 ==> r == Err::<
                u8,
                DecodeError,
            >(DecodeError::MalformedHeader),
            source@.len() >= 4 && source@[0] == 255 && source@[3] & 3 != 0 ==> r == Err::<
                u8,
                DecodeError,
            >(DecodeError::MalformedHeader),
    {
        if source.len() == 0 {
            return Err(DecodeError::InputTruncated);
        }
        let b0 = source[0];
        if b0 == 0 {
            self.num_sequences = 0;
            self.modes = None;
            return Ok(1);
        }
        let count_bytes: usize = if b0 <= 127 {
            1
        } else if b0 <= 254 {
            2
        } else {
            3
        };
        if source.len() < count_bytes + 1 {
            return Err(DecodeError::InputTruncated);
        }
        if b0 <= 127 {
            self.num_sequences = b0 as u32;
        } else if b0 <= 254 {
            let x: u32 = (b0 - 128) as u32;
            proof {
                assert(x << 8u32 == x * 256) by (bit_vector)
                    requires
                        x < 256u32,
                ;
            }
            self.num_sequences = (x << 8) + source[1] as u32;
        } else {
            let x: u32 = source[2] as u32;
            proof {
                assert(x << 8u32 == x * 256) by (bit_vector)
                    requires
                        x < 256u32,
                ;
            }
            self.num_sequences = source[1] as u32 + (x << 8) + 0x7F00;
        }
        let modes_byte = source[count_bytes];
        if modes_byte & 3 != 0 {
            // the two lowest bits of the modes byte are reserved
            return Err(DecodeError::MalformedHeader);
        }
        self.modes = Some(CompressionModes(modes_byte));
        Ok((count_bytes + 1) as u8)
    }
}

} // verus!

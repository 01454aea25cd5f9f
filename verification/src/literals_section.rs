//! The literals-section header: type, sizes, stream count.

use vstd::prelude::*;

verus! {

use crate::errors::DecodeError;

/// How a literals section stores its bytes.
#[derive(Clone, Copy, Debug, PartialEq, Eq, Structural)]
pub enum LiteralsSectionType {
    Raw,
    RLE,
    Compressed,
    Treeless,
}

/// The parsed header of a block's literals section.
pub struct LiteralsSection {
    pub regenerated_size: u32,
    pub compressed_size: Option<u32>,
    pub num_streams: Option<u8>,
    pub ls_type: LiteralsSectionType,
}

/// The section type encoded in the header's two lowest bits.
pub open spec fn spec_ls_type(b: u8) -> LiteralsSectionType {
    let t = b & 3;
    if t == 0 {
        LiteralsSectionType::Raw
    } else if t == 1 {
        LiteralsSectionType::RLE
    } else if t == 2 {
        LiteralsSectionType::Compressed
    } else {
        LiteralsSectionType::Treeless
    }
}

/// The size format encoded in header bits 3:2.
pub open spec fn spec_size_format(b: u8) -> u8 {
    (b >> 2) & 3
}

/// Whether the type keeps the literals entropy-coded.
pub open spec fn is_entropy_type(t: LiteralsSectionType) -> bool {
    t == LiteralsSectionType::Compressed || t == LiteralsSectionType::Treeless
}

/// How many header bytes a given first byte announces.
pub open spec fn spec_header_len(b: u8) -> int {
    if is_entropy_type(spec_ls_type(b)) {
        if spec_size_format(b) == 0 || spec_size_format(b) == 1 {
            3
        } else if spec_size_format(b) == 2 {
            4
        } else {
            5
        }
    } else {
        if spec_size_format(b) == 0 || spec_size_format(b) == 2 {
            1
        } else if spec_size_format(b) == 1 {
            2
        } else {
            3
        }
    }
}

/// The regenerated size the header announces.
pub open spec fn spec_regenerated_size(s: Seq<u8>) -> int {
    let b = s[0];
    if is_entropy_type(spec_ls_type(b)) {
        if spec_size_format(b) == 0 || spec_size_format(b) == 1 {
            (b >> 4) + (s[1] & 0x3F) * 0x10
        } else if spec_size_format(b) == 2 {
            (b >> 4) + s[1] * 0x10 + (s[2] & 0x3) * 0x1000
        } else {
            (b >> 4) + s[1] * 0x10 + (s[2] & 0x3F) * 0x1000
        }
    } else {
        if spec_size_format(b) == 0 || spec_size_format(b) == 2 {
            (b >> 3) as int
        } else if spec_size_format(b) == 1 {
            (b >> 4) + s[1] * 0x10
        } else {
            (b >> 4) + s[1] * 0x10 + s[2] * 0x1000
        }
    }
}

/// The compressed size the header announces, for the entropy-coded types.
pub open spec fn spec_compressed_size(s: Seq<u8>) -> int {
    let b = s[0];
    if spec_size_format(b) == 0 || spec_size_format(b) == 1 {
        (s[1] >> 6) + s[2] * 4
    } else if spec_size_format(b) == 2 {
        (s[2] >> 2) + s[3] * 0x40
    } else {
        (s[2] >> 6) + s[3] * 4 + s[4] * 0x400
    }
}

impl LiteralsSection {
    pub fn new() -> (r: LiteralsSection)
        ensures
            r.regenerated_size == 0,
            r.compressed_size is None,
            r.num_streams is None,
            r.ls_type == LiteralsSectionType::Raw,
    {
        LiteralsSection {
            regenerated_size: 0,
            compressed_size: None,
            num_streams: None,
            ls_type: LiteralsSectionType::Raw,
        }
    }

    /// Parses the 1-to-5-byte literals header. Returns the bytes consumed.
    pub fn parse_from_header(&mut self, raw: &[u8]) -> (r: Result<u8, DecodeError>)
        ensures
            raw@.len() == 0 ==> r == Err::<u8, DecodeError>(DecodeError::InputTruncated),
            raw@.len() >= 1 && raw@.len() < spec_header_len(raw@[0]) ==> r == Err::<
                u8,
                DecodeError,
            >(DecodeError::InputTruncated),
            raw@.len() >= 1 && raw@.len() >= spec_header_len(raw@[0]) ==> {
                &&& r == Ok::<u8, DecodeError>(spec_header_len(raw@[0]) as u8)
                &&& final(self).ls_type == spec_ls_type(raw@[0])
                &&& final(self).regenerated_size == spec_regenerated_size(raw@)
                &&& (is_entropy_type(spec_ls_type(raw@[0])) ==> {
                    &&& final(self).compressed_size == Some(spec_compressed_size(raw@) as u32)
                    &&& final(self).num_streams == Some(
                        if spec_size_format(raw@[0]) == 0 {
                            1u8
                        } else {
                            4u8
                        },
                    )
                })
                &&& (!is_entropy_type(spec_ls_type(raw@[0])) ==> final(self).compressed_size
                    is None && final(self).num_streams is None)
            },
    {
        if raw.len() == 0 {
            return Err(DecodeError::InputTruncated);
        }
        let b0 = raw[0];
        let t = b0 & 3;
        let sf = (b0 >> 2) & 3;
        proof {
            assert(b0 & 3 <= 3) by (bit_vector);
            assert((b0 >> 2) & 3 <= 3) by (bit_vector);
            assert(b0 >> 3 < 32) by (bit_vector);
            assert(b0 >> 4 < 16) by (bit_vector);
        }
        if t == 0 || t == 1 {
            // Raw or RLE
            self.ls_type = if t == 0 {
                LiteralsSectionType::Raw
            } else {
                LiteralsSectionType::RLE
            };
            self.compressed_size = None;
            self.num_streams = None;
            if sf == 0 || sf == 2 {
                self.regenerated_size = (b0 >> 3) as u32;
                Ok(1)
            } else if sf == 1 {
                if raw.len() < 2 {
                    return Err(DecodeError::InputTruncated);
                }
                self.regenerated_size = ((b0 >> 4) as u32) + (raw[1] as u32) * 0x10;
                Ok(2)
            } else {
                if raw.len() < 3 {
                    return Err(DecodeError::InputTruncated);
                }
                self.regenerated_size = ((b0 >> 4) as u32) + (raw[1] as u32) * 0x10 + (
                raw[2] as u32) * 0x1000;
                Ok(3)
            }
        } else {
            // Compressed or Treeless
            self.ls_type = if t == 2 {
                LiteralsSectionType::Compressed
            } else {
                LiteralsSectionType::Treeless
            };
            self.num_streams = Some(
                if sf == 0 {
                    1
                } else {
                    4
                },
            );
            if sf == 0 || sf == 1 {
                if raw.len() < 3 {
                    return Err(DecodeError::InputTruncated);
                }
                let b1 = raw[1];
                proof {
                    assert(b1 & 0x3F < 64 && b1 >> 6 < 4) by (bit_vector);
                }
                self.regenerated_size = ((b0 >> 4) as u32) + ((b1 & 0x3F) as u32) * 0x10;
                self.compressed_size = Some(((b1 >> 6) as u32) + (raw[2] as u32) * 4);
                Ok(3)
            } else if sf == 2 {
                if raw.len() < 4 {
                    return Err(DecodeError::InputTruncated);
                }
                let b2 = raw[2];
                proof {
                    assert(b2 & 0x3 < 4 && b2 >> 2 < 64) by (bit_vector);
                }
                self.regenerated_size = ((b0 >> 4) as u32) + (raw[1] as u32) * 0x10 + ((b2
                    & 0x3) as u32) * 0x1000;
                self.compressed_size = Some(((b2 >> 2) as u32) + (raw[3] as u32) * 0x40);
                Ok(4)
            } else {
                if raw.len() < 5 {
                    return Err(DecodeError::InputTruncated);
                }
                let b2 = raw[2];
                proof {
                    assert(b2 & 0x3F < 64 && b2 >> 6 < 4) by (bit_vector);
                }
                self.regenerated_size = ((b0 >> 4) as u32) + (raw[1] as u32) * 0x10 + ((b2
                    & 0x3F) as u32) * 0x1000;
                self.compressed_size = Some(
                    ((b2 >> 6) as u32) + (raw[3] as u32) * 4 + (raw[4] as u32) * 0x400,
                );
                Ok(5)
            }
        }
    }
}

} // verus!

//! Byte-order-mark detection and UTF-16 code-unit assembly.
//!
//! Input text may be UTF-8, UTF-16 little-endian or UTF-16 big-endian; the
//! two UTF-16 forms announce themselves with a two-byte byte-order mark.
//! Detection and the arithmetic that rebuilds 16-bit units from byte pairs
//! are proved here; turning the units (or the raw bytes) into a string is the
//! caller's concern.

use vstd::prelude::*;

verus! {

/// The three encodings the loader accepts. Anything without a UTF-16
/// byte-order mark is treated as UTF-8.
#[derive(Clone, Copy, Debug, PartialEq, Eq, Structural)]
pub enum Encoding {
    Utf8,
    Utf16Le,
    Utf16Be,
}

/// Which encoding a byte buffer announces: 0xFF 0xFE means UTF-16 LE,
/// 0xFE 0xFF means UTF-16 BE, anything else is taken as UTF-8.
pub open spec fn spec_detect_encoding(bytes: Seq<u8>) -> Encoding {
    if bytes.len() >= 2 && bytes[0] == 0xFF && bytes[1] == 0xFE {
        Encoding::Utf16Le
    } else if bytes.len() >= 2 && bytes[0] == 0xFE && bytes[1] == 0xFF {
        Encoding::Utf16Be
    } else {
        Encoding::Utf8
    }
}

/// Inspects the start of the buffer for a byte-order mark.
pub fn detect_encoding(bytes: &Vec<u8>) -> (e: Encoding)
    ensures
        e == spec_detect_encoding(bytes@),
{
    if bytes.len() >= 2 && bytes[0] == 0xFF && bytes[1] == 0xFE {
        Encoding::Utf16Le
    } else if bytes.len() >= 2 && bytes[0] == 0xFE && bytes[1] == 0xFF {
        Encoding::Utf16Be
    } else {
        Encoding::Utf8
    }
}

/// The 16-bit unit formed from two bytes, least significant byte first.
pub open spec fn spec_unit(lo: u8, hi: u8) -> u16 {
    (lo + 256 * hi) as u16
}

/// Rebuilds the UTF-16 code units that follow the two-byte byte-order mark.
/// Byte pairs are read in file order; `big_endian` says which byte of a pair
/// is the most significant. A trailing unpaired byte is dropped.
pub fn utf16_units(bytes: &Vec<u8>, big_endian: bool) -> (units: Vec<u16>)
    requires
        bytes@.len() >= 2,
    ensures
        units@.len() == (bytes@.len() - 2) / 2,
        forall|i: int|
            0 <= i < units@.len() ==> units@[i] == (if big_endian {
                spec_unit(bytes@[2 * i + 3], bytes@[2 * i + 2])
            } else {
                spec_unit(bytes@[2 * i + 2], bytes@[2 * i + 3])
            }),
{
    let mut units: Vec<u16> = Vec::new();
    let mut i: usize = 2;
    while i + 1 < bytes.len()
        invariant
            bytes@.len() >= 2,
            2 <= i,
            i % 2 == 0,
            i <= bytes@.len(),
            2 * units@.len() == i - 2,
            forall|j: int|
                0 <= j < units@.len() ==> units@[j] == (if big_endian {
                    spec_unit(bytes@[2 * j + 3], bytes@[2 * j + 2])
                } else {
                    spec_unit(bytes@[2 * j + 2], bytes@[2 * j + 3])
                }),
        decreases bytes@.len() - i,
    {
        let lo_pos: usize = if big_endian { i + 1 } else { i };
        let hi_pos: usize = if big_endian { i } else { i + 1 };
        let unit: u16 = bytes[lo_pos] as u16 + 256 * (bytes[hi_pos] as u16);
        units.push(unit);
        i = i + 2;
    }
    proof {
        assert(i == bytes@.len() || i + 1 == bytes@.len());
        assert(units@.len() == (bytes@.len() - 2) / 2);
    }
    units
}

} // verus!

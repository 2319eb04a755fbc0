//! Data-type and class codes of the level-5 MAT format, byte-order readers and
//! the data-element reader.

use vstd::prelude::*;
use crate::mat::bytes::{
    le_value, be_value, lemma_le_value_2, lemma_be_value_2, lemma_le_value_4, lemma_be_value_4,
    lemma_le_value_8, lemma_be_value_8,
};

verus! {

pub const MI_INT8: u32 = 1;
pub const MI_UINT8: u32 = 2;
pub const MI_INT16: u32 = 3;
pub const MI_UINT16: u32 = 4;
pub const MI_INT32: u32 = 5;
pub const MI_UINT32: u32 = 6;
pub const MI_SINGLE: u32 = 7;
pub const MI_DOUBLE: u32 = 9;
pub const MI_INT64: u32 = 12;
pub const MI_UINT64: u32 = 13;
pub const MI_MATRIX: u32 = 14;
pub const MI_COMPRESSED: u32 = 15;
pub const MI_UTF8: u32 = 16;
pub const MI_UTF16: u32 = 17;
pub const MI_UTF32: u32 = 18;

pub const MX_CHAR_CLASS: u32 = 4;
pub const MX_SPARSE_CLASS: u32 = 5;
pub const MX_DOUBLE_CLASS: u32 = 6;
pub const MX_SINGLE_CLASS: u32 = 7;
pub const MX_INT8_CLASS: u32 = 8;
pub const MX_UINT8_CLASS: u32 = 9;
pub const MX_INT16_CLASS: u32 = 10;
pub const MX_UINT16_CLASS: u32 = 11;
pub const MX_INT32_CLASS: u32 = 12;
pub const MX_UINT32_CLASS: u32 = 13;
pub const MX_INT64_CLASS: u32 = 14;
pub const MX_UINT64_CLASS: u32 = 15;
pub const MX_COMPLEX_FLAG: u32 = 0x0800;
pub const MX_LOGICAL_FLAG: u32 = 0x0200;

/// The classes whose arrays the reader accepts.
pub open spec fn spec_supported_class(class: u32) -> bool {
    class == MX_DOUBLE_CLASS || class == MX_CHAR_CLASS || class == MX_SINGLE_CLASS || class
        == MX_INT8_CLASS || class == MX_UINT8_CLASS || class == MX_INT16_CLASS || class
        == MX_UINT16_CLASS || class == MX_INT32_CLASS || class == MX_UINT32_CLASS || class
        == MX_INT64_CLASS || class == MX_UINT64_CLASS
}

/// Whether the reader accepts arrays of this class.
pub fn supported_class(class: u32) -> (r: bool)
    ensures
        r == spec_supported_class(class),
{
    class == MX_DOUBLE_CLASS || class == MX_CHAR_CLASS || class == MX_SINGLE_CLASS || class
        == MX_INT8_CLASS || class == MX_UINT8_CLASS || class == MX_INT16_CLASS || class
        == MX_UINT16_CLASS || class == MX_INT32_CLASS || class == MX_UINT32_CLASS || class
        == MX_INT64_CLASS || class == MX_UINT64_CLASS
}

/// The byte order of a MAT file.
#[derive(Clone, Copy, Debug, PartialEq, Eq, Structural)]
pub enum Endian {
    Little,
    Big,
}

/// The two's-complement reading of an unsigned value of `bits` bits.
pub open spec fn to_signed(v: nat, bits: nat) -> int {
    if v >= pow2(bits) / 2 {
        v - pow2(bits)
    } else {
        v as int
    }
}

/// `2` raised to the power `bits`, for the widths the format uses.
pub open spec fn pow2(bits: nat) -> nat {
    if bits == 8 {
        0x100
    } else if bits == 16 {
        0x1_0000
    } else if bits == 32 {
        0x1_0000_0000
    } else {
        0x1_0000_0000_0000_0000
    }
}

impl Endian {
    /// The value of a byte string in this byte order.
    pub open spec fn value(self, s: Seq<u8>) -> nat {
        match self {
            Endian::Little => le_value(s),
            Endian::Big => be_value(s),
        }
    }

    pub fn read_u16(self, bytes: &[u8]) -> (r: u16)
        requires
            bytes@.len() >= 2,
        ensures
            r as nat == self.value(bytes@.take(2)),
    {
        let b0 = bytes[0] as u16;
        let b1 = bytes[1] as u16;
        proof {
            lemma_le_value_2(bytes@.take(2));
            lemma_be_value_2(bytes@.take(2));
        }
        match self {
            Endian::Little => b0 + 256 * b1,
            Endian::Big => 256 * b0 + b1,
        }
    }

    pub fn read_i16(self, bytes: &[u8]) -> (r: i16)
        requires
            bytes@.len() >= 2,
        ensures
            r as int == to_signed(self.value(bytes@.take(2)), 16),
    {
        let u = self.read_u16(bytes);
        if u < 0x8000 {
            u as i16
        } else {
            ((u - 0x8000) as i16) - 0x4000 - 0x4000
        }
    }

    pub fn read_u32(self, bytes: &[u8]) -> (r: u32)
        requires
            bytes@.len() >= 4,
        ensures
            r as nat == self.value(bytes@.take(4)),
    {
        let b0 = bytes[0] as u32;
        let b1 = bytes[1] as u32;
        let b2 = bytes[2] as u32;
        let b3 = bytes[3] as u32;
        proof {
            lemma_le_value_4(bytes@.take(4));
            lemma_be_value_4(bytes@.take(4));
        }
        match self {
            Endian::Little => b0 + 0x100 * b1 + 0x1_0000 * b2 + 0x100_0000 * b3,
            Endian::Big => 0x100_0000 * b0 + 0x1_0000 * b1 + 0x100 * b2 + b3,
        }
    }

    pub fn read_i32(self, bytes: &[u8]) -> (r: i32)
        requires
            bytes@.len() >= 4,
        ensures
            r as int == to_signed(self.value(bytes@.take(4)), 32),
    {
        let u = self.read_u32(bytes);
        if u < 0x8000_0000 {
            u as i32
        } else {
            ((u - 0x8000_0000) as i32) - 0x4000_0000 - 0x4000_0000
        }
    }

    pub fn read_u64(self, bytes: &[u8]) -> (r: u64)
        requires
            bytes@.len() >= 8,
        ensures
            r as nat == self.value(bytes@.take(8)),
    {
        let b0 = bytes[0] as u64;
        let b1 = bytes[1] as u64;
        let b2 = bytes[2] as u64;
        let b3 = bytes[3] as u64;
        let b4 = bytes[4] as u64;
        let b5 = bytes[5] as u64;
        let b6 = bytes[6] as u64;
        let b7 = bytes[7] as u64;
        proof {
            lemma_le_value_8(bytes@.take(8));
            lemma_be_value_8(bytes@.take(8));
        }
        match self {
            Endian::Little => b0 + 0x100 * b1 + 0x1_0000 * b2 + 0x100_0000 * b3 + 0x1_0000_0000 * b4
                + 0x100_0000_0000 * b5 + 0x1_0000_0000_0000 * b6 + 0x100_0000_0000_0000 * b7,
            Endian::Big => 0x100_0000_0000_0000 * b0 + 0x1_0000_0000_0000 * b1 + 0x100_0000_0000 * b2
                + 0x1_0000_0000 * b3 + 0x100_0000 * b4 + 0x1_0000 * b5 + 0x100 * b6 + b7,
        }
    }

    pub fn read_i64(self, bytes: &[u8]) -> (r: i64)
        requires
            bytes@.len() >= 8,
        ensures
            r as int == to_signed(self.value(bytes@.take(8)), 64),
    {
        let u = self.read_u64(bytes);
        if u < 0x8000_0000_0000_0000 {
            u as i64
        } else {
            ((u - 0x8000_0000_0000_0000) as i64) - 0x4000_0000_0000_0000 - 0x4000_0000_0000_0000
        }
    }
}

} // verus!

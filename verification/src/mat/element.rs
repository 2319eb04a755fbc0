//! Reading one tagged data element (normal or small format) from a byte window.

use vstd::prelude::*;
use crate::mat::bytes::{lemma_le_value_bound, pow256, lemma_pow256_values, be_value};
use crate::mat::format::Endian;
use crate::text::{decimal, usize_text, u64_text};

verus! {

/// Why a data element could not be read.  Byte positions are relative to the
/// start of the window being read.
#[allow(inconsistent_fields)]
#[derive(Clone, Copy, Debug, PartialEq, Eq, Structural)]
pub enum ElementError {
    TruncatedTag { at: usize },
    SmallTooLarge { at: usize, size: u32 },
    SmallExceeds { at: usize },
    Overflow { at: usize },
    Exceeds { at: usize, size: usize, remain: usize },
    PaddingOverflow { at: usize },
    PaddingExceeds { at: usize },
}

/// A data element that was read: its type code, its payload and the offset just
/// past its padding.
pub struct ElementSpec {
    pub data_type: u32,
    pub data: Seq<u8>,
    pub next: int,
}

/// A data element read from a byte slice.
pub struct DataElement<'a> {
    pub data_type: u32,
    pub data: &'a [u8],
}

pub open spec fn pad8(n: int) -> int {
    (8 - (n % 8)) % 8
}

/// Reads the data element at `off` in `s`.  At the very end of `s` it yields an
/// empty element of type `0` and leaves the offset where it is.
#[verifier::opaque]
pub open spec fn spec_read_element(s: Seq<u8>, off: int, e: Endian) -> Result<ElementSpec, ElementError> {
    if off == s.len() {
        Ok(ElementSpec { data_type: 0, data: Seq::empty(), next: off })
    } else if s.len() - off < 8 {
        Err(ElementError::TruncatedTag { at: off as usize })
    } else {
        let small_type = e.value(s.subrange(off, off + 2));
        let small_size = e.value(s.subrange(off + 2, off + 4));
        if small_size > 0 {
            if small_size > 4 {
                Err(ElementError::SmallTooLarge { at: off as usize, size: small_size as u32 })
            } else if off + 4 + small_size > s.len() {
                Err(ElementError::SmallExceeds { at: off as usize })
            } else {
                Ok(
                    ElementSpec {
                        data_type: small_type as u32,
                        data: s.subrange(off + 4, off + 4 + small_size),
                        next: off + 8,
                    },
                )
            }
        } else {
            let data_type = e.value(s.subrange(off, off + 4));
            let size = e.value(s.subrange(off + 4, off + 8));
            let start = off + 8;
            if start + size > usize::MAX {
                Err(ElementError::Overflow { at: off as usize })
            } else if start + size > s.len() {
                Err(ElementError::Exceeds { at: off as usize, size: size as usize, remain: (s.len() - start) as usize })
            } else if start + size + pad8(size as int) > usize::MAX {
                Err(ElementError::PaddingOverflow { at: off as usize })
            } else if start + size + pad8(size as int) > s.len() {
                Err(ElementError::PaddingExceeds { at: off as usize })
            } else {
                Ok(
                    ElementSpec {
                        data_type: data_type as u32,
                        data: s.subrange(start, start + size),
                        next: start + size + pad8(size as int),
                    },
                )
            }
        }
    }
}

/// Reads the data element at `*offset` and moves the offset past it.
pub fn read_element<'a>(bytes: &'a [u8], offset: &mut usize, endian: Endian) -> (r: Result<
    DataElement<'a>,
    ElementError,
>)
    requires
        *old(offset) <= bytes@.len(),
    ensures
        match spec_read_element(bytes@, *old(offset) as int, endian) {
            Ok(el) => r matches Ok(d) && d.data_type == el.data_type && d.data@ == el.data
                && *final(offset) as int == el.next,
            Err(err) => r == Err::<DataElement<'a>, ElementError>(err),
        },
{
    reveal(spec_read_element);
    let off = *offset;
    if off == bytes.len() {
        let empty: &[u8] = &bytes[off..off];
        proof {
            assert(empty@ =~= Seq::<u8>::empty());
        }
        return Ok(DataElement { data_type: 0, data: empty });
    }
    if bytes.len() - off < 8 {
        return Err(ElementError::TruncatedTag { at: off });
    }
    let tag: &[u8] = &bytes[off..off + 8];
    proof {
        assert(tag@.take(2) =~= bytes@.subrange(off as int, off + 2));
        assert(tag@.subrange(2, 8).take(2) =~= bytes@.subrange(off + 2, off + 4));
        assert(tag@.take(4) =~= bytes@.subrange(off as int, off + 4));
        assert(tag@.subrange(4, 8).take(4) =~= bytes@.subrange(off + 4, off + 8));
    }
    let small_type = endian.read_u16(tag) as u32;
    let small_size = endian.read_u16(&tag[2..8]) as u32;
    if small_size > 0 {
        if small_size > 4 {
            return Err(ElementError::SmallTooLarge { at: off, size: small_size });
        }
        let data_start = off + 4;
        let data_end = data_start + small_size as usize;
        if data_end > bytes.len() {
            return Err(ElementError::SmallExceeds { at: off });
        }
        *offset = off + 8;
        return Ok(DataElement { data_type: small_type, data: &bytes[data_start..data_end] });
    }
    let data_type = endian.read_u32(tag);
    let data_size_u32 = endian.read_u32(&tag[4..8]);
    let data_start = off + 8;
    if data_size_u32 as u64 > (usize::MAX - data_start) as u64 {
        return Err(ElementError::Overflow { at: off });
    }
    let data_size = data_size_u32 as usize;
    let data_end = data_start + data_size;
    if data_end > bytes.len() {
        return Err(ElementError::Exceeds { at: off, size: data_size, remain: bytes.len() - data_start });
    }
    let pad = (8 - (data_size % 8)) % 8;
    if pad > usize::MAX - data_end {
        return Err(ElementError::PaddingOverflow { at: off });
    }
    let padded_end = data_end + pad;
    if padded_end > bytes.len() {
        return Err(ElementError::PaddingExceeds { at: off });
    }
    *offset = padded_end;
    Ok(DataElement { data_type, data: &bytes[data_start..data_end] })
}

/// The message text of an element error.
pub open spec fn element_error_text(err: ElementError) -> Seq<char> {
    match err {
        ElementError::TruncatedTag { at } => "truncated tag at byte "@ + decimal(at as nat),
        ElementError::SmallTooLarge { at, size } => "small data element at byte "@ + decimal(at as nat)
            + " has "@ + decimal(size as nat) + " bytes"@,
        ElementError::SmallExceeds { at } => "small data element at byte "@ + decimal(at as nat)
            + " exceeds file length"@,
        ElementError::Overflow { at } => "data element at byte "@ + decimal(at as nat)
            + " overflows usize"@,
        ElementError::Exceeds { at, size, remain } => "data element at byte "@ + decimal(at as nat)
            + " has "@ + decimal(size as nat) + " bytes but only "@ + decimal(remain as nat)
            + " remain"@,
        ElementError::PaddingOverflow { at } => "data element at byte "@ + decimal(at as nat)
            + " padded length overflows usize"@,
        ElementError::PaddingExceeds { at } => "data element at byte "@ + decimal(at as nat)
            + " padding exceeds file length"@,
    }
}

impl ElementError {
    /// The message text of this error.
    pub fn message(&self) -> (r: String)
        ensures
            r@ == element_error_text(*self),
    {
        match *self {
            ElementError::TruncatedTag { at } => {
                let mut s = String::from_str("truncated tag at byte ");
                s.append(usize_text(at).as_str());
                s
            },
            ElementError::SmallTooLarge { at, size } => {
                let mut s = String::from_str("small data element at byte ");
                s.append(usize_text(at).as_str());
                s.append(" has ");
                s.append(u64_text(size as u64).as_str());
                s.append(" bytes");
                s
            },
            ElementError::SmallExceeds { at } => {
                let mut s = String::from_str("small data element at byte ");
                s.append(usize_text(at).as_str());
                s.append(" exceeds file length");
                s
            },
            ElementError::Overflow { at } => {
                let mut s = String::from_str("data element at byte ");
                s.append(usize_text(at).as_str());
                s.append(" overflows usize");
                s
            },
            ElementError::Exceeds { at, size, remain } => {
                let mut s = String::from_str("data element at byte ");
                s.append(usize_text(at).as_str());
                s.append(" has ");
                s.append(usize_text(size).as_str());
                s.append(" bytes but only ");
                s.append(usize_text(remain).as_str());
                s.append(" remain");
                s
            },
            ElementError::PaddingOverflow { at } => {
                let mut s = String::from_str("data element at byte ");
                s.append(usize_text(at).as_str());
                s.append(" padded length overflows usize");
                s
            },
            ElementError::PaddingExceeds { at } => {
                let mut s = String::from_str("data element at byte ");
                s.append(usize_text(at).as_str());
                s.append(" padding exceeds file length");
                s
            },
        }
    }
}

} // verus!

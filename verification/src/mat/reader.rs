//! Decoding MAT files: numeric payloads, matrix elements and whole files.

use vstd::prelude::*;
use vstd::utf8::{valid_utf8, decode_utf8};
use crate::mat::bytes::{pow256, lemma_pow256_values, lemma_le_value_bound, lemma_be_value_bound, lemma_value_1};
use crate::mat::format::{
    Endian, to_signed, pow2, MI_DOUBLE, MI_SINGLE, MI_INT8, MI_UINT8, MI_INT16, MI_UINT16, MI_INT32,
    MI_UINT32, MI_INT64, MI_UINT64, MI_UTF8, MI_UTF16, MI_UTF32,
};
use crate::mat::error::{MatError, MatErrorView};
use crate::mat::types::{NumericType, NumericData, NumericDataView};
use crate::text::decimal;

verus! {

/// The text `String::from_utf8_lossy` makes of bytes that are not valid UTF-8
/// (invalid sequences replaced by U+FFFD).
pub uninterp spec fn utf8_lossy_replaced(bytes: Seq<u8>) -> Seq<char>;

/// The text of a byte string decoded as UTF-8, with invalid sequences replaced.
pub open spec fn utf8_lossy_text(bytes: Seq<u8>) -> Seq<char> {
    if valid_utf8(bytes) {
        decode_utf8(bytes)
    } else {
        utf8_lossy_replaced(bytes)
    }
}

/// Calls `String::from_utf8_lossy`.  Trusted: for valid UTF-8 the text is
/// exactly the decoded text, as the standard library documents; for other
/// input it is a function of the bytes alone, and what it holds is not stated.
#[verifier::external_body]
pub(crate) fn utf8_lossy(bytes: &[u8]) -> (r: String)
    ensures
        r@ == (if valid_utf8(bytes@) {
            decode_utf8(bytes@)
        } else {
            utf8_lossy_replaced(bytes@)
        }),
{
    String::from_utf8_lossy(bytes).into_owned()
}

/// The element type that a data-type code decodes to.
pub open spec fn type_of_data(dt: u32) -> Option<NumericType> {
    if dt == MI_DOUBLE {
        Some(NumericType::F64)
    } else if dt == MI_SINGLE {
        Some(NumericType::F32)
    } else if dt == MI_INT8 {
        Some(NumericType::I8)
    } else if dt == MI_UINT8 || dt == MI_UTF8 {
        Some(NumericType::U8)
    } else if dt == MI_INT16 {
        Some(NumericType::I16)
    } else if dt == MI_UINT16 || dt == MI_UTF16 {
        Some(NumericType::U16)
    } else if dt == MI_INT32 {
        Some(NumericType::I32)
    } else if dt == MI_UINT32 || dt == MI_UTF32 {
        Some(NumericType::U32)
    } else if dt == MI_INT64 {
        Some(NumericType::I64)
    } else if dt == MI_UINT64 {
        Some(NumericType::U64)
    } else {
        None
    }
}

fn data_type_to_numeric(dt: u32) -> (r: Option<NumericType>)
    ensures
        r == type_of_data(dt),
{
    if dt == MI_DOUBLE {
        Some(NumericType::F64)
    } else if dt == MI_SINGLE {
        Some(NumericType::F32)
    } else if dt == MI_INT8 {
        Some(NumericType::I8)
    } else if dt == MI_UINT8 || dt == MI_UTF8 {
        Some(NumericType::U8)
    } else if dt == MI_INT16 {
        Some(NumericType::I16)
    } else if dt == MI_UINT16 || dt == MI_UTF16 {
        Some(NumericType::U16)
    } else if dt == MI_INT32 {
        Some(NumericType::I32)
    } else if dt == MI_UINT32 || dt == MI_UTF32 {
        Some(NumericType::U32)
    } else if dt == MI_INT64 {
        Some(NumericType::I64)
    } else if dt == MI_UINT64 {
        Some(NumericType::U64)
    } else {
        None
    }
}

fn type_width(t: NumericType) -> (r: usize)
    ensures
        r == t.width(),
{
    match t {
        NumericType::F64 | NumericType::I64 | NumericType::U64 => 8,
        NumericType::F32 | NumericType::I32 | NumericType::U32 => 4,
        NumericType::I16 | NumericType::U16 => 2,
        NumericType::I8 | NumericType::U8 => 1,
    }
}

/// The column-major position of row-major element `i` of a `rows x cols` matrix.
pub open spec fn source_index(i: int, rows: int, cols: int) -> int {
    (i % cols) * rows + i / cols
}

/// The raw words of a payload, reordered from column-major to row-major.
pub open spec fn raw_words(s: Seq<u8>, w: nat, e: Endian, rows: nat, cols: nat, n: nat) -> Seq<nat> {
    Seq::new(n, |i: int| e.value(s.subrange(source_index(i, rows as int, cols as int) * w, source_index(i, rows as int, cols as int) * w + w)))
}

/// The number a raw word stands for, given the element type.
pub open spec fn typed_value(t: NumericType, raw: nat) -> int {
    if t.is_signed() {
        to_signed(raw, 8 * t.width())
    } else {
        raw as int
    }
}

/// Decodes a numeric data element into a row-major payload.
#[verifier::opaque]
pub open spec fn spec_decode(name: Seq<char>, dt: u32, s: Seq<u8>, e: Endian, rows: nat, cols: nat, n: nat) -> Result<NumericDataView, MatErrorView> {
    match type_of_data(dt) {
        None => Err(MatErrorView::UnsupportedDataType { name, data_type: dt }),
        Some(t) => {
            let w = t.width();
            if n * w > usize::MAX {
                Err(MatErrorView::MalformedVariable { name, message: "payload byte count overflow"@ })
            } else if s.len() != n * w {
                Err(MatErrorView::MalformedVariable { name, message: "payload has "@ + decimal(s.len()) + " bytes, expected "@ + decimal(n * w) })
            } else {
                Ok(NumericDataView { ty: t, values: raw_words(s, w, e, rows, cols, n).map_values(|r: nat| typed_value(t, r)) })
            }
        },
    }
}

fn read_word(bytes: &[u8], p: usize, w: usize, endian: Endian) -> (r: u64)
    requires
        w == 1 || w == 2 || w == 4 || w == 8,
        p + w <= bytes@.len(),
    ensures
        r as nat == endian.value(bytes@.subrange(p as int, p + w)),
        (r as nat) < pow256(w as nat),
{
    let len = bytes.len();
    assert(p + w <= len);
    let chunk = &bytes[p..p + w];
    proof {
        assert(chunk@.take(w as int) =~= chunk@);
        lemma_le_value_bound(chunk@);
        lemma_be_value_bound(chunk@);
        lemma_pow256_values();
    }
    if w == 1 {
        proof {
            lemma_value_1(chunk@);
        }
        chunk[0] as u64
    } else if w == 2 {
        endian.read_u16(chunk) as u64
    } else if w == 4 {
        endian.read_u32(chunk) as u64
    } else {
        endian.read_u64(chunk)
    }
}

proof fn lemma_source_index(i: int, rows: int, cols: int, w: int)
    requires
        0 <= i < rows * cols,
        rows > 0,
        cols > 0,
        w > 0,
    ensures
        0 <= source_index(i, rows, cols) < rows * cols,
        0 <= source_index(i, rows, cols) * w,
        source_index(i, rows, cols) * w + w <= rows * cols * w,
{
    let c = i % cols;
    let r = i / cols;
    assert(0 <= c < cols && 0 <= r < rows) by (nonlinear_arith)
        requires
            0 <= i < rows * cols,
            rows > 0,
            cols > 0,
            c == i % cols,
            r == i / cols,
    ;
    let k = c * rows + r;
    assert(0 <= k < rows * cols) by (nonlinear_arith)
        requires
            0 <= c < cols,
            0 <= r < rows,
            k == c * rows + r,
    ;
    assert(0 <= k * w && k * w + w <= rows * cols * w) by (nonlinear_arith)
        requires
            0 <= k < rows * cols,
            w > 0,
    ;
}

/// Reads the `n = rows * cols` words of `w` bytes and reorders them to row-major.
fn decode_words(bytes: &[u8], w: usize, endian: Endian, rows: usize, cols: usize, n: usize) -> (r: Vec<u64>)
    requires
        w == 1 || w == 2 || w == 4 || w == 8,
        n == rows * cols,
        bytes@.len() == n * w,
    ensures
        r@.map_values(|x: u64| x as nat) =~= raw_words(bytes@, w as nat, endian, rows as nat, cols as nat, n as nat),
        forall|i: int| 0 <= i < r@.len() ==> (#[trigger] r@[i] as nat) < pow256(w as nat),
{
    let ghost target = raw_words(bytes@, w as nat, endian, rows as nat, cols as nat, n as nat);
    let mut out: Vec<u64> = Vec::new();
    let len = bytes.len();
    let mut i: usize = 0;
    while i < n
        invariant
            i <= n,
            len == bytes@.len(),
            n == rows * cols,
            w == 1 || w == 2 || w == 4 || w == 8,
            bytes@.len() == n * w,
            target == raw_words(bytes@, w as nat, endian, rows as nat, cols as nat, n as nat),
            out@.len() == i,
            forall|k: int| 0 <= k < i ==> (#[trigger] out@[k]) as nat == target[k],
            forall|k: int| 0 <= k < i ==> (#[trigger] out@[k] as nat) < pow256(w as nat),
        decreases n - i,
    {
        proof {
            lemma_source_index(i as int, rows as int, cols as int, w as int);
        }
        let k = (i % cols) * rows + i / cols;
        let v = read_word(bytes, k * w, w, endian);
        out.push(v);
        i = i + 1;
    }
    out
}

} // verus!

verus! {

fn typed_f64(raw: &Vec<u64>) -> (r: Vec<u64>)
    requires
        forall|i: int| 0 <= i < raw@.len() ==> (#[trigger] raw@[i] as nat) < pow256(8),
    ensures
        r@.map_values(|x: u64| x as int) =~= raw@.map_values(|x: u64| typed_value(NumericType::F64, x as nat)),
{
    proof {
        lemma_pow256_values();
    }
    let mut out: Vec<u64> = Vec::new();
    let mut i: usize = 0;
    while i < raw.len()
        invariant
            i <= raw@.len(),
            out@.len() == i,
            pow256(8) == 18446744073709551616,
            forall|k: int| 0 <= k < raw@.len() ==> (#[trigger] raw@[k] as nat) < pow256(8),
            forall|k: int| 0 <= k < i ==> (#[trigger] out@[k]) as int == typed_value(NumericType::F64, raw@[k] as nat),
        decreases raw@.len() - i,
    {
        let v: u64 = raw[i] as u64;
        out.push(v);
        i = i + 1;
    }
    out
}

fn typed_f32(raw: &Vec<u64>) -> (r: Vec<u32>)
    requires
        forall|i: int| 0 <= i < raw@.len() ==> (#[trigger] raw@[i] as nat) < pow256(4),
    ensures
        r@.map_values(|x: u32| x as int) =~= raw@.map_values(|x: u64| typed_value(NumericType::F32, x as nat)),
{
    proof {
        lemma_pow256_values();
    }
    let mut out: Vec<u32> = Vec::new();
    let mut i: usize = 0;
    while i < raw.len()
        invariant
            i <= raw@.len(),
            out@.len() == i,
            pow256(4) == 4294967296,
            forall|k: int| 0 <= k < raw@.len() ==> (#[trigger] raw@[k] as nat) < pow256(4),
            forall|k: int| 0 <= k < i ==> (#[trigger] out@[k]) as int == typed_value(NumericType::F32, raw@[k] as nat),
        decreases raw@.len() - i,
    {
        let v: u32 = raw[i] as u32;
        out.push(v);
        i = i + 1;
    }
    out
}

fn typed_i8(raw: &Vec<u64>) -> (r: Vec<i8>)
    requires
        forall|i: int| 0 <= i < raw@.len() ==> (#[trigger] raw@[i] as nat) < pow256(1),
    ensures
        r@.map_values(|x: i8| x as int) =~= raw@.map_values(|x: u64| typed_value(NumericType::I8, x as nat)),
{
    proof {
        lemma_pow256_values();
    }
    let mut out: Vec<i8> = Vec::new();
    let mut i: usize = 0;
    while i < raw.len()
        invariant
            i <= raw@.len(),
            out@.len() == i,
            pow256(1) == 256,
            forall|k: int| 0 <= k < raw@.len() ==> (#[trigger] raw@[k] as nat) < pow256(1),
            forall|k: int| 0 <= k < i ==> (#[trigger] out@[k]) as int == typed_value(NumericType::I8, raw@[k] as nat),
        decreases raw@.len() - i,
    {
        let x = raw[i];
            let v: i8 = if x < 0x80u64 { x as i8 } else { ((x - 0x80u64) as i8) - 0x40 - 0x40 };
        out.push(v);
        i = i + 1;
    }
    out
}

fn typed_u8(raw: &Vec<u64>) -> (r: Vec<u8>)
    requires
        forall|i: int| 0 <= i < raw@.len() ==> (#[trigger] raw@[i] as nat) < pow256(1),
    ensures
        r@.map_values(|x: u8| x as int) =~= raw@.map_values(|x: u64| typed_value(NumericType::U8, x as nat)),
{
    proof {
        lemma_pow256_values();
    }
    let mut out: Vec<u8> = Vec::new();
    let mut i: usize = 0;
    while i < raw.len()
        invariant
            i <= raw@.len(),
            out@.len() == i,
            pow256(1) == 256,
            forall|k: int| 0 <= k < raw@.len() ==> (#[trigger] raw@[k] as nat) < pow256(1),
            forall|k: int| 0 <= k < i ==> (#[trigger] out@[k]) as int == typed_value(NumericType::U8, raw@[k] as nat),
        decreases raw@.len() - i,
    {
        let v: u8 = raw[i] as u8;
        out.push(v);
        i = i + 1;
    }
    out
}

fn typed_i16(raw: &Vec<u64>) -> (r: Vec<i16>)
    requires
        forall|i: int| 0 <= i < raw@.len() ==> (#[trigger] raw@[i] as nat) < pow256(2),
    ensures
        r@.map_values(|x: i16| x as int) =~= raw@.map_values(|x: u64| typed_value(NumericType::I16, x as nat)),
{
    proof {
        lemma_pow256_values();
    }
    let mut out: Vec<i16> = Vec::new();
    let mut i: usize = 0;
    while i < raw.len()
        invariant
            i <= raw@.len(),
            out@.len() == i,
            pow256(2) == 65536,
            forall|k: int| 0 <= k < raw@.len() ==> (#[trigger] raw@[k] as nat) < pow256(2),
            forall|k: int| 0 <= k < i ==> (#[trigger] out@[k]) as int == typed_value(NumericType::I16, raw@[k] as nat),
        decreases raw@.len() - i,
    {
        let x = raw[i];
            let v: i16 = if x < 0x8000u64 { x as i16 } else { ((x - 0x8000u64) as i16) - 0x4000 - 0x4000 };
        out.push(v);
        i = i + 1;
    }
    out
}

fn typed_u16(raw: &Vec<u64>) -> (r: Vec<u16>)
    requires
        forall|i: int| 0 <= i < raw@.len() ==> (#[trigger] raw@[i] as nat) < pow256(2),
    ensures
        r@.map_values(|x: u16| x as int) =~= raw@.map_values(|x: u64| typed_value(NumericType::U16, x as nat)),
{
    proof {
        lemma_pow256_values();
    }
    let mut out: Vec<u16> = Vec::new();
    let mut i: usize = 0;
    while i < raw.len()
        invariant
            i <= raw@.len(),
            out@.len() == i,
            pow256(2) == 65536,
            forall|k: int| 0 <= k < raw@.len() ==> (#[trigger] raw@[k] as nat) < pow256(2),
            forall|k: int| 0 <= k < i ==> (#[trigger] out@[k]) as int == typed_value(NumericType::U16, raw@[k] as nat),
        decreases raw@.len() - i,
    {
        let v: u16 = raw[i] as u16;
        out.push(v);
        i = i + 1;
    }
    out
}

fn typed_i32(raw: &Vec<u64>) -> (r: Vec<i32>)
    requires
        forall|i: int| 0 <= i < raw@.len() ==> (#[trigger] raw@[i] as nat) < pow256(4),
    ensures
        r@.map_values(|x: i32| x as int) =~= raw@.map_values(|x: u64| typed_value(NumericType::I32, x as nat)),
{
    proof {
        lemma_pow256_values();
    }
    let mut out: Vec<i32> = Vec::new();
    let mut i: usize = 0;
    while i < raw.len()
        invariant
            i <= raw@.len(),
            out@.len() == i,
            pow256(4) == 4294967296,
            forall|k: int| 0 <= k < raw@.len() ==> (#[trigger] raw@[k] as nat) < pow256(4),
            forall|k: int| 0 <= k < i ==> (#[trigger] out@[k]) as int == typed_value(NumericType::I32, raw@[k] as nat),
        decreases raw@.len() - i,
    {
        let x = raw[i];
            let v: i32 = if x < 0x80000000u64 { x as i32 } else { ((x - 0x80000000u64) as i32) - 0x40000000 - 0x40000000 };
        out.push(v);
        i = i + 1;
    }
    out
}

fn typed_u32(raw: &Vec<u64>) -> (r: Vec<u32>)
    requires
        forall|i: int| 0 <= i < raw@.len() ==> (#[trigger] raw@[i] as nat) < pow256(4),
    ensures
        r@.map_values(|x: u32| x as int) =~= raw@.map_values(|x: u64| typed_value(NumericType::U32, x as nat)),
{
    proof {
        lemma_pow256_values();
    }
    let mut out: Vec<u32> = Vec::new();
    let mut i: usize = 0;
    while i < raw.len()
        invariant
            i <= raw@.len(),
            out@.len() == i,
            pow256(4) == 4294967296,
            forall|k: int| 0 <= k < raw@.len() ==> (#[trigger] raw@[k] as nat) < pow256(4),
            forall|k: int| 0 <= k < i ==> (#[trigger] out@[k]) as int == typed_value(NumericType::U32, raw@[k] as nat),
        decreases raw@.len() - i,
    {
        let v: u32 = raw[i] as u32;
        out.push(v);
        i = i + 1;
    }
    out
}

fn typed_i64(raw: &Vec<u64>) -> (r: Vec<i64>)
    requires
        forall|i: int| 0 <= i < raw@.len() ==> (#[trigger] raw@[i] as nat) < pow256(8),
    ensures
        r@.map_values(|x: i64| x as int) =~= raw@.map_values(|x: u64| typed_value(NumericType::I64, x as nat)),
{
    proof {
        lemma_pow256_values();
    }
    let mut out: Vec<i64> = Vec::new();
    let mut i: usize = 0;
    while i < raw.len()
        invariant
            i <= raw@.len(),
            out@.len() == i,
            pow256(8) == 18446744073709551616,
            forall|k: int| 0 <= k < raw@.len() ==> (#[trigger] raw@[k] as nat) < pow256(8),
            forall|k: int| 0 <= k < i ==> (#[trigger] out@[k]) as int == typed_value(NumericType::I64, raw@[k] as nat),
        decreases raw@.len() - i,
    {
        let x = raw[i];
            let v: i64 = if x < 0x8000000000000000u64 { x as i64 } else { ((x - 0x8000000000000000u64) as i64) - 0x4000000000000000 - 0x4000000000000000 };
        out.push(v);
        i = i + 1;
    }
    out
}

fn typed_u64(raw: &Vec<u64>) -> (r: Vec<u64>)
    requires
        forall|i: int| 0 <= i < raw@.len() ==> (#[trigger] raw@[i] as nat) < pow256(8),
    ensures
        r@.map_values(|x: u64| x as int) =~= raw@.map_values(|x: u64| typed_value(NumericType::U64, x as nat)),
{
    proof {
        lemma_pow256_values();
    }
    let mut out: Vec<u64> = Vec::new();
    let mut i: usize = 0;
    while i < raw.len()
        invariant
            i <= raw@.len(),
            out@.len() == i,
            pow256(8) == 18446744073709551616,
            forall|k: int| 0 <= k < raw@.len() ==> (#[trigger] raw@[k] as nat) < pow256(8),
            forall|k: int| 0 <= k < i ==> (#[trigger] out@[k]) as int == typed_value(NumericType::U64, raw@[k] as nat),
        decreases raw@.len() - i,
    {
        let v: u64 = raw[i] as u64;
        out.push(v);
        i = i + 1;
    }
    out
}

/// Builds the payload of element type `t` from raw words.
fn typed_data(t: NumericType, raw: &Vec<u64>) -> (r: NumericData)
    requires
        forall|i: int| 0 <= i < raw@.len() ==> (#[trigger] raw@[i] as nat) < pow256(t.width()),
    ensures
        r@ == (NumericDataView { ty: t, values: raw@.map_values(|x: u64| typed_value(t, x as nat)) }),
{
    match t {
        NumericType::F64 => NumericData::F64(typed_f64(raw)),
        NumericType::F32 => NumericData::F32(typed_f32(raw)),
        NumericType::I8 => NumericData::I8(typed_i8(raw)),
        NumericType::U8 => NumericData::U8(typed_u8(raw)),
        NumericType::I16 => NumericData::I16(typed_i16(raw)),
        NumericType::U16 => NumericData::U16(typed_u16(raw)),
        NumericType::I32 => NumericData::I32(typed_i32(raw)),
        NumericType::U32 => NumericData::U32(typed_u32(raw)),
        NumericType::I64 => NumericData::I64(typed_i64(raw)),
        NumericType::U64 => NumericData::U64(typed_u64(raw)),
    }
}

/// Decodes a numeric data element of `expected_len = rows * cols` elements,
/// stored in column-major order, into a row-major payload.
pub fn decode_numeric_data(
    name: &str,
    data_type: u32,
    bytes: &[u8],
    endian: Endian,
    rows: usize,
    cols: usize,
    expected_len: usize,
) -> (r: Result<NumericData, MatError>)
    requires
        expected_len == rows * cols,
    ensures
        match spec_decode(name@, data_type, bytes@, endian, rows as nat, cols as nat, expected_len as nat) {
            Ok(d) => r matches Ok(x) && x@ == d,
            Err(e) => r matches Err(x) && x@ == e,
        },
{
    reveal(spec_decode);
    let t = match data_type_to_numeric(data_type) {
        Some(t) => t,
        None => {
            return Err(MatError::UnsupportedDataType { name: String::from_str(name), data_type });
        },
    };
    let w = type_width(t);
    let expected_bytes = match expected_len.checked_mul(w) {
        Some(b) => b,
        None => {
            return Err(MatError::MalformedVariable {
                name: String::from_str(name),
                message: String::from_str("payload byte count overflow"),
            });
        },
    };
    if bytes.len() != expected_bytes {
        let mut message = String::from_str("payload has ");
        message.append(crate::text::usize_text(bytes.len()).as_str());
        message.append(" bytes, expected ");
        message.append(crate::text::usize_text(expected_bytes).as_str());
        return Err(MatError::MalformedVariable { name: String::from_str(name), message });
    }
    let raw = decode_words(bytes, w, endian, rows, cols, expected_len);
    let data = typed_data(t, &raw);
    proof {
        let target = raw_words(bytes@, w as nat, endian, rows as nat, cols as nat, expected_len as nat);
        assert(raw@.map_values(|x: u64| typed_value(t, x as nat)) =~= target.map_values(|r: nat| typed_value(t, r)));
    }
    Ok(data)
}

} // verus!

verus! {

/// The dimensions stored in a dimensions payload: signed 32-bit words.
pub open spec fn dims_of(d: Seq<u8>, e: Endian) -> Seq<i32> {
    Seq::new(d.len() / 4, |i: int| to_signed(e.value(d.subrange(4 * i, 4 * i + 4)), 32) as i32)
}

/// The product of `acc` and the dimensions, or `None` when a partial product
/// exceeds `usize::MAX`.
pub open spec fn checked_product(acc: nat, ds: Seq<i32>) -> Option<nat>
    decreases ds.len(),
{
    if ds.len() == 0 {
        Some(acc)
    } else if acc * (ds[0] as int) > usize::MAX {
        None
    } else {
        checked_product((acc * (ds[0] as int)) as nat, ds.drop_first())
    }
}

pub open spec fn unknown_name() -> Seq<char> {
    "<unknown>"@
}

/// What is read after the name element of a matrix: checks on the dimensions
/// and class, then the real and (if complex) imaginary payloads.
#[verifier::opaque]
pub open spec fn spec_parse_matrix_rest(
    s: Seq<u8>,
    e: Endian,
    class: u32,
    complex: bool,
    dims: Seq<i32>,
    name: Seq<char>,
    off: int,
) -> Result<crate::mat::types::MatArrayView, MatErrorView> {
    if dims.len() < 2 || exists|i: int| 0 <= i < dims.len() && #[trigger] dims[i] < 0 {
        Err(MatErrorView::MalformedDimensions { name, dims })
    } else {
        match checked_product(1, dims.drop_first()) {
            None => Err(MatErrorView::MalformedVariable { name, message: "dimensions overflow usize"@ }),
            Some(cols) => {
                let rows = dims[0] as nat;
                if rows * cols > usize::MAX {
                    Err(MatErrorView::MalformedVariable { name, message: "dimensions overflow usize"@ })
                } else if class == crate::mat::format::MX_SPARSE_CLASS || !crate::mat::format::spec_supported_class(class) {
                    Err(MatErrorView::UnsupportedClass { name, class })
                } else {
                    match crate::mat::element::spec_read_element(s, off, e) {
                        Err(err) => Err(MatErrorView::MalformedVariable { name, message: crate::mat::element::element_error_text(err) }),
                        Ok(re) => match spec_decode(name, re.data_type, re.data, e, rows, cols, rows * cols) {
                            Err(x) => Err(x),
                            Ok(re_data) => if !complex {
                                Ok(crate::mat::types::MatArrayView { name, rows, cols, numeric_type: re_data.ty, real: re_data, imag: None })
                            } else {
                                match crate::mat::element::spec_read_element(s, re.next, e) {
                                    Err(err) => Err(MatErrorView::MalformedVariable { name, message: crate::mat::element::element_error_text(err) }),
                                    Ok(ie) => match spec_decode(name, ie.data_type, ie.data, e, rows, cols, rows * cols) {
                                        Err(x) => Err(x),
                                        Ok(im_data) => if im_data.ty != re_data.ty {
                                            Err(MatErrorView::MalformedVariable { name, message: "real and imaginary payload types differ"@ })
                                        } else {
                                            Ok(crate::mat::types::MatArrayView { name, rows, cols, numeric_type: re_data.ty, real: re_data, imag: Some(im_data) })
                                        },
                                    },
                                }
                            },
                        },
                    }
                }
            },
        }
    }
}

/// Decodes the payload of a matrix element: array flags, dimensions, name and
/// numeric data.
#[verifier::opaque]
pub open spec fn spec_parse_matrix(s: Seq<u8>, e: Endian) -> Result<crate::mat::types::MatArrayView, MatErrorView> {
    let unknown = unknown_name();
    match crate::mat::element::spec_read_element(s, 0, e) {
        Err(err) => Err(MatErrorView::MalformedVariable { name: unknown, message: crate::mat::element::element_error_text(err) }),
        Ok(flags) => if flags.data_type != crate::mat::format::MI_UINT32 || flags.data.len() < 4 {
            Err(MatErrorView::MalformedVariable { name: unknown, message: "missing array flags"@ })
        } else {
            let word = e.value(flags.data.take(4)) as u32;
            let class = word & 0xff;
            let complex = (word & crate::mat::format::MX_COMPLEX_FLAG) != 0;
            match crate::mat::element::spec_read_element(s, flags.next, e) {
                Err(err) => Err(MatErrorView::MalformedVariable { name: unknown, message: crate::mat::element::element_error_text(err) }),
                Ok(de) => if de.data_type != MI_INT32 || de.data.len() % 4 != 0 {
                    Err(MatErrorView::MalformedVariable { name: unknown, message: "missing int32 dimensions"@ })
                } else {
                    let dims = dims_of(de.data, e);
                    match crate::mat::element::spec_read_element(s, de.next, e) {
                        Err(err) => Err(MatErrorView::MalformedVariable { name: unknown, message: crate::mat::element::element_error_text(err) }),
                        Ok(ne) => {
                            let name = if ne.data_type == MI_INT8 || ne.data_type == MI_UINT8 {
                                utf8_lossy_text(ne.data)
                            } else {
                                unknown
                            };
                            spec_parse_matrix_rest(s, e, class, complex, dims, name, ne.next)
                        },
                    }
                },
            }
        },
    }
}

pub proof fn lemma_read_element_next(s: Seq<u8>, off: int, e: Endian)
    requires
        0 <= off <= s.len(),
    ensures
        spec_read_element_ok_next(s, off, e),
{
    reveal(crate::mat::element::spec_read_element);
}

/// A successful read ends within the window, past the start unless at the end.
pub open spec fn spec_read_element_ok_next(s: Seq<u8>, off: int, e: Endian) -> bool {
    match crate::mat::element::spec_read_element(s, off, e) {
        Ok(el) => off <= el.next <= s.len() && (off < s.len() ==> el.next >= off + 8),
        Err(_) => true,
    }
}

fn read_dims(data: &[u8], endian: Endian) -> (r: Vec<i32>)
    requires
        data@.len() % 4 == 0,
    ensures
        r@ == dims_of(data@, endian),
{
    let len = data.len();
    let n = len / 4;
    let mut out: Vec<i32> = Vec::new();
    let mut i: usize = 0;
    while i < n
        invariant
            i <= n,
            len == data@.len(),
            n == data@.len() / 4,
            data@.len() % 4 == 0,
            out@.len() == i,
            forall|k: int| 0 <= k < i ==> #[trigger] out@[k] == dims_of(data@, endian)[k],
        decreases n - i,
    {
        assert(4 * i + 4 <= data@.len());
        let chunk = &data[4 * i..4 * i + 4];
        proof {
            assert(chunk@.take(4) =~= data@.subrange(4 * i, 4 * i + 4));
        }
        let v = endian.read_i32(chunk);
        out.push(v);
        i = i + 1;
    }
    proof {
        assert(out@ =~= dims_of(data@, endian));
    }
    out
}

fn element_error(name: String, err: crate::mat::element::ElementError) -> (r: MatError)
    ensures
        r@ == (MatErrorView::MalformedVariable { name: name@, message: crate::mat::element::element_error_text(err) }),
{
    MatError::MalformedVariable { name, message: err.message() }
}

fn unknown() -> (r: String)
    ensures
        r@ == unknown_name(),
{
    String::from_str("<unknown>")
}

} // verus!

verus! {

fn any_negative(dims: &Vec<i32>) -> (r: bool)
    ensures
        r == exists|i: int| 0 <= i < dims@.len() && #[trigger] dims@[i] < 0,
{
    let mut i: usize = 0;
    while i < dims.len()
        invariant
            i <= dims@.len(),
            forall|k: int| 0 <= k < i ==> #[trigger] dims@[k] >= 0,
        decreases dims@.len() - i,
    {
        if dims[i] < 0 {
            return true;
        }
        i = i + 1;
    }
    false
}

fn product_of_rest(dims: &Vec<i32>) -> (r: Option<usize>)
    requires
        dims@.len() >= 1,
        forall|i: int| 0 <= i < dims@.len() ==> #[trigger] dims@[i] >= 0,
    ensures
        match checked_product(1, dims@.drop_first()) {
            Some(p) => r == Some(p as usize) && p <= usize::MAX,
            None => r is None,
        },
{
    let mut acc: usize = 1;
    let mut i: usize = 1;
    while i < dims.len()
        invariant
            1 <= i <= dims@.len(),
            forall|k: int| 0 <= k < dims@.len() ==> #[trigger] dims@[k] >= 0,
            checked_product(1, dims@.drop_first()) == checked_product(acc as nat, dims@.skip(i as int)),
        decreases dims@.len() - i,
    {
        let d = dims[i];
        proof {
            let rest = dims@.skip(i as int);
            assert(rest[0] == d);
            assert(rest.drop_first() =~= dims@.skip(i + 1));
        }
        match acc.checked_mul(d as usize) {
            None => {
                return None;
            },
            Some(next) => {
                acc = next;
            },
        }
        i = i + 1;
    }
    proof {
        assert(dims@.skip(i as int).len() == 0);
    }
    Some(acc)
}

/// Decodes the payload of a matrix element into an array.
pub fn parse_matrix_element(bytes: &[u8], endian: Endian) -> (r: Result<crate::mat::types::MatArray, MatError>)
    ensures
        match spec_parse_matrix(bytes@, endian) {
            Ok(a) => r matches Ok(x) && x@ == a,
            Err(e) => r matches Err(x) && x@ == e,
        },
{
    reveal(spec_parse_matrix);
    reveal(spec_parse_matrix_rest);
    let mut offset: usize = 0;
    let flags = match crate::mat::element::read_element(bytes, &mut offset, endian) {
        Ok(f) => f,
        Err(err) => {
            return Err(element_error(unknown(), err));
        },
    };
    if flags.data_type != crate::mat::format::MI_UINT32 || flags.data.len() < 4 {
        return Err(MatError::MalformedVariable { name: unknown(), message: String::from_str("missing array flags") });
    }
    proof {
        lemma_read_element_next(bytes@, 0, endian);
    }
    let flag_word = endian.read_u32(flags.data);
    let class = flag_word & 0xff;
    let is_complex = (flag_word & crate::mat::format::MX_COMPLEX_FLAG) != 0;
    let ghost off1 = offset;
    let dims_element = match crate::mat::element::read_element(bytes, &mut offset, endian) {
        Ok(d) => d,
        Err(err) => {
            return Err(element_error(unknown(), err));
        },
    };
    if dims_element.data_type != MI_INT32 || dims_element.data.len() % 4 != 0 {
        return Err(MatError::MalformedVariable { name: unknown(), message: String::from_str("missing int32 dimensions") });
    }
    proof {
        lemma_read_element_next(bytes@, off1 as int, endian);
    }
    let dims = read_dims(dims_element.data, endian);
    let ghost off2 = offset;
    let name_element = match crate::mat::element::read_element(bytes, &mut offset, endian) {
        Ok(n) => n,
        Err(err) => {
            return Err(element_error(unknown(), err));
        },
    };
    proof {
        lemma_read_element_next(bytes@, off2 as int, endian);
    }
    let name = if name_element.data_type == MI_INT8 || name_element.data_type == MI_UINT8 {
        utf8_lossy(name_element.data)
    } else {
        unknown()
    };
    if dims.len() < 2 || any_negative(&dims) {
        return Err(MatError::MalformedDimensions { name, dims });
    }
    let rows = dims[0] as usize;
    let cols = match product_of_rest(&dims) {
        Some(c) => c,
        None => {
            return Err(MatError::MalformedVariable { name, message: String::from_str("dimensions overflow usize") });
        },
    };
    let expected_len = match rows.checked_mul(cols) {
        Some(n) => n,
        None => {
            return Err(MatError::MalformedVariable { name, message: String::from_str("dimensions overflow usize") });
        },
    };
    if class == crate::mat::format::MX_SPARSE_CLASS || !crate::mat::format::supported_class(class) {
        return Err(MatError::UnsupportedClass { name, class });
    }
    let ghost off3 = offset;
    let real_element = match crate::mat::element::read_element(bytes, &mut offset, endian) {
        Ok(x) => x,
        Err(err) => {
            return Err(element_error(name, err));
        },
    };
    proof {
        lemma_read_element_next(bytes@, off3 as int, endian);
    }
    let re_data = decode_numeric_data(name.as_str(), real_element.data_type, real_element.data, endian, rows, cols, expected_len)?;
    let numeric_type = re_data.numeric_type();
    if !is_complex {
        return Ok(crate::mat::types::MatArray { name, rows, cols, numeric_type, real: re_data, imag: None });
    }
    let imag_element = match crate::mat::element::read_element(bytes, &mut offset, endian) {
        Ok(x) => x,
        Err(err) => {
            return Err(element_error(name, err));
        },
    };
    let imag = decode_numeric_data(name.as_str(), imag_element.data_type, imag_element.data, endian, rows, cols, expected_len)?;
    if imag.numeric_type() != numeric_type {
        return Err(MatError::MalformedVariable { name, message: String::from_str("real and imaginary payload types differ") });
    }
    Ok(crate::mat::types::MatArray { name, rows, cols, numeric_type, real: re_data, imag: Some(imag) })
}

} // verus!

verus! {

/// Decodes the top-level elements from `off` on, adding each matrix to `acc`.
pub open spec fn spec_parse_vars(
    path: Seq<char>,
    s: Seq<u8>,
    off: int,
    e: Endian,
    acc: Seq<crate::mat::types::MatArrayView>,
) -> Result<Seq<crate::mat::types::MatArrayView>, MatErrorView>
    decreases s.len() - off,
{
    if off < 0 || off >= s.len() {
        Ok(acc)
    } else {
        match crate::mat::element::spec_read_element(s, off, e) {
            Err(err) => Err(MatErrorView::MalformedFile { path, message: crate::mat::element::element_error_text(err) }),
            Ok(el) => if el.data_type == 0 && el.data.len() == 0 {
                Ok(acc)
            } else if el.data_type == crate::mat::format::MI_MATRIX {
                match spec_parse_matrix(el.data, e) {
                    Err(x) => Err(x),
                    Ok(a) => if el.next <= off || el.next > s.len() {
                        Ok(acc)
                    } else {
                        spec_parse_vars(path, s, el.next, e, crate::mat::data::spec_insert(acc, a))
                    },
                }
            } else if el.data_type == crate::mat::format::MI_COMPRESSED {
                Err(MatErrorView::UnsupportedDataType { name: "<compressed>"@, data_type: crate::mat::format::MI_COMPRESSED })
            } else {
                Err(MatErrorView::UnsupportedDataType { name: "<top-level>"@, data_type: el.data_type })
            },
        }
    }
}

/// Decodes a whole MAT file: the 128-byte header with its byte-order marker,
/// then the top-level matrix elements.
pub open spec fn spec_parse_mat_file(path: Seq<char>, s: Seq<u8>) -> Result<Seq<crate::mat::types::MatArrayView>, MatErrorView> {
    if s.len() < 128 {
        Err(MatErrorView::InvalidHeader { path, message: "file has "@ + decimal(s.len()) + " bytes, expected at least 128"@ })
    } else if s[126] == 73 && s[127] == 77 {
        spec_parse_vars(path, s, 128, Endian::Little, Seq::empty())
    } else if s[126] == 77 && s[127] == 73 {
        spec_parse_vars(path, s, 128, Endian::Big, Seq::empty())
    } else {
        Err(MatErrorView::UnsupportedEndian { path, marker: seq![s[126], s[127]] })
    }
}

/// Decodes the bytes of a MAT file named `path` (the name is used in errors).
pub fn parse_mat_file(path: &str, bytes: &[u8]) -> (r: Result<crate::mat::data::MatData, MatError>)
    ensures
        match spec_parse_mat_file(path@, bytes@) {
            Ok(es) => r matches Ok(d) && d@ == es,
            Err(e) => r matches Err(x) && x@ == e,
        },
{
    if bytes.len() < 128 {
        let mut message = String::from_str("file has ");
        message.append(crate::text::usize_text(bytes.len()).as_str());
        message.append(" bytes, expected at least 128");
        return Err(MatError::InvalidHeader { path: String::from_str(path), message });
    }
    let endian = if bytes[126] == 73 && bytes[127] == 77 {
        Endian::Little
    } else if bytes[126] == 77 && bytes[127] == 73 {
        Endian::Big
    } else {
        let marker: [u8; 2] = [bytes[126], bytes[127]];
        proof {
            assert(marker@ =~= seq![bytes@[126], bytes@[127]]);
        }
        return Err(MatError::UnsupportedEndian { path: String::from_str(path), marker });
    };
    let mut offset: usize = 128;
    let mut variables = crate::mat::data::MatData::new();
    let ghost target = spec_parse_mat_file(path@, bytes@);
    while offset < bytes.len()
        invariant
            128 <= offset <= bytes@.len(),
            crate::mat::data::sorted_names(variables@),
            target == spec_parse_vars(path@, bytes@, offset as int, endian, variables@),
            target == spec_parse_mat_file(path@, bytes@),
        decreases bytes@.len() - offset,
    {
        proof {
            lemma_read_element_next(bytes@, offset as int, endian);
        }
        let ghost off0 = offset;
        let element = match crate::mat::element::read_element(bytes, &mut offset, endian) {
            Ok(el) => el,
            Err(err) => {
                return Err(MatError::MalformedFile { path: String::from_str(path), message: err.message() });
            },
        };
        if element.data_type == 0 && element.data.len() == 0 {
            return Ok(variables);
        }
        if element.data_type == crate::mat::format::MI_MATRIX {
            let array = parse_matrix_element(element.data, endian)?;
            variables.insert(array);
        } else if element.data_type == crate::mat::format::MI_COMPRESSED {
            return Err(MatError::UnsupportedDataType {
                name: String::from_str("<compressed>"),
                data_type: crate::mat::format::MI_COMPRESSED,
            });
        } else {
            return Err(MatError::UnsupportedDataType { name: String::from_str("<top-level>"), data_type: element.data_type });
        }
    }
    Ok(variables)
}

} // verus!

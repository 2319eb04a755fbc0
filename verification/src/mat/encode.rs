//! The byte layout that the writer produces: tags, array flags, dimensions,
//! names, numeric payloads in column-major order, and the file header.

use vstd::prelude::*;
use vstd::utf8::encode_utf8;
use crate::mat::bytes::{le_bytes, zeros, push_le, push_zeros, push_all};
use crate::mat::element::pad8;
use crate::mat::format::{MI_INT8, MI_INT32, MI_UINT32, MX_COMPLEX_FLAG};

verus! {

/// An 8-byte tag: data type and byte count, both as 32-bit little-endian words.
/// The count is kept modulo `2^32`, as the format stores it in 32 bits.
pub open spec fn tag_bytes(data_type: u32, n: nat) -> Seq<u8> {
    le_bytes(data_type as nat, 4) + le_bytes(n, 4)
}

/// The array-flags word: the class, with the complex bit when complex.
pub open spec fn flags_word(class: u32, complex: bool) -> u32 {
    if complex {
        class | MX_COMPLEX_FLAG
    } else {
        class
    }
}

pub open spec fn array_flags_bytes(class: u32, complex: bool) -> Seq<u8> {
    tag_bytes(MI_UINT32, 8) + le_bytes(flags_word(class, complex) as nat, 4) + le_bytes(0, 4)
}

/// The dimensions element; each dimension is stored in 32 bits.
pub open spec fn dims_bytes(rows: nat, cols: nat) -> Seq<u8> {
    tag_bytes(MI_INT32, 8) + le_bytes(rows, 4) + le_bytes(cols, 4)
}

/// The name element: the UTF-8 bytes of the name, padded to 8 bytes.
pub open spec fn name_bytes(name: Seq<char>) -> Seq<u8> {
    let b = encode_utf8(name);
    tag_bytes(MI_INT8, b.len()) + b + zeros(pad8(b.len() as int) as nat)
}

/// Words of `w` bytes each, little-endian, one after another.
pub open spec fn words_le(ws: Seq<nat>, w: nat) -> Seq<u8>
    decreases ws.len(),
{
    if ws.len() == 0 {
        Seq::empty()
    } else {
        words_le(ws.drop_last(), w) + le_bytes(ws.last(), w)
    }
}

/// The column-major order of a row-major `rows x cols` matrix.
pub open spec fn col_major(ws: Seq<nat>, rows: nat, cols: nat) -> Seq<nat> {
    Seq::new(rows * cols, |k: int| ws[(k % (rows as int)) * cols + k / (rows as int)])
}

/// A numeric data element of words of `w` bytes, written in column-major order.
pub open spec fn numeric_bytes(data_type: u32, w: nat, rows: nat, cols: nat, ws: Seq<nat>) -> Seq<u8> {
    tag_bytes(data_type, w * ws.len()) + words_le(col_major(ws, rows, cols), w) + zeros(
        pad8((w * ws.len()) as int) as nat,
    )
}

/// The header text of files this library writes.
pub open spec fn header_description() -> Seq<u8> {
    seq![
        77u8, 65, 84, 76, 65, 66, 32, 53, 46, 48, 32, 77, 65, 84, 45, 102, 105, 108, 101, 44, 32, 80,
        108, 97, 116, 102, 111, 114, 109, 58, 32, 112, 121, 83, 84, 65, 77, 80, 83, 32, 82, 117,
        115, 116, 32, 110, 97, 116, 105, 118, 101,
    ]
}

/// The 128-byte header: description padded with spaces to 116 bytes, 8 zero
/// bytes, version `0x0100` and the little-endian marker `IM`.
pub open spec fn header_bytes() -> Seq<u8> {
    header_description() + Seq::new(65, |i: int| 32u8) + zeros(8)
        + seq![0u8, 1u8, 73u8, 77u8]
}

pub proof fn lemma_words_le_len(ws: Seq<nat>, w: nat)
    ensures
        words_le(ws, w).len() == w * ws.len(),
    decreases ws.len(),
{
    if ws.len() > 0 {
        lemma_words_le_len(ws.drop_last(), w);
        crate::mat::bytes::lemma_le_bytes_len(ws.last(), w);
        assert(w * ws.len() == w * (ws.len() - 1) + w) by (nonlinear_arith)
            requires
                ws.len() > 0,
        ;
    }
}

/// Appends a tag.
pub fn write_tag(out: &mut Vec<u8>, data_type: u32, bytes: usize)
    ensures
        final(out)@ == old(out)@ + tag_bytes(data_type, bytes as nat),
{
    let ghost start = out@;
    push_le(out, data_type as u64, 4);
    push_le(out, bytes as u64, 4);
    proof {
        assert(out@ =~= start + tag_bytes(data_type, bytes as nat));
    }
}

/// Appends the zero bytes that pad `len` bytes to a multiple of 8.
pub fn pad_to_8(out: &mut Vec<u8>, len: usize)
    ensures
        final(out)@ == old(out)@ + zeros(pad8(len as int) as nat),
{
    let pad = (8 - (len % 8)) % 8;
    push_zeros(out, pad);
}

/// Appends the array-flags element.
pub fn write_array_flags(out: &mut Vec<u8>, class: u32, complex: bool)
    ensures
        final(out)@ == old(out)@ + array_flags_bytes(class, complex),
{
    let ghost start = out@;
    write_tag(out, MI_UINT32, 8);
    let flags = if complex {
        class | MX_COMPLEX_FLAG
    } else {
        class
    };
    push_le(out, flags as u64, 4);
    push_le(out, 0, 4);
    proof {
        assert(out@ =~= start + array_flags_bytes(class, complex));
    }
}

/// Appends the dimensions element.
pub fn write_dimensions(out: &mut Vec<u8>, rows: usize, cols: usize)
    ensures
        final(out)@ == old(out)@ + dims_bytes(rows as nat, cols as nat),
{
    let ghost start = out@;
    write_tag(out, MI_INT32, 8);
    push_le(out, rows as u64, 4);
    push_le(out, cols as u64, 4);
    proof {
        assert(out@ =~= start + dims_bytes(rows as nat, cols as nat));
    }
}

/// Appends the name element.
pub fn write_name(out: &mut Vec<u8>, name: &str)
    ensures
        final(out)@ == old(out)@ + name_bytes(name@),
{
    let ghost start = out@;
    let b = name.as_bytes();
    write_tag(out, MI_INT8, b.len());
    push_all(out, b);
    pad_to_8(out, b.len());
    proof {
        assert(out@ =~= start + name_bytes(name@));
    }
}

pub proof fn lemma_col_major_index(k: int, rows: int, cols: int)
    requires
        0 <= k < rows * cols,
        rows > 0,
        cols > 0,
    ensures
        0 <= (k % rows) * cols + k / rows < rows * cols,
{
    let r = k % rows;
    let c = k / rows;
    assert(0 <= r < rows && 0 <= c < cols) by (nonlinear_arith)
        requires
            0 <= k < rows * cols,
            rows > 0,
            cols > 0,
            r == k % rows,
            c == k / rows,
    ;
    assert(0 <= r * cols + c < rows * cols) by (nonlinear_arith)
        requires
            0 <= r < rows,
            0 <= c < cols,
    ;
}

/// Appends a numeric data element holding `words` (a row-major `rows x cols`
/// matrix) in column-major order, `w` bytes per word.
pub fn write_numeric_data(out: &mut Vec<u8>, data_type: u32, w: usize, rows: usize, cols: usize, words: &Vec<u64>)
    requires
        w <= 8,
        words@.len() == rows * cols,
        w * words@.len() <= usize::MAX,
    ensures
        final(out)@ == old(out)@ + numeric_bytes(
            data_type,
            w as nat,
            rows as nat,
            cols as nat,
            words@.map_values(|x: u64| x as nat),
        ),
{
    let ghost start = out@;
    let ghost ws = words@.map_values(|x: u64| x as nat);
    let ghost cm = col_major(ws, rows as nat, cols as nat);
    let n = words.len();
    let byte_len = w * n;
    write_tag(out, data_type, byte_len);
    let ghost after_tag = out@;
    let mut k: usize = 0;
    while k < n
        invariant
            k <= n,
            n == words@.len(),
            n == rows * cols,
            w <= 8,
            ws == words@.map_values(|x: u64| x as nat),
            cm == col_major(ws, rows as nat, cols as nat),
            out@ == after_tag + words_le(cm.take(k as int), w as nat),
        decreases n - k,
    {
        proof {
            lemma_col_major_index(k as int, rows as int, cols as int);
        }
        let ix = (k % rows) * cols + k / rows;
        let ghost before = out@;
        push_le(out, words[ix], w);
        proof {
            assert(cm[k as int] == ws[ix as int]);
            assert(cm.take(k + 1).drop_last() =~= cm.take(k as int));
            assert(out@ =~= after_tag + words_le(cm.take(k + 1), w as nat));
        }
        k = k + 1;
    }
    pad_to_8(out, byte_len);
    proof {
        assert(cm.take(n as int) =~= cm);
        assert(out@ =~= start + numeric_bytes(data_type, w as nat, rows as nat, cols as nat, ws));
    }
}

/// Appends the 128-byte file header.
pub fn write_header(out: &mut Vec<u8>)
    ensures
        final(out)@ == old(out)@ + header_bytes(),
{
    let ghost start = out@;
    let description: [u8; 51] = [
        77u8, 65, 84, 76, 65, 66, 32, 53, 46, 48, 32, 77, 65, 84, 45, 102, 105, 108, 101, 44, 32, 80,
        108, 97, 116, 102, 111, 114, 109, 58, 32, 112, 121, 83, 84, 65, 77, 80, 83, 32, 82, 117,
        115, 116, 32, 110, 97, 116, 105, 118, 101,
    ];
    let mut i: usize = 0;
    while i < 51
        invariant
            i <= 51,
            description@ == header_description(),
            out@ == start + header_description().take(i as int),
        decreases 51 - i,
    {
        out.push(description[i]);
        i = i + 1;
        proof {
            assert(out@ =~= start + header_description().take(i as int));
        }
    }
    let ghost after_text = out@;
    let mut j: usize = 0;
    while j < 65
        invariant
            j <= 65,
            out@ == after_text + Seq::new(j as nat, |i: int| 32u8),
        decreases 65 - j,
    {
        out.push(32u8);
        j = j + 1;
        proof {
            assert(out@ =~= after_text + Seq::new(j as nat, |i: int| 32u8));
        }
    }
    push_zeros(out, 8);
    out.push(0u8);
    out.push(1u8);
    out.push(73u8);
    out.push(77u8);
    proof {
        assert(header_description().take(51) =~= header_description());
        assert(out@ =~= start + header_bytes());
    }
}

} // verus!

//! What a read gives back of a write: decoding the bytes that the writer
//! produces yields, for every name, the last variable written under it.

use vstd::prelude::*;
use vstd::utf8::{encode_utf8, decode_utf8, valid_utf8};
use crate::mat::bytes::{le_bytes, le_value, pow256, lemma_pow256_values, lemma_le_roundtrip_small, lemma_le_value_2, lemma_le_value_4, lemma_le_bytes_len};
use crate::mat::element::{spec_read_element, ElementSpec, pad8};
use crate::mat::encode::{tag_bytes, words_le, col_major, lemma_words_le_len};
use crate::mat::format::Endian;

verus! {

proof fn lemma_small_word(dt: u32)
    requires
        dt < 256,
    ensures
        le_bytes(dt as nat, 4) == seq![dt as u8, 0u8, 0u8, 0u8],
{
    reveal_with_fuel(le_bytes, 5);
    assert(le_bytes(dt as nat, 4) =~= seq![dt as u8, 0u8, 0u8, 0u8]);
}

/// A tagged element with a small type code and a 32-bit size reads back as
/// that type, that payload, and ends after its padding.
pub proof fn lemma_read_tagged(s: Seq<u8>, off: int, dt: u32, n: nat)
    requires
        0 <= off,
        dt < 256,
        n < 0x1_0000_0000,
        off + 8 + n + pad8(n as int) <= s.len(),
        s.len() <= usize::MAX,
        s.subrange(off, off + 8) == tag_bytes(dt, n),
    ensures
        spec_read_element(s, off, Endian::Little) == Ok::<ElementSpec, crate::mat::element::ElementError>(ElementSpec {
            data_type: dt,
            data: s.subrange(off + 8, off + 8 + n),
            next: off + 8 + n + pad8(n as int),
        }),
{
    reveal(spec_read_element);
    lemma_small_word(dt);
    lemma_pow256_values();
    lemma_le_roundtrip_small(n, 4);
    let t = s.subrange(off, off + 8);
    assert(t =~= seq![dt as u8, 0u8, 0u8, 0u8] + le_bytes(n, 4));
    let lb = le_bytes(n, 4);
    let h = seq![dt as u8, 0u8, 0u8, 0u8];
    assert forall|j: int| 0 <= j < 8 implies #[trigger] s[off + j] == (h + lb)[j] by {
        assert(t[j] == s[off + j]);
    }
    assert forall|j: int| 0 <= j < 4 implies #[trigger] s[off + 4 + j] == lb[j] by {
        assert(s[off + (4 + j)] == (h + lb)[4 + j]);
    }
    assert forall|j: int| 0 <= j < 4 implies #[trigger] s[off + j] == h[j] by {
        assert(s[off + j] == (h + lb)[j]);
    }
    assert(s.subrange(off, off + 2) =~= seq![dt as u8, 0u8]);
    assert(s.subrange(off + 2, off + 4) =~= seq![0u8, 0u8]) by {
        assert(s[off + 2] == h[2]);
        assert(s[off + 3] == h[3]);
    }
    assert(s.subrange(off, off + 4) =~= h);
    assert(lb.len() == 4);
    assert forall|j: int| 0 <= j < 4 implies #[trigger] s.subrange(off + 4, off + 8)[j] == lb[j] by {
        assert(s[off + 4 + j] == lb[j]);
    }
    assert(s.subrange(off + 4, off + 8) =~= lb);
    lemma_le_value_2(seq![dt as u8, 0u8]);
    lemma_le_value_2(seq![0u8, 0u8]);
    lemma_le_value_4(seq![dt as u8, 0u8, 0u8, 0u8]);
}

} // verus!

verus! {

/// Word `k` of a sequence of words sits at bytes `k*w .. k*w + w`.
pub proof fn lemma_words_le_block(ws: Seq<nat>, w: nat, k: int)
    requires
        0 <= k < ws.len(),
    ensures
        0 <= k * w,
        k * w + w <= w * ws.len(),
        words_le(ws, w).subrange(k * w, k * w + w) == le_bytes(ws[k], w),
    decreases ws.len(),
{
    let n = ws.len();
    let prefix = ws.drop_last();
    lemma_words_le_len(prefix, w);
    lemma_le_bytes_len(ws.last(), w);
    let whole = words_le(ws, w);
    assert(whole == words_le(prefix, w) + le_bytes(ws.last(), w));
    assert(w * n == w * (n - 1) + w) by (nonlinear_arith)
        requires
            n > 0,
    ;
    assert(0 <= k * w && k * w + w <= w * n) by (nonlinear_arith)
        requires
            0 <= k < n,
    ;
    if k == n - 1 {
        assert(k * w == w * (n - 1)) by (nonlinear_arith)
            requires
                k == n - 1,
        ;
        assert(whole.subrange(k * w, k * w + w) =~= le_bytes(ws.last(), w));
    } else {
        lemma_words_le_block(prefix, w, k);
        assert(k * w + w <= w * (n - 1)) by (nonlinear_arith)
            requires
                0 <= k < n - 1,
        ;
        assert(prefix[k] == ws[k]);
        assert(whole.subrange(k * w, k * w + w) =~= words_le(prefix, w).subrange(k * w, k * w + w));
    }
}

/// Reading back the column-major position of a row-major element finds it.
pub proof fn lemma_col_major_roundtrip(ws: Seq<nat>, rows: nat, cols: nat, i: int)
    requires
        0 <= i < rows * cols,
        ws.len() == rows * cols,
    ensures
        0 <= crate::mat::reader::source_index(i, rows as int, cols as int) < rows * cols,
        col_major(ws, rows, cols)[crate::mat::reader::source_index(i, rows as int, cols as int)] == ws[i],
{
    let r = rows as int;
    let c = cols as int;
    assert(r > 0 && c > 0) by (nonlinear_arith)
        requires
            0 <= i < r * c,
            r >= 0,
            c >= 0,
    ;
    let cc = i % c;
    let rr = i / c;
    assert(0 <= cc < c && 0 <= rr < r && i == rr * c + cc) by (nonlinear_arith)
        requires
            0 <= i < r * c,
            r > 0,
            c > 0,
            cc == i % c,
            rr == i / c,
    ;
    let k = cc * r + rr;
    assert(0 <= k < r * c) by (nonlinear_arith)
        requires
            0 <= cc < c,
            0 <= rr < r,
            k == cc * r + rr,
    ;
    vstd::arithmetic::div_mod::lemma_fundamental_div_mod_converse_mod(k, r, cc, rr);
    vstd::arithmetic::div_mod::lemma_fundamental_div_mod_converse_div(k, r, cc, rr);
    assert(k % r == rr && k / r == cc);
    assert(rr * c + cc == i);
}

/// The values an element type can hold.
pub open spec fn in_range(t: crate::mat::types::NumericType, v: int) -> bool {
    if t.is_signed() {
        -(pow256(t.width()) / 2) <= v < pow256(t.width()) / 2
    } else {
        0 <= v < pow256(t.width())
    }
}

proof fn lemma_word_roundtrip(t: crate::mat::types::NumericType, v: int)
    requires
        in_range(t, v),
    ensures
        crate::mat::writer::word_of(v, t.width()) < pow256(t.width()),
        crate::mat::reader::typed_value(t, crate::mat::writer::word_of(v, t.width())) == v,
{
    lemma_pow256_values();
}

/// Decoding the payload bytes that the writer produced for `vals` gives `vals`.
pub proof fn lemma_decode_written(
    name: Seq<char>,
    t: crate::mat::types::NumericType,
    dt: u32,
    rows: nat,
    cols: nat,
    vals: Seq<int>,
)
    requires
        crate::mat::reader::type_of_data(dt) == Some(t),
        vals.len() == rows * cols,
        rows * cols * t.width() <= usize::MAX,
        forall|i: int| 0 <= i < vals.len() ==> in_range(t, #[trigger] vals[i]),
    ensures
        crate::mat::reader::spec_decode(
            name,
            dt,
            words_le(col_major(crate::mat::writer::words_of(vals, t.width()), rows, cols), t.width()),
            Endian::Little,
            rows,
            cols,
            rows * cols,
        ) == Ok::<crate::mat::types::NumericDataView, crate::mat::error::MatErrorView>(
            crate::mat::types::NumericDataView { ty: t, values: vals },
        ),
{
    reveal(crate::mat::reader::spec_decode);
    let w = t.width();
    let ws = crate::mat::writer::words_of(vals, w);
    let cm = col_major(ws, rows, cols);
    let s = words_le(cm, w);
    let n = rows * cols;
    lemma_words_le_len(cm, w);
    assert(n * w == w * n) by (nonlinear_arith);
    let raw = crate::mat::reader::raw_words(s, w, Endian::Little, rows, cols, n);
    let got = raw.map_values(|r: nat| crate::mat::reader::typed_value(t, r));
    assert forall|i: int| 0 <= i < n implies #[trigger] got[i] == vals[i] by {
        lemma_col_major_roundtrip(ws, rows, cols, i);
        let k = crate::mat::reader::source_index(i, rows as int, cols as int);
        lemma_words_le_block(cm, w, k);
        lemma_word_roundtrip(t, vals[i]);
        assert(cm[k] == ws[i]);
        lemma_le_roundtrip_small(cm[k], w);
        assert(raw[i] == le_value(s.subrange(k * w, k * w + w)));
    }
    assert(got =~= vals);
}

} // verus!

verus! {

/// The element type that a written variable reads back as.
pub open spec fn kind_type(k: crate::mat::writer::VarKind) -> crate::mat::types::NumericType {
    match k {
        crate::mat::writer::VarKind::F64 | crate::mat::writer::VarKind::ComplexF64 => crate::mat::types::NumericType::F64,
        crate::mat::writer::VarKind::F32 | crate::mat::writer::VarKind::ComplexF32 => crate::mat::types::NumericType::F32,
        crate::mat::writer::VarKind::I32 => crate::mat::types::NumericType::I32,
        crate::mat::writer::VarKind::U32 => crate::mat::types::NumericType::U32,
        crate::mat::writer::VarKind::U8 => crate::mat::types::NumericType::U8,
    }
}

/// The array that a written variable reads back as.
pub open spec fn array_of(v: crate::mat::writer::MatVarView) -> crate::mat::types::MatArrayView {
    let t = kind_type(v.kind);
    crate::mat::types::MatArrayView {
        name: v.name,
        rows: v.rows,
        cols: v.cols,
        numeric_type: t,
        real: crate::mat::types::NumericDataView { ty: t, values: v.real },
        imag: if v.kind.is_complex() {
            Some(crate::mat::types::NumericDataView { ty: t, values: v.imag })
        } else {
            None
        },
    }
}

/// A variable as the writer holds it: consistent element counts and every
/// element within the range of its type.
pub open spec fn var_valid(v: crate::mat::writer::MatVarView) -> bool {
    &&& crate::mat::writer::counts_ok(v)
    &&& forall|i: int| 0 <= i < v.real.len() ==> in_range(kind_type(v.kind), #[trigger] v.real[i])
    &&& forall|i: int| 0 <= i < v.imag.len() ==> in_range(kind_type(v.kind), #[trigger] v.imag[i])
}

/// What the format can represent: dimensions up to `i32::MAX` (they are stored
/// as signed 32-bit words) and a matrix element below 4 GiB (its size is stored
/// in 32 bits).
pub open spec fn var_encodable(v: crate::mat::writer::MatVarView) -> bool {
    &&& v.rows <= 0x7fff_ffff
    &&& v.cols <= 0x7fff_ffff
    &&& crate::mat::writer::var_body(v).len() < 0x1_0000_0000
}

proof fn lemma_dims_of_written(rows: nat, cols: nat)
    requires
        rows <= 0x7fff_ffff,
        cols <= 0x7fff_ffff,
    ensures
        crate::mat::reader::dims_of(le_bytes(rows, 4) + le_bytes(cols, 4), Endian::Little)
            == seq![rows as i32, cols as i32],
{
    lemma_pow256_values();
    lemma_le_roundtrip_small(rows, 4);
    lemma_le_roundtrip_small(cols, 4);
    let d = le_bytes(rows, 4) + le_bytes(cols, 4);
    assert(d.subrange(0, 4) =~= le_bytes(rows, 4));
    assert(d.subrange(4, 8) =~= le_bytes(cols, 4));
    let ds = crate::mat::reader::dims_of(d, Endian::Little);
    assert(ds.len() == 2);
    assert(ds[0] == rows as i32);
    assert(ds[1] == cols as i32);
    assert(ds =~= seq![rows as i32, cols as i32]);
}

proof fn lemma_flags_bits(class: u32, complex: bool)
    requires
        class < 256,
    ensures
        crate::mat::encode::flags_word(class, complex) & 0xff == class,
        (crate::mat::encode::flags_word(class, complex) & crate::mat::format::MX_COMPLEX_FLAG != 0) == complex,
{
    if complex {
        assert((class | 0x800u32) & 0xff == class) by (bit_vector)
            requires
                class < 256,
        ;
        assert((class | 0x800u32) & 0x800u32 != 0) by (bit_vector);
    } else {
        assert(class & 0xff == class) by (bit_vector)
            requires
                class < 256,
        ;
        assert(class & 0x800u32 == 0) by (bit_vector)
            requires
                class < 256,
        ;
    }
}

} // verus!

verus! {

proof fn lemma_tag_len(dt: u32, n: nat)
    ensures
        tag_bytes(dt, n).len() == 8,
{
    lemma_le_bytes_len(dt as nat, 4);
    lemma_le_bytes_len(n, 4);
}

proof fn lemma_numeric_len(dt: u32, w: nat, rows: nat, cols: nat, ws: Seq<nat>)
    requires
        ws.len() == rows * cols,
    ensures
        crate::mat::encode::numeric_bytes(dt, w, rows, cols, ws).len() == 8 + w * ws.len() + pad8((w * ws.len()) as int),
        crate::mat::encode::numeric_bytes(dt, w, rows, cols, ws) == tag_bytes(dt, w * ws.len()) + words_le(col_major(ws, rows, cols), w)
            + crate::mat::bytes::zeros(pad8((w * ws.len()) as int) as nat),
{
    lemma_tag_len(dt, w * ws.len());
    lemma_words_le_len(col_major(ws, rows, cols), w);
}

/// Reads the numeric element that the writer put at `off` in `body`.
proof fn lemma_read_written_numeric(
    body: Seq<u8>,
    off: int,
    v: crate::mat::writer::MatVarView,
    vals: Seq<int>,
)
    requires
        var_valid(v),
        vals.len() == v.rows * v.cols,
        forall|i: int| 0 <= i < vals.len() ==> in_range(kind_type(v.kind), #[trigger] vals[i]),
        0 <= off,
        body.len() < 0x1_0000_0000,
        body.len() <= usize::MAX,
        off + crate::mat::encode::numeric_bytes(v.kind.data_type(), v.kind.width(), v.rows, v.cols,
            crate::mat::writer::words_of(vals, v.kind.width())).len() <= body.len(),
        body.subrange(off, off + crate::mat::encode::numeric_bytes(v.kind.data_type(), v.kind.width(), v.rows, v.cols,
            crate::mat::writer::words_of(vals, v.kind.width())).len()) == crate::mat::encode::numeric_bytes(
            v.kind.data_type(), v.kind.width(), v.rows, v.cols, crate::mat::writer::words_of(vals, v.kind.width())),
    ensures
        ({
            let w = v.kind.width();
            let n = v.rows * v.cols;
            &&& spec_read_element(body, off, Endian::Little) matches Ok(el)
            &&& el.next == off + 8 + w * n + pad8((w * n) as int)
            &&& crate::mat::reader::spec_decode(v.name, el.data_type, el.data, Endian::Little, v.rows, v.cols, n)
                == Ok::<crate::mat::types::NumericDataView, crate::mat::error::MatErrorView>(
                crate::mat::types::NumericDataView { ty: kind_type(v.kind), values: vals })
        }),
{
    let k = v.kind;
    let w = k.width();
    let t = kind_type(k);
    let n = v.rows * v.cols;
    let ws = crate::mat::writer::words_of(vals, w);
    let cm = col_major(ws, v.rows, v.cols);
    let nb = crate::mat::encode::numeric_bytes(k.data_type(), w, v.rows, v.cols, ws);
    lemma_numeric_len(k.data_type(), w, v.rows, v.cols, ws);
    let tag = tag_bytes(k.data_type(), w * n);
    let payload = words_le(cm, w);
    lemma_tag_len(k.data_type(), w * n);
    lemma_words_le_len(cm, w);
    assert(body.subrange(off, off + 8) =~= tag) by {
        assert forall|j: int| 0 <= j < 8 implies #[trigger] body.subrange(off, off + 8)[j] == tag[j] by {
            assert(body.subrange(off, off + nb.len())[j] == nb[j]);
        }
    }
    assert(w * n < 0x1_0000_0000);
    lemma_read_tagged(body, off, k.data_type(), w * n);
    assert(body.subrange(off + 8, off + 8 + w * n) =~= payload) by {
        assert forall|j: int| 0 <= j < w * n implies #[trigger] body.subrange(off + 8, off + 8 + w * n)[j] == payload[j] by {
            assert(body.subrange(off, off + nb.len())[8 + j] == nb[8 + j]);
        }
    }
    assert(w == t.width());
    assert(crate::mat::reader::type_of_data(k.data_type()) == Some(t));
    assert(n * t.width() <= usize::MAX) by (nonlinear_arith)
        requires
            w * n < 0x1_0000_0000,
            w == t.width(),
            usize::MAX >= 0xffff_ffff,
    ;
    lemma_decode_written(v.name, t, k.data_type(), v.rows, v.cols, vals);
}

} // verus!

verus! {

/// Decoding the body that the writer produced for a variable gives its array.
pub proof fn lemma_parse_written_body(v: crate::mat::writer::MatVarView)
    requires
        var_valid(v),
        var_encodable(v),
    ensures
        crate::mat::reader::spec_parse_matrix(crate::mat::writer::var_body(v), Endian::Little)
            == Ok::<crate::mat::types::MatArrayView, crate::mat::error::MatErrorView>(array_of(v)),
{
    reveal(crate::mat::reader::spec_parse_matrix);
    reveal(crate::mat::reader::spec_parse_matrix_rest);
    lemma_pow256_values();
    let k = v.kind;
    let t = kind_type(k);
    let w = k.width();
    let cx = k.is_complex();
    let n = v.rows * v.cols;
    let flags = crate::mat::encode::flags_word(k.class(), cx);
    let a = crate::mat::encode::array_flags_bytes(k.class(), cx);
    let d = crate::mat::encode::dims_bytes(v.rows, v.cols);
    let nb = encode_utf8(v.name);
    let nm = crate::mat::encode::name_bytes(v.name);
    let wr = crate::mat::writer::words_of(v.real, w);
    let wi = crate::mat::writer::words_of(v.imag, w);
    let r = crate::mat::encode::numeric_bytes(k.data_type(), w, v.rows, v.cols, wr);
    let i = if cx {
        crate::mat::encode::numeric_bytes(k.data_type(), w, v.rows, v.cols, wi)
    } else {
        Seq::<u8>::empty()
    };
    let body = crate::mat::writer::var_body(v);
    assert(body == a + d + nm + r + i);
    lemma_tag_len(crate::mat::format::MI_UINT32, 8);
    lemma_tag_len(crate::mat::format::MI_INT32, 8);
    lemma_tag_len(crate::mat::format::MI_INT8, nb.len());
    lemma_le_bytes_len(flags as nat, 4);
    lemma_le_bytes_len(0, 4);
    lemma_le_bytes_len(v.rows, 4);
    lemma_le_bytes_len(v.cols, 4);
    lemma_numeric_len(k.data_type(), w, v.rows, v.cols, wr);
    if cx {
        lemma_numeric_len(k.data_type(), w, v.rows, v.cols, wi);
    }
    assert(a.len() == 16);
    assert(d.len() == 16);
    let nl = nm.len() as int;
    assert(nl == 8 + nb.len() + pad8(nb.len() as int));
    let off3 = 32 + nl;
    let off4 = off3 + r.len();
    assert(body.len() == off4 + i.len());
    assert(body.len() <= usize::MAX);

    // array flags
    assert(body.subrange(0, 8) =~= tag_bytes(crate::mat::format::MI_UINT32, 8));
    lemma_read_tagged(body, 0, crate::mat::format::MI_UINT32, 8);
    let fdata = body.subrange(8, 16);
    assert(fdata =~= le_bytes(flags as nat, 4) + le_bytes(0, 4));
    assert(fdata.take(4) =~= le_bytes(flags as nat, 4));
    lemma_le_roundtrip_small(flags as nat, 4);
    lemma_flags_bits(k.class(), cx);

    // dimensions
    assert(body.subrange(16, 24) =~= tag_bytes(crate::mat::format::MI_INT32, 8));
    lemma_read_tagged(body, 16, crate::mat::format::MI_INT32, 8);
    assert(body.subrange(24, 32) =~= le_bytes(v.rows, 4) + le_bytes(v.cols, 4));
    lemma_dims_of_written(v.rows, v.cols);
    let dims = seq![v.rows as i32, v.cols as i32];

    // name
    assert(body.subrange(32, 40) =~= tag_bytes(crate::mat::format::MI_INT8, nb.len()));
    lemma_read_tagged(body, 32, crate::mat::format::MI_INT8, nb.len());
    assert(body.subrange(40, 40 + nb.len() as int) =~= nb);
    vstd::utf8::encode_utf8_valid_utf8(v.name);
    vstd::utf8::encode_utf8_decode_utf8(v.name);
    assert(crate::mat::reader::utf8_lossy_text(nb) == v.name);

    // dimensions checks
    assert(!(exists|j: int| 0 <= j < dims.len() && #[trigger] dims[j] < 0));
    assert(dims.drop_first() =~= seq![v.cols as i32]);
    assert(crate::mat::reader::checked_product(1, seq![v.cols as i32]) == Some(v.cols)) by {
        reveal_with_fuel(crate::mat::reader::checked_product, 2);
        assert(seq![v.cols as i32].drop_first().len() == 0);
    }
    assert(w * n < 0x1_0000_0000);
    assert(n <= usize::MAX) by (nonlinear_arith)
        requires
            w * n < 0x1_0000_0000,
            w >= 1,
            usize::MAX >= 0xffff_ffff,
    ;

    // real part
    assert(body.subrange(off3, off3 + r.len()) =~= r);
    lemma_read_written_numeric(body, off3, v, v.real);
    if cx {
        assert(body.subrange(off4, off4 + i.len()) =~= i);
        lemma_read_written_numeric(body, off4, v, v.imag);
    }
}

} // verus!

verus! {

/// The entries after inserting each variable's array in turn.
pub open spec fn insert_all(
    acc: Seq<crate::mat::types::MatArrayView>,
    vars: Seq<crate::mat::writer::MatVarView>,
) -> Seq<crate::mat::types::MatArrayView>
    decreases vars.len(),
{
    if vars.len() == 0 {
        acc
    } else {
        insert_all(crate::mat::data::spec_insert(acc, array_of(vars[0])), vars.drop_first())
    }
}

/// The last variable with this name, if any.
pub open spec fn last_named(vars: Seq<crate::mat::writer::MatVarView>, name: Seq<char>) -> Option<crate::mat::writer::MatVarView>
    decreases vars.len(),
{
    if vars.len() == 0 {
        None
    } else {
        match last_named(vars.drop_first(), name) {
            Some(x) => Some(x),
            None => if vars[0].name == name {
                Some(vars[0])
            } else {
                None
            },
        }
    }
}

proof fn lemma_vars_bytes_front(vars: Seq<crate::mat::writer::MatVarView>)
    requires
        vars.len() > 0,
    ensures
        crate::mat::writer::vars_bytes(vars) == crate::mat::writer::var_bytes(vars[0])
            + crate::mat::writer::vars_bytes(vars.drop_first()),
    decreases vars.len(),
{
    let dl = vars.drop_last();
    if vars.len() == 1 {
        assert(dl.len() == 0);
        assert(vars.drop_first().len() == 0);
        assert(vars.last() == vars[0]);
        assert(crate::mat::writer::vars_bytes(dl) =~= Seq::<u8>::empty());
        assert(crate::mat::writer::vars_bytes(vars.drop_first()) =~= Seq::<u8>::empty());
        assert(crate::mat::writer::vars_bytes(vars) =~= crate::mat::writer::var_bytes(vars[0]));
        assert(crate::mat::writer::var_bytes(vars[0]) + Seq::<u8>::empty() =~= crate::mat::writer::var_bytes(vars[0]));
    } else {
        lemma_vars_bytes_front(dl);
        assert(dl[0] == vars[0]);
        assert(vars.drop_first().drop_last() =~= dl.drop_first());
        assert(vars.drop_first().last() == vars.last());
        assert(crate::mat::writer::vars_bytes(vars.drop_first()) == crate::mat::writer::vars_bytes(dl.drop_first())
            + crate::mat::writer::var_bytes(vars.last()));
        assert(crate::mat::writer::vars_bytes(vars) =~= crate::mat::writer::var_bytes(vars[0])
            + crate::mat::writer::vars_bytes(vars.drop_first()));
    }
}

proof fn lemma_var_bytes_len(v: crate::mat::writer::MatVarView)
    ensures
        crate::mat::writer::var_bytes(v).len() == 8 + crate::mat::writer::var_body(v).len()
            + pad8(crate::mat::writer::var_body(v).len() as int),
{
    lemma_tag_len(crate::mat::format::MI_MATRIX, crate::mat::writer::var_body(v).len());
}

/// Decoding, from `off`, the elements the writer produced for `vars` inserts
/// each variable's array in turn.
proof fn lemma_parse_vars_written(
    path: Seq<char>,
    s: Seq<u8>,
    off: int,
    vars: Seq<crate::mat::writer::MatVarView>,
    acc: Seq<crate::mat::types::MatArrayView>,
)
    requires
        0 <= off <= s.len(),
        s.len() <= usize::MAX,
        s.subrange(off, s.len() as int) == crate::mat::writer::vars_bytes(vars),
        forall|i: int| 0 <= i < vars.len() ==> var_valid(#[trigger] vars[i]) && var_encodable(vars[i]),
    ensures
        crate::mat::reader::spec_parse_vars(path, s, off, Endian::Little, acc)
            == Ok::<Seq<crate::mat::types::MatArrayView>, crate::mat::error::MatErrorView>(insert_all(acc, vars)),
    decreases vars.len(),
{
    if vars.len() == 0 {
        assert(s.subrange(off, s.len() as int).len() == 0);
    } else {
        let v = vars[0];
        let rest = vars.drop_first();
        lemma_vars_bytes_front(vars);
        let vb = crate::mat::writer::var_bytes(v);
        let body = crate::mat::writer::var_body(v);
        let bl = body.len();
        lemma_var_bytes_len(v);
        lemma_tag_len(crate::mat::format::MI_MATRIX, bl);
        let tail = s.subrange(off, s.len() as int);
        assert(tail == vb + crate::mat::writer::vars_bytes(rest));
        assert(off + vb.len() <= s.len());
        assert(s.subrange(off, off + 8) =~= tag_bytes(crate::mat::format::MI_MATRIX, bl)) by {
            assert forall|j: int| 0 <= j < 8 implies #[trigger] s.subrange(off, off + 8)[j] == tag_bytes(crate::mat::format::MI_MATRIX, bl)[j] by {
                assert(tail[j] == vb[j]);
            }
        }
        lemma_read_tagged(s, off, crate::mat::format::MI_MATRIX, bl);
        assert(s.subrange(off + 8, off + 8 + bl) =~= body) by {
            assert forall|j: int| 0 <= j < bl implies #[trigger] s.subrange(off + 8, off + 8 + bl)[j] == body[j] by {
                assert(tail[8 + j] == vb[8 + j]);
            }
        }
        lemma_parse_written_body(v);
        let next = off + vb.len();
        assert(s.subrange(next, s.len() as int) =~= crate::mat::writer::vars_bytes(rest)) by {
            assert forall|j: int| 0 <= j < s.len() - next implies #[trigger] s.subrange(next, s.len() as int)[j]
                == crate::mat::writer::vars_bytes(rest)[j] by {
                assert(tail[vb.len() + j] == s[next + j]);
            }
        }
        assert forall|i: int| 0 <= i < rest.len() implies var_valid(#[trigger] rest[i]) && var_encodable(rest[i]) by {
            assert(rest[i] == vars[i + 1]);
        }
        lemma_parse_vars_written(path, s, next, rest, crate::mat::data::spec_insert(acc, array_of(v)));
    }
}

/// Decoding a whole file that the writer produced inserts each variable's array
/// in the order the variables were queued.
pub proof fn lemma_parse_written_file(path: Seq<char>, vars: Seq<crate::mat::writer::MatVarView>)
    requires
        forall|i: int| 0 <= i < vars.len() ==> var_valid(#[trigger] vars[i]) && var_encodable(vars[i]),
        crate::mat::writer::file_bytes(vars).len() <= usize::MAX,
    ensures
        crate::mat::reader::spec_parse_mat_file(path, crate::mat::writer::file_bytes(vars))
            == Ok::<Seq<crate::mat::types::MatArrayView>, crate::mat::error::MatErrorView>(insert_all(Seq::empty(), vars)),
{
    let s = crate::mat::writer::file_bytes(vars);
    let h = crate::mat::encode::header_bytes();
    assert(h.len() == 128);
    assert(s[126] == h[126] && s[127] == h[127]);
    assert(s[126] == 73 && s[127] == 77);
    assert(s.subrange(128, s.len() as int) =~= crate::mat::writer::vars_bytes(vars));
    lemma_parse_vars_written(path, s, 128, vars, Seq::empty());
}

/// Reading a name from the inserted entries gives the array of the last
/// variable with that name, or what the entries held before.
pub proof fn lemma_lookup_insert_all(
    acc: Seq<crate::mat::types::MatArrayView>,
    vars: Seq<crate::mat::writer::MatVarView>,
    name: Seq<char>,
)
    ensures
        crate::mat::data::lookup(insert_all(acc, vars), name) == (match last_named(vars, name) {
            Some(v) => Some(array_of(v)),
            None => crate::mat::data::lookup(acc, name),
        }),
    decreases vars.len(),
{
    if vars.len() > 0 {
        let acc2 = crate::mat::data::spec_insert(acc, array_of(vars[0]));
        lemma_lookup_insert_all(acc2, vars.drop_first(), name);
        crate::mat::data::lemma_lookup_insert(acc, array_of(vars[0]), name);
    }
}

proof fn lemma_insert_all_sorted(acc: Seq<crate::mat::types::MatArrayView>, vars: Seq<crate::mat::writer::MatVarView>)
    requires
        crate::mat::data::sorted_names(acc),
    ensures
        crate::mat::data::sorted_names(insert_all(acc, vars)),
    decreases vars.len(),
{
    if vars.len() > 0 {
        crate::mat::data::lemma_insert_sorted(acc, array_of(vars[0]));
        lemma_insert_all_sorted(crate::mat::data::spec_insert(acc, array_of(vars[0])), vars.drop_first());
    }
}

/// What a read gives back of a write.  Decoding the bytes of a file whose
/// variables the format can represent succeeds; for every name, the decoded
/// file holds exactly the array of the last variable written under that name
/// (same name, dimensions, element type and row-major values, imaginary part
/// for complex variables), and nothing for names never written; and the
/// decoded arrays are listed in increasing order of name.
pub proof fn law_read_gives_back_write(path: Seq<char>, vars: Seq<crate::mat::writer::MatVarView>, name: Seq<char>)
    requires
        forall|i: int| 0 <= i < vars.len() ==> var_valid(#[trigger] vars[i]) && var_encodable(vars[i]),
        crate::mat::writer::file_bytes(vars).len() <= usize::MAX,
    ensures
        crate::mat::reader::spec_parse_mat_file(path, crate::mat::writer::file_bytes(vars)) matches Ok(es)
            && crate::mat::data::lookup(es, name) == (match last_named(vars, name) {
                Some(v) => Some(array_of(v)),
                None => None,
            })
            && crate::mat::data::sorted_names(es),
{
    lemma_parse_written_file(path, vars);
    lemma_lookup_insert_all(Seq::empty(), vars, name);
    lemma_insert_all_sorted(Seq::empty(), vars);
}

} // verus!

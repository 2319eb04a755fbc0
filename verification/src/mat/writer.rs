//! Building a MAT file in memory and encoding it to bytes.

use vstd::prelude::*;
use crate::mat::bytes::{le_bytes, zeros};
use crate::mat::element::pad8;
use crate::mat::encode::{
    array_flags_bytes, dims_bytes, name_bytes, numeric_bytes, tag_bytes, header_bytes, write_tag,
    pad_to_8, write_array_flags, write_dimensions, write_name, write_numeric_data, write_header,
};
use crate::mat::error::{MatError, MatErrorView};
use crate::mat::format::{
    MI_DOUBLE, MI_SINGLE, MI_INT32, MI_UINT32, MI_UINT8, MI_MATRIX, MX_DOUBLE_CLASS, MX_SINGLE_CLASS,
    MX_INT32_CLASS, MX_UINT32_CLASS, MX_UINT8_CLASS,
};
use crate::mat::types::{Matrix, ComplexMatrixF32, ComplexMatrixF64};

verus! {

/// The kind of a variable queued for writing.
#[derive(Clone, Copy, Debug, PartialEq, Eq, Structural)]
pub enum VarKind {
    F64,
    F32,
    I32,
    U32,
    U8,
    ComplexF64,
    ComplexF32,
}

impl VarKind {
    pub open spec fn class(self) -> u32 {
        match self {
            VarKind::F64 | VarKind::ComplexF64 => MX_DOUBLE_CLASS,
            VarKind::F32 | VarKind::ComplexF32 => MX_SINGLE_CLASS,
            VarKind::I32 => MX_INT32_CLASS,
            VarKind::U32 => MX_UINT32_CLASS,
            VarKind::U8 => MX_UINT8_CLASS,
        }
    }

    pub open spec fn data_type(self) -> u32 {
        match self {
            VarKind::F64 | VarKind::ComplexF64 => MI_DOUBLE,
            VarKind::F32 | VarKind::ComplexF32 => MI_SINGLE,
            VarKind::I32 => MI_INT32,
            VarKind::U32 => MI_UINT32,
            VarKind::U8 => MI_UINT8,
        }
    }

    /// Bytes per element.
    pub open spec fn width(self) -> nat {
        match self {
            VarKind::F64 | VarKind::ComplexF64 => 8,
            VarKind::F32 | VarKind::ComplexF32 | VarKind::I32 | VarKind::U32 => 4,
            VarKind::U8 => 1,
        }
    }

    pub open spec fn is_complex(self) -> bool {
        self == VarKind::ComplexF64 || self == VarKind::ComplexF32
    }
}

/// A variable queued for writing.  Element values are integers: bit patterns
/// for floating-point kinds.
pub struct MatVarView {
    pub kind: VarKind,
    pub name: Seq<char>,
    pub rows: nat,
    pub cols: nat,
    pub real: Seq<int>,
    pub imag: Seq<int>,
}

/// The unsigned word that stores a value of `w` bytes (two's complement for
/// negative values).
pub open spec fn word_of(v: int, w: nat) -> nat {
    if v < 0 {
        (v + crate::mat::bytes::pow256(w)) as nat
    } else {
        v as nat
    }
}

pub open spec fn words_of(vals: Seq<int>, w: nat) -> Seq<nat> {
    vals.map_values(|v: int| word_of(v, w))
}

/// The body of a variable's matrix element.
pub open spec fn var_body(v: MatVarView) -> Seq<u8> {
    let k = v.kind;
    array_flags_bytes(k.class(), k.is_complex()) + dims_bytes(v.rows, v.cols) + name_bytes(v.name)
        + numeric_bytes(k.data_type(), k.width(), v.rows, v.cols, words_of(v.real, k.width()))
        + (if k.is_complex() {
        numeric_bytes(k.data_type(), k.width(), v.rows, v.cols, words_of(v.imag, k.width()))
    } else {
        Seq::empty()
    })
}

/// A variable's complete matrix element.
pub open spec fn var_bytes(v: MatVarView) -> Seq<u8> {
    let body = var_body(v);
    tag_bytes(MI_MATRIX, body.len()) + body + zeros(pad8(body.len() as int) as nat)
}

pub open spec fn vars_bytes(vars: Seq<MatVarView>) -> Seq<u8>
    decreases vars.len(),
{
    if vars.len() == 0 {
        Seq::empty()
    } else {
        vars_bytes(vars.drop_last()) + var_bytes(vars.last())
    }
}

/// The bytes of a whole file.
pub open spec fn file_bytes(vars: Seq<MatVarView>) -> Seq<u8> {
    header_bytes() + vars_bytes(vars)
}

/// A variable queued for writing.
#[derive(Clone, Debug)]
pub enum MatVar {
    F64(Matrix<u64>),
    F32(Matrix<u32>),
    I32(Matrix<i32>),
    U32(Matrix<u32>),
    U8(Matrix<u8>),
    ComplexF64(ComplexMatrixF64),
    ComplexF32(ComplexMatrixF32),
}

impl View for MatVar {
    type V = MatVarView;

    open spec fn view(&self) -> MatVarView {
        match self {
            MatVar::F64(m) => MatVarView { kind: VarKind::F64, name: m.name@, rows: m.rows as nat, cols: m.cols as nat,
                real: m.values@.map_values(|x: u64| x as int), imag: Seq::empty() },
            MatVar::F32(m) => MatVarView { kind: VarKind::F32, name: m.name@, rows: m.rows as nat, cols: m.cols as nat,
                real: m.values@.map_values(|x: u32| x as int), imag: Seq::empty() },
            MatVar::I32(m) => MatVarView { kind: VarKind::I32, name: m.name@, rows: m.rows as nat, cols: m.cols as nat,
                real: m.values@.map_values(|x: i32| x as int), imag: Seq::empty() },
            MatVar::U32(m) => MatVarView { kind: VarKind::U32, name: m.name@, rows: m.rows as nat, cols: m.cols as nat,
                real: m.values@.map_values(|x: u32| x as int), imag: Seq::empty() },
            MatVar::U8(m) => MatVarView { kind: VarKind::U8, name: m.name@, rows: m.rows as nat, cols: m.cols as nat,
                real: m.values@.map_values(|x: u8| x as int), imag: Seq::empty() },
            MatVar::ComplexF64(m) => MatVarView { kind: VarKind::ComplexF64, name: m.name@, rows: m.rows as nat, cols: m.cols as nat,
                real: m.values@.map_values(|x: (u64, u64)| x.0 as int), imag: m.values@.map_values(|x: (u64, u64)| x.1 as int) },
            MatVar::ComplexF32(m) => MatVarView { kind: VarKind::ComplexF32, name: m.name@, rows: m.rows as nat, cols: m.cols as nat,
                real: m.values@.map_values(|x: (u32, u32)| x.0 as int), imag: m.values@.map_values(|x: (u32, u32)| x.1 as int) },
        }
    }
}

/// A queued variable is well formed when it holds exactly `rows * cols`
/// elements (per part) and its payload size fits in memory.
pub open spec fn var_wf(v: MatVarView) -> bool {
    &&& v.real.len() == v.rows * v.cols
    &&& (v.kind.is_complex() ==> v.imag.len() == v.rows * v.cols)
    &&& v.kind.width() * v.real.len() <= usize::MAX
}

} // verus!

verus! {

/// Checks that `values` holds exactly `rows * cols` elements and builds the matrix.
pub fn matrix_with_values<T>(name: String, rows: usize, cols: usize, values: Vec<T>) -> (r: Result<Matrix<T>, MatError>)
    ensures
        match r {
            Ok(m) => rows * cols <= usize::MAX && values@.len() == rows * cols && m.name@ == name@
                && m.rows == rows && m.cols == cols && m.values@ == values@,
            Err(e) => !(rows * cols <= usize::MAX && values@.len() == rows * cols) && e@ == (MatErrorView::Shape {
                name: name@,
                rows,
                cols,
                actual: values@.len() as usize,
            }),
        },
{
    let expected = rows.checked_mul(cols);
    match expected {
        None => Err(MatError::Shape { name, rows, cols, actual: values.len() }),
        Some(expected) => {
            if values.len() != expected {
                Err(MatError::Shape { name, rows, cols, actual: values.len() })
            } else {
                Ok(Matrix { name, rows, cols, values })
            }
        },
    }
}

/// Checks the element count of a single-precision complex matrix and builds it.
pub fn complex_f32_with_values(name: String, rows: usize, cols: usize, values: Vec<(u32, u32)>) -> (r: Result<ComplexMatrixF32, MatError>)
    ensures
        match r {
            Ok(m) => rows * cols <= usize::MAX && values@.len() == rows * cols && m.name@ == name@
                && m.rows == rows && m.cols == cols && m.values@ == values@,
            Err(e) => !(rows * cols <= usize::MAX && values@.len() == rows * cols) && e@ == (MatErrorView::Shape {
                name: name@,
                rows,
                cols,
                actual: values@.len() as usize,
            }),
        },
{
    let expected = rows.checked_mul(cols);
    match expected {
        None => Err(MatError::Shape { name, rows, cols, actual: values.len() }),
        Some(expected) => {
            if values.len() != expected {
                Err(MatError::Shape { name, rows, cols, actual: values.len() })
            } else {
                Ok(ComplexMatrixF32 { name, rows, cols, values })
            }
        },
    }
}

/// Checks the element count of a double-precision complex matrix and builds it.
pub fn complex_f64_with_values(name: String, rows: usize, cols: usize, values: Vec<(u64, u64)>) -> (r: Result<ComplexMatrixF64, MatError>)
    ensures
        match r {
            Ok(m) => rows * cols <= usize::MAX && values@.len() == rows * cols && m.name@ == name@
                && m.rows == rows && m.cols == cols && m.values@ == values@,
            Err(e) => !(rows * cols <= usize::MAX && values@.len() == rows * cols) && e@ == (MatErrorView::Shape {
                name: name@,
                rows,
                cols,
                actual: values@.len() as usize,
            }),
        },
{
    let expected = rows.checked_mul(cols);
    match expected {
        None => Err(MatError::Shape { name, rows, cols, actual: values.len() }),
        Some(expected) => {
            if values.len() != expected {
                Err(MatError::Shape { name, rows, cols, actual: values.len() })
            } else {
                Ok(ComplexMatrixF64 { name, rows, cols, values })
            }
        },
    }
}

fn words_u64(vals: &Vec<u64>) -> (r: Vec<u64>)
    ensures
        r@.map_values(|x: u64| x as nat) =~= words_of(vals@.map_values(|x: u64| x as int), 8),
{
    let mut out: Vec<u64> = Vec::new();
    let mut i: usize = 0;
    while i < vals.len()
        invariant
            i <= vals@.len(),
            out@.len() == i,
            forall|k: int| 0 <= k < i ==> out@[k] == vals@[k],
        decreases vals@.len() - i,
    {
        out.push(vals[i]);
        i = i + 1;
    }
    out
}

fn words_u32(vals: &Vec<u32>) -> (r: Vec<u64>)
    ensures
        r@.map_values(|x: u64| x as nat) =~= words_of(vals@.map_values(|x: u32| x as int), 4),
{
    let mut out: Vec<u64> = Vec::new();
    let mut i: usize = 0;
    while i < vals.len()
        invariant
            i <= vals@.len(),
            out@.len() == i,
            forall|k: int| 0 <= k < i ==> out@[k] == vals@[k] as u64,
        decreases vals@.len() - i,
    {
        out.push(vals[i] as u64);
        i = i + 1;
    }
    out
}

fn words_u8(vals: &Vec<u8>) -> (r: Vec<u64>)
    ensures
        r@.map_values(|x: u64| x as nat) =~= words_of(vals@.map_values(|x: u8| x as int), 1),
{
    let mut out: Vec<u64> = Vec::new();
    let mut i: usize = 0;
    while i < vals.len()
        invariant
            i <= vals@.len(),
            out@.len() == i,
            forall|k: int| 0 <= k < i ==> out@[k] == vals@[k] as u64,
        decreases vals@.len() - i,
    {
        out.push(vals[i] as u64);
        i = i + 1;
    }
    out
}

fn words_i32(vals: &Vec<i32>) -> (r: Vec<u64>)
    ensures
        r@.map_values(|x: u64| x as nat) =~= words_of(vals@.map_values(|x: i32| x as int), 4),
{
    proof {
        crate::mat::bytes::lemma_pow256_values();
    }
    let mut out: Vec<u64> = Vec::new();
    let mut i: usize = 0;
    while i < vals.len()
        invariant
            i <= vals@.len(),
            out@.len() == i,
            crate::mat::bytes::pow256(4) == 0x1_0000_0000,
            forall|k: int| 0 <= k < i ==> out@[k] as nat == word_of(vals@[k] as int, 4),
        decreases vals@.len() - i,
    {
        let v = vals[i];
        let wd: u64 = if v < 0 {
            (v as i64 + 0x1_0000_0000i64) as u64
        } else {
            v as u64
        };
        out.push(wd);
        i = i + 1;
    }
    out
}

fn words_c64(vals: &Vec<(u64, u64)>, imag: bool) -> (r: Vec<u64>)
    ensures
        !imag ==> r@.map_values(|x: u64| x as nat) =~= words_of(vals@.map_values(|x: (u64, u64)| x.0 as int), 8),
        imag ==> r@.map_values(|x: u64| x as nat) =~= words_of(vals@.map_values(|x: (u64, u64)| x.1 as int), 8),
{
    let mut out: Vec<u64> = Vec::new();
    let mut i: usize = 0;
    while i < vals.len()
        invariant
            i <= vals@.len(),
            out@.len() == i,
            forall|k: int| 0 <= k < i ==> out@[k] == (if imag { vals@[k].1 } else { vals@[k].0 }),
        decreases vals@.len() - i,
    {
        let p = vals[i];
        out.push(if imag { p.1 } else { p.0 });
        i = i + 1;
    }
    out
}

fn words_c32(vals: &Vec<(u32, u32)>, imag: bool) -> (r: Vec<u64>)
    ensures
        !imag ==> r@.map_values(|x: u64| x as nat) =~= words_of(vals@.map_values(|x: (u32, u32)| x.0 as int), 4),
        imag ==> r@.map_values(|x: u64| x as nat) =~= words_of(vals@.map_values(|x: (u32, u32)| x.1 as int), 4),
{
    let mut out: Vec<u64> = Vec::new();
    let mut i: usize = 0;
    while i < vals.len()
        invariant
            i <= vals@.len(),
            out@.len() == i,
            forall|k: int| 0 <= k < i ==> out@[k] == (if imag { vals@[k].1 } else { vals@[k].0 }) as u64,
        decreases vals@.len() - i,
    {
        let p = vals[i];
        out.push(if imag { p.1 as u64 } else { p.0 as u64 });
        i = i + 1;
    }
    out
}

/// Appends one variable's matrix element.
pub fn write_variable(out: &mut Vec<u8>, variable: &MatVar)
    requires
        var_wf(variable@),
    ensures
        final(out)@ == old(out)@ + var_bytes(variable@),
{
    let ghost start = out@;
    let ghost v = variable@;
    let mut body: Vec<u8> = Vec::new();
    match variable {
        MatVar::F64(m) => {
            write_array_flags(&mut body, MX_DOUBLE_CLASS, false);
            write_dimensions(&mut body, m.rows, m.cols);
            write_name(&mut body, m.name.as_str());
            let words = words_u64(&m.values);
            write_numeric_data(&mut body, MI_DOUBLE, 8, m.rows, m.cols, &words);
        },
        MatVar::F32(m) => {
            write_array_flags(&mut body, MX_SINGLE_CLASS, false);
            write_dimensions(&mut body, m.rows, m.cols);
            write_name(&mut body, m.name.as_str());
            let words = words_u32(&m.values);
            write_numeric_data(&mut body, MI_SINGLE, 4, m.rows, m.cols, &words);
        },
        MatVar::I32(m) => {
            write_array_flags(&mut body, MX_INT32_CLASS, false);
            write_dimensions(&mut body, m.rows, m.cols);
            write_name(&mut body, m.name.as_str());
            let words = words_i32(&m.values);
            write_numeric_data(&mut body, MI_INT32, 4, m.rows, m.cols, &words);
        },
        MatVar::U32(m) => {
            write_array_flags(&mut body, MX_UINT32_CLASS, false);
            write_dimensions(&mut body, m.rows, m.cols);
            write_name(&mut body, m.name.as_str());
            let words = words_u32(&m.values);
            write_numeric_data(&mut body, MI_UINT32, 4, m.rows, m.cols, &words);
        },
        MatVar::U8(m) => {
            write_array_flags(&mut body, MX_UINT8_CLASS, false);
            write_dimensions(&mut body, m.rows, m.cols);
            write_name(&mut body, m.name.as_str());
            let words = words_u8(&m.values);
            write_numeric_data(&mut body, MI_UINT8, 1, m.rows, m.cols, &words);
        },
        MatVar::ComplexF32(m) => {
            write_array_flags(&mut body, MX_SINGLE_CLASS, true);
            write_dimensions(&mut body, m.rows, m.cols);
            write_name(&mut body, m.name.as_str());
            let re = words_c32(&m.values, false);
            let im = words_c32(&m.values, true);
            write_numeric_data(&mut body, MI_SINGLE, 4, m.rows, m.cols, &re);
            write_numeric_data(&mut body, MI_SINGLE, 4, m.rows, m.cols, &im);
        },
        MatVar::ComplexF64(m) => {
            write_array_flags(&mut body, MX_DOUBLE_CLASS, true);
            write_dimensions(&mut body, m.rows, m.cols);
            write_name(&mut body, m.name.as_str());
            let re = words_c64(&m.values, false);
            let im = words_c64(&m.values, true);
            write_numeric_data(&mut body, MI_DOUBLE, 8, m.rows, m.cols, &re);
            write_numeric_data(&mut body, MI_DOUBLE, 8, m.rows, m.cols, &im);
        },
    }
    proof {
        assert(body@ =~= var_body(v));
    }
    write_tag(out, MI_MATRIX, body.len());
    crate::mat::bytes::push_all(out, body.as_slice());
    pad_to_8(out, body.len());
    proof {
        assert(out@ =~= start + var_bytes(v));
    }
}

} // verus!

verus! {

/// A variable holds `rows * cols` elements in each of its parts.
pub open spec fn counts_ok(v: MatVarView) -> bool {
    &&& v.real.len() == v.rows * v.cols
    &&& (v.kind.is_complex() ==> v.imag.len() == v.rows * v.cols)
}

/// A MAT file being assembled in memory: its destination path and the variables
/// queued so far, in order.
pub struct MatFile {
    path: String,
    variables: Vec<MatVar>,
}

impl View for MatFile {
    type V = Seq<MatVarView>;

    closed spec fn view(&self) -> Seq<MatVarView> {
        self.variables@.map_values(|v: MatVar| v@)
    }
}

impl MatFile {
    /// The destination path.
    pub closed spec fn spec_path(&self) -> Seq<char> {
        self.path@
    }

    /// Every queued variable has consistent element counts.
    pub open spec fn wf(&self) -> bool {
        forall|i: int| 0 <= i < self@.len() ==> #[trigger] counts_ok(self@[i])
    }

    /// An empty file that will be written to `path`.
    pub fn new(path: String) -> (r: MatFile)
        ensures
            r@ == Seq::<MatVarView>::empty(),
            r.spec_path() == path@,
            r.wf(),
    {
        let r = MatFile { path, variables: Vec::new() };
        proof {
            assert(r@ =~= Seq::<MatVarView>::empty());
        }
        r
    }

    /// The destination path.
    pub fn path(&self) -> (r: &str)
        ensures
            r@ == self.spec_path(),
    {
        self.path.as_str()
    }

    fn push_var(&mut self, v: MatVar)
        requires
            old(self).wf(),
            counts_ok(v@),
        ensures
            final(self)@ == old(self)@.push(v@),
            final(self).spec_path() == old(self).spec_path(),
            final(self).wf(),
    {
        let ghost before = self@;
        self.variables.push(v);
        proof {
            assert(self@ =~= before.push(v@));
        }
    }

    /// Queues a `rows x cols` variable after checking that `values` holds
    /// exactly `rows * cols` row-major elements.
    pub fn add_f64_matrix(&mut self, name: String, rows: usize, cols: usize, values: Vec<u64>) -> (r: Result<(), MatError>)
        requires
            old(self).wf(),
        ensures
            final(self).wf(),
            final(self).spec_path() == old(self).spec_path(),
            match r {
                Ok(()) => rows * cols <= usize::MAX && values@.len() == rows * cols
                    && final(self)@ == old(self)@.push(MatVarView {
                    kind: VarKind::F64,
                    name: name@,
                    rows: rows as nat,
                    cols: cols as nat,
                    real: values@.map_values(|x: u64| x as int),
                    imag: Seq::empty(),
                }),
                Err(e) => !(rows * cols <= usize::MAX && values@.len() == rows * cols) && final(self)@ == old(self)@
                    && e@ == (MatErrorView::Shape { name: name@, rows, cols, actual: values@.len() as usize }),
            },
    {
        let m = matrix_with_values(name, rows, cols, values)?;
        proof {
            assert(m.values@.map_values(|x: u64| x as int).len() == rows * cols);
        }
        self.push_var(MatVar::F64(m));
        Ok(())
    }

    /// Queues a `rows x cols` variable after checking that `values` holds
    /// exactly `rows * cols` row-major elements.
    pub fn add_f32_matrix(&mut self, name: String, rows: usize, cols: usize, values: Vec<u32>) -> (r: Result<(), MatError>)
        requires
            old(self).wf(),
        ensures
            final(self).wf(),
            final(self).spec_path() == old(self).spec_path(),
            match r {
                Ok(()) => rows * cols <= usize::MAX && values@.len() == rows * cols
                    && final(self)@ == old(self)@.push(MatVarView {
                    kind: VarKind::F32,
                    name: name@,
                    rows: rows as nat,
                    cols: cols as nat,
                    real: values@.map_values(|x: u32| x as int),
                    imag: Seq::empty(),
                }),
                Err(e) => !(rows * cols <= usize::MAX && values@.len() == rows * cols) && final(self)@ == old(self)@
                    && e@ == (MatErrorView::Shape { name: name@, rows, cols, actual: values@.len() as usize }),
            },
    {
        let m = matrix_with_values(name, rows, cols, values)?;
        proof {
            assert(m.values@.map_values(|x: u32| x as int).len() == rows * cols);
        }
        self.push_var(MatVar::F32(m));
        Ok(())
    }

    /// Queues a `rows x cols` variable after checking that `values` holds
    /// exactly `rows * cols` row-major elements.
    pub fn add_i32_matrix(&mut self, name: String, rows: usize, cols: usize, values: Vec<i32>) -> (r: Result<(), MatError>)
        requires
            old(self).wf(),
        ensures
            final(self).wf(),
            final(self).spec_path() == old(self).spec_path(),
            match r {
                Ok(()) => rows * cols <= usize::MAX && values@.len() == rows * cols
                    && final(self)@ == old(self)@.push(MatVarView {
                    kind: VarKind::I32,
                    name: name@,
                    rows: rows as nat,
                    cols: cols as nat,
                    real: values@.map_values(|x: i32| x as int),
                    imag: Seq::empty(),
                }),
                Err(e) => !(rows * cols <= usize::MAX && values@.len() == rows * cols) && final(self)@ == old(self)@
                    && e@ == (MatErrorView::Shape { name: name@, rows, cols, actual: values@.len() as usize }),
            },
    {
        let m = matrix_with_values(name, rows, cols, values)?;
        proof {
            assert(m.values@.map_values(|x: i32| x as int).len() == rows * cols);
        }
        self.push_var(MatVar::I32(m));
        Ok(())
    }

    /// Queues a `rows x cols` variable after checking that `values` holds
    /// exactly `rows * cols` row-major elements.
    pub fn add_u32_matrix(&mut self, name: String, rows: usize, cols: usize, values: Vec<u32>) -> (r: Result<(), MatError>)
        requires
            old(self).wf(),
        ensures
            final(self).wf(),
            final(self).spec_path() == old(self).spec_path(),
            match r {
                Ok(()) => rows * cols <= usize::MAX && values@.len() == rows * cols
                    && final(self)@ == old(self)@.push(MatVarView {
                    kind: VarKind::U32,
                    name: name@,
                    rows: rows as nat,
                    cols: cols as nat,
                    real: values@.map_values(|x: u32| x as int),
                    imag: Seq::empty(),
                }),
                Err(e) => !(rows * cols <= usize::MAX && values@.len() == rows * cols) && final(self)@ == old(self)@
                    && e@ == (MatErrorView::Shape { name: name@, rows, cols, actual: values@.len() as usize }),
            },
    {
        let m = matrix_with_values(name, rows, cols, values)?;
        proof {
            assert(m.values@.map_values(|x: u32| x as int).len() == rows * cols);
        }
        self.push_var(MatVar::U32(m));
        Ok(())
    }

    /// Queues a `rows x cols` variable after checking that `values` holds
    /// exactly `rows * cols` row-major elements.
    pub fn add_u8_matrix(&mut self, name: String, rows: usize, cols: usize, values: Vec<u8>) -> (r: Result<(), MatError>)
        requires
            old(self).wf(),
        ensures
            final(self).wf(),
            final(self).spec_path() == old(self).spec_path(),
            match r {
                Ok(()) => rows * cols <= usize::MAX && values@.len() == rows * cols
                    && final(self)@ == old(self)@.push(MatVarView {
                    kind: VarKind::U8,
                    name: name@,
                    rows: rows as nat,
                    cols: cols as nat,
                    real: values@.map_values(|x: u8| x as int),
                    imag: Seq::empty(),
                }),
                Err(e) => !(rows * cols <= usize::MAX && values@.len() == rows * cols) && final(self)@ == old(self)@
                    && e@ == (MatErrorView::Shape { name: name@, rows, cols, actual: values@.len() as usize }),
            },
    {
        let m = matrix_with_values(name, rows, cols, values)?;
        proof {
            assert(m.values@.map_values(|x: u8| x as int).len() == rows * cols);
        }
        self.push_var(MatVar::U8(m));
        Ok(())
    }

    /// Queues a `rows x cols` variable after checking that `values` holds
    /// exactly `rows * cols` row-major elements.
    pub fn add_complex_f32_matrix(&mut self, name: String, rows: usize, cols: usize, values: Vec<(u32, u32)>) -> (r: Result<(), MatError>)
        requires
            old(self).wf(),
        ensures
            final(self).wf(),
            final(self).spec_path() == old(self).spec_path(),
            match r {
                Ok(()) => rows * cols <= usize::MAX && values@.len() == rows * cols
                    && final(self)@ == old(self)@.push(MatVarView {
                    kind: VarKind::ComplexF32,
                    name: name@,
                    rows: rows as nat,
                    cols: cols as nat,
                    real: values@.map_values(|x: (u32, u32)| x.0 as int),
                    imag: values@.map_values(|x: (u32, u32)| x.1 as int),
                }),
                Err(e) => !(rows * cols <= usize::MAX && values@.len() == rows * cols) && final(self)@ == old(self)@
                    && e@ == (MatErrorView::Shape { name: name@, rows, cols, actual: values@.len() as usize }),
            },
    {
        let m = complex_f32_with_values(name, rows, cols, values)?;
        proof {
            assert(m.values@.map_values(|x: (u32, u32)| x.0 as int).len() == rows * cols);
        }
        self.push_var(MatVar::ComplexF32(m));
        Ok(())
    }

    /// Queues a `rows x cols` variable after checking that `values` holds
    /// exactly `rows * cols` row-major elements.
    pub fn add_complex_f64_matrix(&mut self, name: String, rows: usize, cols: usize, values: Vec<(u64, u64)>) -> (r: Result<(), MatError>)
        requires
            old(self).wf(),
        ensures
            final(self).wf(),
            final(self).spec_path() == old(self).spec_path(),
            match r {
                Ok(()) => rows * cols <= usize::MAX && values@.len() == rows * cols
                    && final(self)@ == old(self)@.push(MatVarView {
                    kind: VarKind::ComplexF64,
                    name: name@,
                    rows: rows as nat,
                    cols: cols as nat,
                    real: values@.map_values(|x: (u64, u64)| x.0 as int),
                    imag: values@.map_values(|x: (u64, u64)| x.1 as int),
                }),
                Err(e) => !(rows * cols <= usize::MAX && values@.len() == rows * cols) && final(self)@ == old(self)@
                    && e@ == (MatErrorView::Shape { name: name@, rows, cols, actual: values@.len() as usize }),
            },
    {
        let m = complex_f64_with_values(name, rows, cols, values)?;
        proof {
            assert(m.values@.map_values(|x: (u64, u64)| x.0 as int).len() == rows * cols);
        }
        self.push_var(MatVar::ComplexF64(m));
        Ok(())
    }

    /// Queues a `1 x 1` variable.
    pub fn add_f64_scalar(&mut self, name: String, value: u64) -> (r: Result<(), MatError>)
        requires
            old(self).wf(),
        ensures
            r is Ok,
            final(self).wf(),
            final(self).spec_path() == old(self).spec_path(),
            final(self)@ == old(self)@.push(MatVarView {
                kind: VarKind::F64,
                name: name@,
                rows: 1,
                cols: 1,
                real: seq![value as int],
                imag: Seq::empty(),
            }),
    {
        let mut values: Vec<u64> = Vec::new();
        values.push(value);
        let r = self.add_f64_matrix(name, 1, 1, values);
        proof {
            assert(values@.map_values(|x: u64| x as int) =~= seq![value as int]);
        }
        r
    }

    /// Queues a `1 x n` variable.
    pub fn add_f64_row_vector(&mut self, name: String, values: Vec<u64>) -> (r: Result<(), MatError>)
        requires
            old(self).wf(),
        ensures
            r is Ok,
            final(self).wf(),
            final(self).spec_path() == old(self).spec_path(),
            final(self)@ == old(self)@.push(MatVarView {
                kind: VarKind::F64,
                name: name@,
                rows: 1,
                cols: values@.len(),
                real: values@.map_values(|x: u64| x as int),
                imag: Seq::empty(),
            }),
    {
        let n = values.len();
        self.add_f64_matrix(name, 1, n, values)
    }

    /// Queues an `n x 1` variable.
    pub fn add_f64_col_vector(&mut self, name: String, values: Vec<u64>) -> (r: Result<(), MatError>)
        requires
            old(self).wf(),
        ensures
            r is Ok,
            final(self).wf(),
            final(self).spec_path() == old(self).spec_path(),
            final(self)@ == old(self)@.push(MatVarView {
                kind: VarKind::F64,
                name: name@,
                rows: values@.len(),
                cols: 1,
                real: values@.map_values(|x: u64| x as int),
                imag: Seq::empty(),
            }),
    {
        let n = values.len();
        self.add_f64_matrix(name, n, 1, values)
    }

    /// Queues a `1 x 1` variable.
    pub fn add_f32_scalar(&mut self, name: String, value: u32) -> (r: Result<(), MatError>)
        requires
            old(self).wf(),
        ensures
            r is Ok,
            final(self).wf(),
            final(self).spec_path() == old(self).spec_path(),
            final(self)@ == old(self)@.push(MatVarView {
                kind: VarKind::F32,
                name: name@,
                rows: 1,
                cols: 1,
                real: seq![value as int],
                imag: Seq::empty(),
            }),
    {
        let mut values: Vec<u32> = Vec::new();
        values.push(value);
        let r = self.add_f32_matrix(name, 1, 1, values);
        proof {
            assert(values@.map_values(|x: u32| x as int) =~= seq![value as int]);
        }
        r
    }

    /// Queues a `1 x n` variable.
    pub fn add_f32_row_vector(&mut self, name: String, values: Vec<u32>) -> (r: Result<(), MatError>)
        requires
            old(self).wf(),
        ensures
            r is Ok,
            final(self).wf(),
            final(self).spec_path() == old(self).spec_path(),
            final(self)@ == old(self)@.push(MatVarView {
                kind: VarKind::F32,
                name: name@,
                rows: 1,
                cols: values@.len(),
                real: values@.map_values(|x: u32| x as int),
                imag: Seq::empty(),
            }),
    {
        let n = values.len();
        self.add_f32_matrix(name, 1, n, values)
    }

    /// Queues an `n x 1` variable.
    pub fn add_f32_col_vector(&mut self, name: String, values: Vec<u32>) -> (r: Result<(), MatError>)
        requires
            old(self).wf(),
        ensures
            r is Ok,
            final(self).wf(),
            final(self).spec_path() == old(self).spec_path(),
            final(self)@ == old(self)@.push(MatVarView {
                kind: VarKind::F32,
                name: name@,
                rows: values@.len(),
                cols: 1,
                real: values@.map_values(|x: u32| x as int),
                imag: Seq::empty(),
            }),
    {
        let n = values.len();
        self.add_f32_matrix(name, n, 1, values)
    }

    /// The complete file image: header and every queued variable in order.
    pub fn to_bytes(&self) -> (r: Vec<u8>)
        requires
            self.wf(),
            forall|i: int| 0 <= i < self@.len() ==> #[trigger] self@[i].kind.width() * self@[i].real.len() <= usize::MAX,
        ensures
            r@ == file_bytes(self@),
    {
        let mut out: Vec<u8> = Vec::new();
        write_header(&mut out);
        let ghost vars = self@;
        let mut i: usize = 0;
        while i < self.variables.len()
            invariant
                i <= self.variables@.len(),
                vars == self@,
                vars.len() == self.variables@.len(),
                forall|k: int| 0 <= k < vars.len() ==> #[trigger] vars[k] == self.variables@[k]@,
                forall|k: int| 0 <= k < vars.len() ==> #[trigger] counts_ok(vars[k]),
                forall|k: int| 0 <= k < vars.len() ==> #[trigger] vars[k].kind.width() * vars[k].real.len() <= usize::MAX,
                out@ == header_bytes() + vars_bytes(vars.take(i as int)),
            decreases self.variables@.len() - i,
        {
            let ghost before = out@;
            assert(counts_ok(vars[i as int]));
            assert(vars[i as int].kind.width() * vars[i as int].real.len() <= usize::MAX);
            write_variable(&mut out, &self.variables[i]);
            proof {
                assert(vars.take(i + 1).drop_last() =~= vars.take(i as int));
                assert(out@ =~= header_bytes() + vars_bytes(vars.take(i + 1)));
            }
            i = i + 1;
        }
        proof {
            assert(vars.take(vars.len() as int) =~= vars);
        }
        out
    }
}

} // verus!

//! The in-memory values of MAT variables.  Floating-point payloads are held as
//! their IEEE-754 bit patterns (`u64` for doubles, `u32` for singles), so that
//! the byte layout is exact and verified; converting the bits to numbers is done
//! by callers with `f64::from_bits` / `f32::from_bits`.

use vstd::prelude::*;

verus! {

/// The element type of a numeric payload.
#[derive(Clone, Copy, Debug, PartialEq, Eq, Structural)]
pub enum NumericType {
    F64,
    F32,
    I8,
    U8,
    I16,
    U16,
    I32,
    U32,
    I64,
    U64,
}

impl NumericType {
    /// Bytes per element.
    pub open spec fn width(self) -> nat {
        match self {
            NumericType::F64 | NumericType::I64 | NumericType::U64 => 8,
            NumericType::F32 | NumericType::I32 | NumericType::U32 => 4,
            NumericType::I16 | NumericType::U16 => 2,
            NumericType::I8 | NumericType::U8 => 1,
        }
    }

    /// Whether elements are two's-complement signed integers.
    pub open spec fn is_signed(self) -> bool {
        match self {
            NumericType::I8 | NumericType::I16 | NumericType::I32 | NumericType::I64 => true,
            _ => false,
        }
    }
}

/// A numeric payload.  `F64` and `F32` hold bit patterns.
#[derive(Clone, Debug)]
pub enum NumericData {
    F64(Vec<u64>),
    F32(Vec<u32>),
    I8(Vec<i8>),
    U8(Vec<u8>),
    I16(Vec<i16>),
    U16(Vec<u16>),
    I32(Vec<i32>),
    U32(Vec<u32>),
    I64(Vec<i64>),
    U64(Vec<u64>),
}

/// The mathematical value of a payload: its element type and its elements as
/// integers (bit patterns for the floating-point types).
pub struct NumericDataView {
    pub ty: NumericType,
    pub values: Seq<int>,
}

impl View for NumericData {
    type V = NumericDataView;

    open spec fn view(&self) -> NumericDataView {
        match self {
            NumericData::F64(v) => NumericDataView { ty: NumericType::F64, values: v@.map_values(|x: u64| x as int) },
            NumericData::F32(v) => NumericDataView { ty: NumericType::F32, values: v@.map_values(|x: u32| x as int) },
            NumericData::I8(v) => NumericDataView { ty: NumericType::I8, values: v@.map_values(|x: i8| x as int) },
            NumericData::U8(v) => NumericDataView { ty: NumericType::U8, values: v@.map_values(|x: u8| x as int) },
            NumericData::I16(v) => NumericDataView { ty: NumericType::I16, values: v@.map_values(|x: i16| x as int) },
            NumericData::U16(v) => NumericDataView { ty: NumericType::U16, values: v@.map_values(|x: u16| x as int) },
            NumericData::I32(v) => NumericDataView { ty: NumericType::I32, values: v@.map_values(|x: i32| x as int) },
            NumericData::U32(v) => NumericDataView { ty: NumericType::U32, values: v@.map_values(|x: u32| x as int) },
            NumericData::I64(v) => NumericDataView { ty: NumericType::I64, values: v@.map_values(|x: i64| x as int) },
            NumericData::U64(v) => NumericDataView { ty: NumericType::U64, values: v@.map_values(|x: u64| x as int) },
        }
    }
}

impl NumericData {
    /// The element type of this payload.
    pub fn numeric_type(&self) -> (r: NumericType)
        ensures
            r == self@.ty,
    {
        match self {
            NumericData::F64(_) => NumericType::F64,
            NumericData::F32(_) => NumericType::F32,
            NumericData::I8(_) => NumericType::I8,
            NumericData::U8(_) => NumericType::U8,
            NumericData::I16(_) => NumericType::I16,
            NumericData::U16(_) => NumericType::U16,
            NumericData::I32(_) => NumericType::I32,
            NumericData::U32(_) => NumericType::U32,
            NumericData::I64(_) => NumericType::I64,
            NumericData::U64(_) => NumericType::U64,
        }
    }

    /// The number of elements.
    pub fn len(&self) -> (r: usize)
        ensures
            r == self@.values.len(),
    {
        match self {
            NumericData::F64(v) => v.len(),
            NumericData::F32(v) => v.len(),
            NumericData::I8(v) => v.len(),
            NumericData::U8(v) => v.len(),
            NumericData::I16(v) => v.len(),
            NumericData::U16(v) => v.len(),
            NumericData::I32(v) => v.len(),
            NumericData::U32(v) => v.len(),
            NumericData::I64(v) => v.len(),
            NumericData::U64(v) => v.len(),
        }
    }
}

/// A variable read from a MAT file, with its payload in row-major order.
#[derive(Clone, Debug)]
pub struct MatArray {
    pub name: String,
    pub rows: usize,
    pub cols: usize,
    pub numeric_type: NumericType,
    pub real: NumericData,
    pub imag: Option<NumericData>,
}

pub struct MatArrayView {
    pub name: Seq<char>,
    pub rows: nat,
    pub cols: nat,
    pub numeric_type: NumericType,
    pub real: NumericDataView,
    pub imag: Option<NumericDataView>,
}

impl View for MatArray {
    type V = MatArrayView;

    open spec fn view(&self) -> MatArrayView {
        MatArrayView {
            name: self.name@,
            rows: self.rows as nat,
            cols: self.cols as nat,
            numeric_type: self.numeric_type,
            real: self.real@,
            imag: match self.imag {
                Some(d) => Some(d@),
                None => None,
            },
        }
    }
}

impl MatArray {
    pub fn is_complex(&self) -> (r: bool)
        ensures
            r == self.imag.is_some(),
    {
        self.imag.is_some()
    }

    /// The number of elements, `rows * cols`.
    pub fn len(&self) -> (r: usize)
        requires
            self.rows * self.cols <= usize::MAX,
        ensures
            r == self.rows * self.cols,
    {
        self.rows * self.cols
    }

    pub fn is_scalar(&self) -> (r: bool)
        ensures
            r == (self.rows == 1 && self.cols == 1),
    {
        self.rows == 1 && self.cols == 1
    }

    pub fn is_row_vector(&self) -> (r: bool)
        ensures
            r == (self.rows == 1),
    {
        self.rows == 1
    }

    pub fn is_col_vector(&self) -> (r: bool)
        ensures
            r == (self.cols == 1),
    {
        self.cols == 1
    }
}

/// A named matrix in row-major order.
#[derive(Clone, Debug)]
pub struct Matrix<T> {
    pub name: String,
    pub rows: usize,
    pub cols: usize,
    pub values: Vec<T>,
}

/// A named single-precision complex matrix; each element is the pair of bit
/// patterns of its real and imaginary parts.
#[derive(Clone, Debug)]
pub struct ComplexMatrixF32 {
    pub name: String,
    pub rows: usize,
    pub cols: usize,
    pub values: Vec<(u32, u32)>,
}

/// A named double-precision complex matrix; each element is the pair of bit
/// patterns of its real and imaginary parts.
#[derive(Clone, Debug)]
pub struct ComplexMatrixF64 {
    pub name: String,
    pub rows: usize,
    pub cols: usize,
    pub values: Vec<(u64, u64)>,
}

} // verus!

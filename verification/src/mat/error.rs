//! Errors of MAT encoding and decoding, and their message texts.

use vstd::prelude::*;
use crate::text::{decimal, list_text, usize_text, u64_text, i64_list_text};

verus! {

/// Everything that can go wrong when building, reading or writing a MAT file.
#[allow(inconsistent_fields)]
#[derive(Clone, Debug)]
pub enum MatError {
    Read { path: String, message: String },
    Write { path: String, message: String },
    InvalidHeader { path: String, message: String },
    UnsupportedEndian { path: String, marker: [u8; 2] },
    Shape { name: String, rows: usize, cols: usize, actual: usize },
    UnsupportedClass { name: String, class: u32 },
    UnsupportedDataType { name: String, data_type: u32 },
    MalformedDimensions { name: String, dims: Vec<i32> },
    MalformedVariable { name: String, message: String },
    MissingVariable { name: String },
    TypeMismatch { name: String, expected: &'static str, actual: &'static str },
    MalformedFile { path: String, message: String },
}

/// The mathematical value of a [`MatError`].
#[allow(inconsistent_fields)]
pub enum MatErrorView {
    Read { path: Seq<char>, message: Seq<char> },
    Write { path: Seq<char>, message: Seq<char> },
    InvalidHeader { path: Seq<char>, message: Seq<char> },
    UnsupportedEndian { path: Seq<char>, marker: Seq<u8> },
    Shape { name: Seq<char>, rows: usize, cols: usize, actual: usize },
    UnsupportedClass { name: Seq<char>, class: u32 },
    UnsupportedDataType { name: Seq<char>, data_type: u32 },
    MalformedDimensions { name: Seq<char>, dims: Seq<i32> },
    MalformedVariable { name: Seq<char>, message: Seq<char> },
    MissingVariable { name: Seq<char> },
    TypeMismatch { name: Seq<char>, expected: Seq<char>, actual: Seq<char> },
    MalformedFile { path: Seq<char>, message: Seq<char> },
}

impl View for MatError {
    type V = MatErrorView;

    open spec fn view(&self) -> MatErrorView {
        match self {
            MatError::Read { path, message } => MatErrorView::Read { path: path@, message: message@ },
            MatError::Write { path, message } => MatErrorView::Write { path: path@, message: message@ },
            MatError::InvalidHeader { path, message } => MatErrorView::InvalidHeader { path: path@, message: message@ },
            MatError::UnsupportedEndian { path, marker } => MatErrorView::UnsupportedEndian { path: path@, marker: marker@ },
            MatError::Shape { name, rows, cols, actual } => MatErrorView::Shape { name: name@, rows: *rows, cols: *cols, actual: *actual },
            MatError::UnsupportedClass { name, class } => MatErrorView::UnsupportedClass { name: name@, class: *class },
            MatError::UnsupportedDataType { name, data_type } => MatErrorView::UnsupportedDataType { name: name@, data_type: *data_type },
            MatError::MalformedDimensions { name, dims } => MatErrorView::MalformedDimensions { name: name@, dims: dims@ },
            MatError::MalformedVariable { name, message } => MatErrorView::MalformedVariable { name: name@, message: message@ },
            MatError::MissingVariable { name } => MatErrorView::MissingVariable { name: name@ },
            MatError::TypeMismatch { name, expected, actual } => MatErrorView::TypeMismatch { name: name@, expected: expected@, actual: actual@ },
            MatError::MalformedFile { path, message } => MatErrorView::MalformedFile { path: path@, message: message@ },
        }
    }
}

/// The message text of an error.
pub open spec fn mat_error_text(e: MatErrorView) -> Seq<char> {
    match e {
        MatErrorView::Read { path, message } => "unable to read MAT file "@ + path + ": "@ + message,
        MatErrorView::Write { path, message } => "unable to write MAT file "@ + path + ": "@ + message,
        MatErrorView::InvalidHeader { path, message } => "MAT file "@ + path + " has an invalid v5 header: "@ + message,
        MatErrorView::UnsupportedEndian { path, marker } => "MAT file "@ + path
            + " contains unsupported endian marker "@ + list_text(marker.map_values(|b: u8| b as int)),
        MatErrorView::Shape { name, rows, cols, actual } => "MAT variable "@ + name + " has "@
            + decimal(actual as nat) + " values for "@ + decimal(rows as nat) + "x"@ + decimal(cols as nat),
        MatErrorView::UnsupportedClass { name, class } => "MAT variable "@ + name
            + " has unsupported class "@ + decimal(class as nat),
        MatErrorView::UnsupportedDataType { name, data_type } => "MAT variable "@ + name
            + " has unsupported data type "@ + decimal(data_type as nat),
        MatErrorView::MalformedDimensions { name, dims } => "MAT variable "@ + name
            + " has malformed dimensions "@ + list_text(dims.map_values(|d: i32| d as int))
            + "; expected exactly 2 dimensions"@,
        MatErrorView::MalformedVariable { name, message } => "MAT variable "@ + name + " is malformed: "@ + message,
        MatErrorView::MissingVariable { name } => "MAT variable "@ + name + " is missing"@,
        MatErrorView::TypeMismatch { name, expected, actual } => "MAT variable "@ + name + " has type "@
            + actual + "; expected "@ + expected,
        MatErrorView::MalformedFile { path, message } => "MAT file "@ + path + " is malformed: "@ + message,
    }
}

fn widen_u8(items: &[u8; 2]) -> (r: Vec<i64>)
    ensures
        r@.map_values(|x: i64| x as int) =~= items@.map_values(|b: u8| b as int),
{
    let mut v: Vec<i64> = Vec::new();
    v.push(items[0] as i64);
    v.push(items[1] as i64);
    v
}

fn widen_i32(items: &Vec<i32>) -> (r: Vec<i64>)
    ensures
        r@.map_values(|x: i64| x as int) =~= items@.map_values(|d: i32| d as int),
{
    let mut v: Vec<i64> = Vec::new();
    let mut i: usize = 0;
    while i < items.len()
        invariant
            i <= items@.len(),
            v@.len() == i,
            forall|k: int| 0 <= k < i ==> v@[k] as int == items@[k] as int,
        decreases items@.len() - i,
    {
        v.push(items[i] as i64);
        i = i + 1;
    }
    v
}

impl MatError {
    /// The message text of this error.
    pub fn message(&self) -> (r: String)
        ensures
            r@ == mat_error_text(self@),
    {
        match self {
            MatError::Read { path, message } => {
                let mut s = String::from_str("unable to read MAT file ");
                s.append(path.as_str());
                s.append(": ");
                s.append(message.as_str());
                s
            },
            MatError::Write { path, message } => {
                let mut s = String::from_str("unable to write MAT file ");
                s.append(path.as_str());
                s.append(": ");
                s.append(message.as_str());
                s
            },
            MatError::InvalidHeader { path, message } => {
                let mut s = String::from_str("MAT file ");
                s.append(path.as_str());
                s.append(" has an invalid v5 header: ");
                s.append(message.as_str());
                s
            },
            MatError::UnsupportedEndian { path, marker } => {
                let mut s = String::from_str("MAT file ");
                s.append(path.as_str());
                s.append(" contains unsupported endian marker ");
                let w = widen_u8(marker);
                s.append(i64_list_text(&w).as_str());
                s
            },
            MatError::Shape { name, rows, cols, actual } => {
                let mut s = String::from_str("MAT variable ");
                s.append(name.as_str());
                s.append(" has ");
                s.append(usize_text(*actual).as_str());
                s.append(" values for ");
                s.append(usize_text(*rows).as_str());
                s.append("x");
                s.append(usize_text(*cols).as_str());
                s
            },
            MatError::UnsupportedClass { name, class } => {
                let mut s = String::from_str("MAT variable ");
                s.append(name.as_str());
                s.append(" has unsupported class ");
                s.append(u64_text(*class as u64).as_str());
                s
            },
            MatError::UnsupportedDataType { name, data_type } => {
                let mut s = String::from_str("MAT variable ");
                s.append(name.as_str());
                s.append(" has unsupported data type ");
                s.append(u64_text(*data_type as u64).as_str());
                s
            },
            MatError::MalformedDimensions { name, dims } => {
                let mut s = String::from_str("MAT variable ");
                s.append(name.as_str());
                s.append(" has malformed dimensions ");
                let w = widen_i32(dims);
                s.append(i64_list_text(&w).as_str());
                s.append("; expected exactly 2 dimensions");
                s
            },
            MatError::MalformedVariable { name, message } => {
                let mut s = String::from_str("MAT variable ");
                s.append(name.as_str());
                s.append(" is malformed: ");
                s.append(message.as_str());
                s
            },
            MatError::MissingVariable { name } => {
                let mut s = String::from_str("MAT variable ");
                s.append(name.as_str());
                s.append(" is missing");
                s
            },
            MatError::TypeMismatch { name, expected, actual } => {
                let mut s = String::from_str("MAT variable ");
                s.append(name.as_str());
                s.append(" has type ");
                s.append(actual);
                s.append("; expected ");
                s.append(expected);
                s
            },
            MatError::MalformedFile { path, message } => {
                let mut s = String::from_str("MAT file ");
                s.append(path.as_str());
                s.append(" is malformed: ");
                s.append(message.as_str());
                s
            },
        }
    }
}

} // verus!

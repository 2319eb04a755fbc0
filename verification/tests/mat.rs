use pystamps::mat::data::MatData;
use pystamps::mat::encode::{pad_to_8, write_array_flags, write_header, write_name, write_tag};
use pystamps::mat::error::MatError;
use pystamps::mat::format::{MI_DOUBLE, MI_INT32, MI_MATRIX, MI_UINT16, MI_UTF8, MX_CHAR_CLASS, MX_DOUBLE_CLASS};
use pystamps::mat::reader::parse_mat_file;
use pystamps::mat::types::{MatArray, NumericData, NumericType};
use pystamps::mat::writer::MatFile;

fn f64_bits(values: &[f64]) -> Vec<u64> {
    values.iter().map(|v| v.to_bits()).collect()
}

fn f32_bits(values: &[f32]) -> Vec<u32> {
    values.iter().map(|v| v.to_bits()).collect()
}

fn f64_values(array: &MatArray) -> Vec<f64> {
    match &array.real {
        NumericData::F64(bits) => bits.iter().map(|b| f64::from_bits(*b)).collect(),
        other => panic!("expected double data, got {other:?}"),
    }
}

fn one_variable_file(body: Vec<u8>) -> Vec<u8> {
    let mut bytes = Vec::new();
    write_header(&mut bytes);
    write_tag(&mut bytes, MI_MATRIX, body.len());
    let len = body.len();
    bytes.extend_from_slice(&body);
    pad_to_8(&mut bytes, len);
    bytes
}

fn read(bytes: &[u8]) -> Result<MatData, MatError> {
    parse_mat_file("test.mat", bytes)
}

#[test]
fn rejects_shape_mismatch() {
    let mut mat = MatFile::new("unused.mat".to_string());
    let err = mat.add_f64_matrix("x".to_string(), 2, 2, f64_bits(&[1.0, 2.0, 3.0])).unwrap_err();
    assert!(err.message().contains("3 values for 2x2"));
}

#[test]
fn writes_and_reads_mat_v5_numeric_shapes() {
    let mut mat = MatFile::new("roundtrip.mat".to_string());
    mat.add_f64_scalar("scalar".to_string(), 7.5f64.to_bits()).unwrap();
    mat.add_f32_row_vector("row".to_string(), f32_bits(&[1.0, 2.0, 3.0])).unwrap();
    mat.add_i32_matrix("col".to_string(), 3, 1, vec![4, 5, 6]).unwrap();
    mat.add_f64_matrix("matrix".to_string(), 2, 3, f64_bits(&[1.0, 2.0, 3.0, 4.0, 5.0, 6.0])).unwrap();
    let bytes = mat.to_bytes();

    let data = read(&bytes).unwrap();
    let scalar = data.get("scalar").unwrap();
    assert_eq!((scalar.rows, scalar.cols, f64_values(scalar)), (1, 1, vec![7.5]));
    let row = data.get("row").unwrap();
    assert_eq!((row.rows, row.cols), (1, 3));
    match &row.real {
        NumericData::F32(bits) => assert_eq!(bits, &f32_bits(&[1.0, 2.0, 3.0])),
        other => panic!("expected single data, got {other:?}"),
    }
    let col = data.get("col").unwrap();
    assert_eq!((col.rows, col.cols), (3, 1));
    match &col.real {
        NumericData::I32(values) => assert_eq!(values, &vec![4, 5, 6]),
        other => panic!("expected int32 data, got {other:?}"),
    }
    let matrix = data.get("matrix").unwrap();
    assert_eq!((matrix.rows, matrix.cols), (2, 3));
    assert_eq!(f64_values(matrix), vec![1.0, 2.0, 3.0, 4.0, 5.0, 6.0]);
    assert_eq!(data.variables().len(), 4);
}

#[test]
fn complex_matrix_round_trips() {
    let mut mat = MatFile::new("ph.mat".to_string());
    let values: Vec<(u32, u32)> = [(1.0f32, 2.0f32), (3.0, 4.0), (5.0, -6.0), (7.0, -8.0)]
        .iter()
        .map(|(re, im)| (re.to_bits(), im.to_bits()))
        .collect();
    mat.add_complex_f32_matrix("ph".to_string(), 2, 2, values).unwrap();
    let data = read(&mat.to_bytes()).unwrap();
    let ph = data.get("ph").unwrap();
    assert!(ph.is_complex());
    assert_eq!((ph.rows, ph.cols), (2, 2));
    match (&ph.real, &ph.imag) {
        (NumericData::F32(re), Some(NumericData::F32(im))) => {
            assert_eq!(f32::from_bits(re[2]), 5.0);
            assert_eq!(f32::from_bits(im[2]), -6.0);
        }
        other => panic!("expected complex single data, got {other:?}"),
    }
}

#[test]
fn a_later_variable_with_the_same_name_wins() {
    let mut mat = MatFile::new("twice.mat".to_string());
    mat.add_u8_matrix("flag".to_string(), 1, 1, vec![1]).unwrap();
    mat.add_u8_matrix("flag".to_string(), 1, 2, vec![2, 3]).unwrap();
    let data = read(&mat.to_bytes()).unwrap();
    let flag = data.get("flag").unwrap();
    assert_eq!((flag.rows, flag.cols), (1, 2));
    match &flag.real {
        NumericData::U8(values) => assert_eq!(values, &vec![2, 3]),
        other => panic!("expected uint8 data, got {other:?}"),
    }
}

#[test]
fn reads_three_dimensional_payloads_as_flattened_matrices() {
    let mut body = Vec::new();
    write_array_flags(&mut body, MX_DOUBLE_CLASS, false);
    write_tag(&mut body, MI_INT32, 12);
    body.extend_from_slice(&1i32.to_le_bytes());
    body.extend_from_slice(&2i32.to_le_bytes());
    body.extend_from_slice(&3i32.to_le_bytes());
    pad_to_8(&mut body, 12);
    write_name(&mut body, "flat3");
    write_tag(&mut body, MI_DOUBLE, 48);
    for value in [1.0_f64, 2.0, 3.0, 4.0, 5.0, 6.0] {
        body.extend_from_slice(&value.to_le_bytes());
    }
    let data = read(&one_variable_file(body)).unwrap();
    let flat3 = data.get("flat3").unwrap();
    assert_eq!((flat3.rows, flat3.cols), (1, 6));
    assert_eq!(f64_values(flat3), vec![1.0, 2.0, 3.0, 4.0, 5.0, 6.0]);
}

#[test]
fn malformed_dimensions_return_structured_error() {
    let mut body = Vec::new();
    write_array_flags(&mut body, MX_DOUBLE_CLASS, false);
    write_tag(&mut body, MI_INT32, 4);
    body.extend_from_slice(&6i32.to_le_bytes());
    pad_to_8(&mut body, 4);
    write_name(&mut body, "bad");
    write_tag(&mut body, MI_DOUBLE, 48);
    for value in [1.0_f64, 2.0, 3.0, 4.0, 5.0, 6.0] {
        body.extend_from_slice(&value.to_le_bytes());
    }
    let err = read(&one_variable_file(body)).unwrap_err();
    assert!(matches!(err, MatError::MalformedDimensions { .. }));
    assert_eq!(err.message(), "MAT variable bad has malformed dimensions [6]; expected exactly 2 dimensions");
}

fn char_variable(data_type: u32, payload: &[u8]) -> Vec<u8> {
    let mut body = Vec::new();
    write_array_flags(&mut body, MX_CHAR_CLASS, false);
    write_tag(&mut body, MI_INT32, 8);
    body.extend_from_slice(&1i32.to_le_bytes());
    body.extend_from_slice(&(payload.len() as i32 / if data_type == MI_UINT16 { 2 } else { 1 }).to_le_bytes());
    write_name(&mut body, "small_baseline_flag");
    write_tag(&mut body, data_type, payload.len());
    body.extend_from_slice(payload);
    pad_to_8(&mut body, payload.len());
    one_variable_file(body)
}

#[test]
fn reads_matlab_char_arrays_as_numeric_codes() {
    let data = read(&char_variable(MI_UINT16, &('n' as u16).to_le_bytes())).unwrap();
    let flag = data.get("small_baseline_flag").unwrap();
    assert_eq!((flag.rows, flag.cols), (1, 1));
    assert_eq!(flag.real.numeric_type(), NumericType::U16);
    match &flag.real {
        NumericData::U16(codes) => assert_eq!(codes, &vec!['n' as u16]),
        other => panic!("expected character codes, got {other:?}"),
    }
}

#[test]
fn utf8_char_arrays_are_read_as_bytes() {
    let data = read(&char_variable(MI_UTF8, b"y")).unwrap();
    let flag = data.get("small_baseline_flag").unwrap();
    match &flag.real {
        NumericData::U8(codes) => assert_eq!(codes, &vec![b'y']),
        other => panic!("expected character codes, got {other:?}"),
    }
}

#[test]
fn short_file_has_an_invalid_header() {
    let err = read(&[0u8; 10]).unwrap_err();
    assert_eq!(err.message(), "MAT file test.mat has an invalid v5 header: file has 10 bytes, expected at least 128");
}

#[test]
fn missing_variable_is_reported_by_name() {
    let mut mat = MatFile::new("one.mat".to_string());
    mat.add_f64_scalar("a".to_string(), 1.0f64.to_bits()).unwrap();
    let data = read(&mat.to_bytes()).unwrap();
    let err = data.get("b").unwrap_err();
    assert_eq!(err.message(), "MAT variable b is missing");
}

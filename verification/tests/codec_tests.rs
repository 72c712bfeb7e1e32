use pg_boundary::decode::deserialize_rows_from_binary;
use pg_boundary::encode::serialize_rows_to_binary;
use pg_boundary::model::{
    CellValue, ColumnDescriptor, Row, TYPE_BOOL, TYPE_FLOAT4, TYPE_FLOAT8, TYPE_INT2, TYPE_INT4,
    TYPE_INT8,
};

const TYPE_TEXT: u32 = 25;

fn col(name: &str, type_id: u32) -> ColumnDescriptor {
    ColumnDescriptor { name: name.as_bytes().to_vec(), type_id }
}

#[test]
fn empty_result_set_is_exactly_four_bytes() {
    let rows: Vec<Row> = Vec::new();
    let columns = vec![col("id", TYPE_INT4), col("name", TYPE_TEXT)];
    let bytes = serialize_rows_to_binary(&rows, &columns);
    assert_eq!(bytes, vec![0u8, 0, 0, 0]);
}

#[test]
fn empty_result_set_ignores_column_count() {
    let rows: Vec<Row> = Vec::new();
    let no_columns: Vec<ColumnDescriptor> = Vec::new();
    let many_columns = vec![col("a", TYPE_BOOL), col("b", TYPE_INT8), col("c", TYPE_TEXT)];
    assert_eq!(
        serialize_rows_to_binary(&rows, &no_columns),
        serialize_rows_to_binary(&rows, &many_columns)
    );
}

#[test]
fn two_rows_with_a_null_name_encode_to_the_documented_image() {
    let columns = vec![col("id", TYPE_INT4), col("name", TYPE_TEXT)];
    let rows = vec![
        Row { cells: vec![CellValue::Int4(1), CellValue::Text(b"alice".to_vec())] },
        Row { cells: vec![CellValue::Int4(2), CellValue::Null] },
    ];
    let bytes = serialize_rows_to_binary(&rows, &columns);
    let expected: Vec<u8> = vec![
        2, 0, 0, 0, // row_count
        2, 0, 0, 0, // column_count
        2, 0, 0, 0, b'i', b'd', 23, 0, 0, 0, // column "id": int4
        4, 0, 0, 0, b'n', b'a', b'm', b'e', 25, 0, 0, 0, // column "name": text
        0, 1, 0, 0, 0, // row 1, id = 1
        0, 5, 0, 0, 0, b'a', b'l', b'i', b'c', b'e', // row 1, name = "alice"
        0, 2, 0, 0, 0, // row 2, id = 2
        1, // row 2, name is null
    ];
    assert_eq!(bytes, expected);
}

#[test]
fn every_payload_shape_encodes_with_its_width() {
    let columns = vec![
        col("b", TYPE_BOOL),
        col("s", TYPE_INT2),
        col("i", TYPE_INT4),
        col("l", TYPE_INT8),
        col("f", TYPE_FLOAT4),
        col("d", TYPE_FLOAT8),
        col("t", TYPE_TEXT),
    ];
    let rows = vec![Row {
        cells: vec![
            CellValue::Bool(true),
            CellValue::Int2(-2),
            CellValue::Int4(-3),
            CellValue::Int8(-4),
            CellValue::Float4(1.5f32.to_bits()),
            CellValue::Float8(2.5f64.to_bits()),
            CellValue::Text(Vec::new()),
        ],
    }];
    let bytes = serialize_rows_to_binary(&rows, &columns);
    let mut expected: Vec<u8> = Vec::new();
    expected.extend_from_slice(&1u32.to_le_bytes());
    expected.extend_from_slice(&7u32.to_le_bytes());
    for (name, tid) in [
        ("b", TYPE_BOOL),
        ("s", TYPE_INT2),
        ("i", TYPE_INT4),
        ("l", TYPE_INT8),
        ("f", TYPE_FLOAT4),
        ("d", TYPE_FLOAT8),
        ("t", TYPE_TEXT),
    ] {
        expected.extend_from_slice(&(name.len() as u32).to_le_bytes());
        expected.extend_from_slice(name.as_bytes());
        expected.extend_from_slice(&tid.to_le_bytes());
    }
    expected.push(0);
    expected.push(1); // true
    expected.push(0);
    expected.extend_from_slice(&(-2i16).to_le_bytes());
    expected.push(0);
    expected.extend_from_slice(&(-3i32).to_le_bytes());
    expected.push(0);
    expected.extend_from_slice(&(-4i64).to_le_bytes());
    expected.push(0);
    expected.extend_from_slice(&1.5f32.to_le_bytes());
    expected.push(0);
    expected.extend_from_slice(&2.5f64.to_le_bytes());
    expected.push(0);
    expected.extend_from_slice(&0u32.to_le_bytes());
    assert_eq!(bytes, expected);
}

#[test]
fn mismatched_cell_emits_present_flag_without_payload() {
    let columns = vec![col("b", TYPE_BOOL)];
    let rows = vec![Row { cells: vec![CellValue::Text(b"oops".to_vec())] }];
    let bytes = serialize_rows_to_binary(&rows, &columns);
    let mut expected: Vec<u8> = Vec::new();
    expected.extend_from_slice(&1u32.to_le_bytes());
    expected.extend_from_slice(&1u32.to_le_bytes());
    expected.extend_from_slice(&1u32.to_le_bytes());
    expected.push(b'b');
    expected.extend_from_slice(&TYPE_BOOL.to_le_bytes());
    expected.push(0); // present, but no payload follows
    assert_eq!(bytes, expected);
}

#[test]
fn decode_inverts_encode_on_a_mixed_result_set() {
    let columns = vec![
        col("b", TYPE_BOOL),
        col("s", TYPE_INT2),
        col("i", TYPE_INT4),
        col("l", TYPE_INT8),
        col("f", TYPE_FLOAT4),
        col("d", TYPE_FLOAT8),
        col("t", TYPE_TEXT),
    ];
    let rows = vec![
        Row {
            cells: vec![
                CellValue::Bool(false),
                CellValue::Int2(i16::MIN),
                CellValue::Int4(i32::MAX),
                CellValue::Int8(i64::MIN),
                CellValue::Float4(0.25f32.to_bits()),
                CellValue::Float8((-0.5f64).to_bits()),
                CellValue::Text(b"hello".to_vec()),
            ],
        },
        Row {
            cells: vec![
                CellValue::Null,
                CellValue::Null,
                CellValue::Null,
                CellValue::Null,
                CellValue::Null,
                CellValue::Null,
                CellValue::Null,
            ],
        },
    ];
    let bytes = serialize_rows_to_binary(&rows, &columns);
    let (decoded_rows, decoded_columns) =
        deserialize_rows_from_binary(bytes.as_slice()).expect("a fresh encoding must decode");
    assert_eq!(decoded_rows, rows);
    assert_eq!(decoded_columns, columns);
}

#[test]
fn decode_of_the_empty_image_yields_the_empty_set() {
    let (rows, columns) = deserialize_rows_from_binary(&[0, 0, 0, 0]).unwrap();
    assert!(rows.is_empty());
    assert!(columns.is_empty());
}

#[test]
fn decode_rejects_a_truncated_buffer() {
    let columns = vec![col("id", TYPE_INT4)];
    let rows = vec![Row { cells: vec![CellValue::Int4(7)] }];
    let bytes = serialize_rows_to_binary(&rows, &columns);
    for cut in 0..bytes.len() {
        assert!(deserialize_rows_from_binary(&bytes[..cut]).is_none());
    }
}

#[test]
fn decode_rejects_trailing_bytes() {
    let columns = vec![col("id", TYPE_INT4)];
    let rows = vec![Row { cells: vec![CellValue::Int4(7)] }];
    let mut bytes = serialize_rows_to_binary(&rows, &columns);
    bytes.push(0);
    assert!(deserialize_rows_from_binary(bytes.as_slice()).is_none());
}

#[test]
fn decode_rejects_an_undefined_null_flag() {
    let mut bytes: Vec<u8> = Vec::new();
    bytes.extend_from_slice(&1u32.to_le_bytes());
    bytes.extend_from_slice(&1u32.to_le_bytes());
    bytes.extend_from_slice(&1u32.to_le_bytes());
    bytes.push(b'b');
    bytes.extend_from_slice(&TYPE_BOOL.to_le_bytes());
    bytes.push(2); // neither present nor absent
    bytes.push(1);
    assert!(deserialize_rows_from_binary(bytes.as_slice()).is_none());
}

#[test]
fn decode_rejects_a_boolean_payload_out_of_range() {
    let mut bytes: Vec<u8> = Vec::new();
    bytes.extend_from_slice(&1u32.to_le_bytes());
    bytes.extend_from_slice(&1u32.to_le_bytes());
    bytes.extend_from_slice(&1u32.to_le_bytes());
    bytes.push(b'b');
    bytes.extend_from_slice(&TYPE_BOOL.to_le_bytes());
    bytes.push(0);
    bytes.push(3); // not a boolean byte
    assert!(deserialize_rows_from_binary(bytes.as_slice()).is_none());
}

#[test]
fn decode_rejects_the_empty_input() {
    assert!(deserialize_rows_from_binary(&[]).is_none());
}

//! End-to-end tests of table conversion: shapes, strictness, leniency and
//! idempotence.

use kusto_columnar::batch::{Batch, Field, PrimitiveType, RealCell, TypedArray};
use kusto_columnar::errors::ConvertError;
use kusto_columnar::models::{CellValue, Column, ColumnType, DataTable};
use kusto_columnar::{convert_column, convert_table};

fn col(name: &str, t: ColumnType) -> Column {
    Column { column_name: name.to_string(), column_type: t }
}

fn s(v: &str) -> CellValue {
    CellValue::Str(v.to_string())
}

fn num(v: &str) -> CellValue {
    CellValue::Num(v.to_string())
}

#[test]
fn empty_table_gives_empty_arrays() {
    let table = DataTable {
        columns: vec![
            col("a", ColumnType::Text),
            col("b", ColumnType::Int),
            col("c", ColumnType::Real),
        ],
        rows: vec![],
    };
    let batch = convert_table(table).expect("conversion should succeed");
    assert_eq!(batch.fields.len(), 3);
    assert_eq!(batch.columns.len(), 3);
    for a in &batch.columns {
        assert_eq!(a.len(), 0);
    }
}

#[test]
fn mixed_table_round_trip() {
    let table = DataTable {
        columns: vec![
            col("t", ColumnType::Text),
            col("b", ColumnType::Boolean),
            col("i", ColumnType::Int),
            col("l", ColumnType::Long),
        ],
        rows: vec![
            vec![s("hello"), CellValue::Bool(true), num("42"), num("-7")],
            vec![CellValue::Null, CellValue::Null, CellValue::Null, CellValue::Null],
            vec![s(""), CellValue::Bool(false), num("-2147483648"), num("9223372036854775807")],
        ],
    };
    let batch = convert_table(table).expect("conversion should succeed");
    assert_eq!(batch.fields[0], Field { name: "t".to_string(), data_type: PrimitiveType::Utf8 });
    assert_eq!(
        batch.columns[0],
        TypedArray::Text(vec![Some("hello".to_string()), None, Some("".to_string())])
    );
    assert_eq!(batch.columns[1], TypedArray::Boolean(vec![Some(true), None, Some(false)]));
    assert_eq!(batch.columns[2], TypedArray::Int32(vec![Some(42), None, Some(-2147483648)]));
    assert_eq!(
        batch.columns[3],
        TypedArray::Int64(vec![Some(-7), None, Some(9223372036854775807)])
    );
}

#[test]
fn float_sentinels_map_to_null_and_infinities() {
    let table = DataTable {
        columns: vec![col("r", ColumnType::Real)],
        rows: vec![
            vec![num("1.5")],
            vec![s("NaN")],
            vec![s("Infinity")],
            vec![s("-Infinity")],
            vec![CellValue::Null],
        ],
    };
    let batch = convert_table(table).expect("conversion should succeed");
    assert_eq!(batch.fields[0].data_type, PrimitiveType::Float64);
    let cells = match &batch.columns[0] {
        TypedArray::Real64(v) => v,
        other => panic!("expected a real array, got {:?}", other),
    };
    assert_eq!(
        cells,
        &vec![
            Some(RealCell::Number("1.5".to_string())),
            None,
            Some(RealCell::PosInfinity),
            Some(RealCell::NegInfinity),
            None,
        ]
    );
    // materialize the tokens as IEEE doubles, as a consumer would
    let reals: Vec<Option<f64>> = cells
        .iter()
        .map(|c| match c {
            None => None,
            Some(RealCell::PosInfinity) => Some(f64::INFINITY),
            Some(RealCell::NegInfinity) => Some(f64::NEG_INFINITY),
            Some(RealCell::Number(t)) => Some(t.parse::<f64>().unwrap()),
        })
        .collect();
    assert_eq!(
        reals,
        vec![Some(1.5), None, Some(f64::INFINITY), Some(f64::NEG_INFINITY), None]
    );
}

#[test]
fn float_column_rejects_other_strings_and_bools() {
    let table = DataTable {
        columns: vec![col("r", ColumnType::Real)],
        rows: vec![vec![s("nan")]],
    };
    assert_eq!(convert_table(table), Err(ConvertError::Deserialize));
    let table = DataTable {
        columns: vec![col("r", ColumnType::Real)],
        rows: vec![vec![CellValue::Bool(true)]],
    };
    assert_eq!(convert_table(table), Err(ConvertError::Deserialize));
}

#[test]
fn int_column_rejects_non_numeric_values() {
    // a plain string in an integer column fails the whole conversion
    let table = DataTable {
        columns: vec![col("i", ColumnType::Int), col("t", ColumnType::Text)],
        rows: vec![vec![s("abc"), s("x")], vec![num("1"), s("y")]],
    };
    assert_eq!(convert_table(table), Err(ConvertError::Deserialize));
    // so does a non-integer numeric token
    let table = DataTable {
        columns: vec![col("i", ColumnType::Int)],
        rows: vec![vec![num("1.5")]],
    };
    assert_eq!(convert_table(table), Err(ConvertError::Deserialize));
    // and an integer that does not fit the declared 32-bit width
    let table = DataTable {
        columns: vec![col("i", ColumnType::Int)],
        rows: vec![vec![num("2147483648")]],
    };
    assert_eq!(convert_table(table), Err(ConvertError::Deserialize));
}

#[test]
fn long_column_edges() {
    let table = DataTable {
        columns: vec![col("l", ColumnType::Long)],
        rows: vec![vec![num("-9223372036854775808")], vec![num("9223372036854775807")]],
    };
    let batch = convert_table(table).expect("conversion should succeed");
    assert_eq!(
        batch.columns[0],
        TypedArray::Int64(vec![Some(i64::MIN), Some(i64::MAX)])
    );
    let table = DataTable {
        columns: vec![col("l", ColumnType::Long)],
        rows: vec![vec![num("9223372036854775808")]],
    };
    assert_eq!(convert_table(table), Err(ConvertError::Deserialize));
}

#[test]
fn datetime_column_values() {
    let table = DataTable {
        columns: vec![col("d", ColumnType::Datetime)],
        rows: vec![
            vec![s("2023-03-04T05:06:07.123456789Z")],
            vec![s("1970-01-01T00:00:00Z")],
            vec![s("1969-12-31T23:59:59Z")],
            vec![s("2024-02-29T12:00:00Z")],
            vec![s("2262-04-11T23:47:16.854775807Z")],
            vec![s("not-a-date")],
            vec![s("2023-02-29T00:00:00Z")],
            vec![s("2263-01-01T00:00:00Z")],
        ],
    };
    let batch = convert_table(table).expect("conversion should succeed");
    assert_eq!(batch.fields[0].data_type, PrimitiveType::TimestampNanos);
    assert_eq!(
        batch.columns[0],
        TypedArray::TimestampNanos(vec![
            Some(1677906367123456789),
            Some(0),
            Some(-1000000000),
            Some(1709208000000000000),
            Some(i64::MAX),
            None,
            None,
            None,
        ])
    );
}

#[test]
fn datetime_column_rejects_null_cells() {
    let table = DataTable {
        columns: vec![col("d", ColumnType::Datetime)],
        rows: vec![vec![CellValue::Null]],
    };
    assert_eq!(convert_table(table), Err(ConvertError::Deserialize));
}

#[test]
fn timespan_column_values() {
    let table = DataTable {
        columns: vec![col("ts", ColumnType::Timespan)],
        rows: vec![
            vec![s("01:23:45.6780000")],
            vec![s("1.00:00:00")],
            vec![s("3.04:05:06.007")],
            vec![s("-00:00:01")],
            vec![s("00:00:00")],
            vec![s("bad")],
            vec![s("200001.00:00:00")],
            vec![s("25:00:00")],
        ],
    };
    let batch = convert_table(table).expect("conversion should succeed");
    assert_eq!(batch.fields[0].data_type, PrimitiveType::DurationNanos);
    assert_eq!(
        batch.columns[0],
        TypedArray::DurationNanos(vec![
            Some(5025678000000),
            Some(86400000000000),
            Some(273906007000000),
            Some(-1000000000),
            Some(0),
            None,
            None,
            None,
        ])
    );
}

#[test]
fn unsupported_column_type_aborts() {
    let table = DataTable {
        columns: vec![col("x", ColumnType::Decimal)],
        rows: vec![vec![num("1")]],
    };
    assert_eq!(convert_table(table), Err(ConvertError::NotImplemented));
    let table = DataTable {
        columns: vec![col("x", ColumnType::Guid)],
        rows: vec![vec![s("y")]],
    };
    assert_eq!(convert_table(table), Err(ConvertError::NotImplemented));
}

#[test]
fn conversion_is_idempotent() {
    let make = || DataTable {
        columns: vec![col("t", ColumnType::Text), col("i", ColumnType::Int)],
        rows: vec![vec![s("a"), num("1")], vec![CellValue::Null, num("2")]],
    };
    let b1 = convert_table(make()).expect("conversion should succeed");
    let b2 = convert_table(make()).expect("conversion should succeed");
    assert_eq!(b1, b2);
}

#[test]
fn convert_column_builds_schema_entry() {
    let column = col("name_col", ColumnType::Text);
    let (field, array) = convert_column(vec![s("v")], &column).expect("should succeed");
    assert_eq!(field, Field { name: "name_col".to_string(), data_type: PrimitiveType::Utf8 });
    assert_eq!(array, TypedArray::Text(vec![Some("v".to_string())]));
}

#[test]
fn batch_try_new_checks_lengths() {
    let fields = vec![
        Field { name: "a".to_string(), data_type: PrimitiveType::Int32 },
        Field { name: "b".to_string(), data_type: PrimitiveType::Int64 },
    ];
    let arrays = vec![
        TypedArray::Int32(vec![Some(1), Some(2)]),
        TypedArray::Int64(vec![Some(3)]),
    ];
    assert_eq!(Batch::try_new(fields, arrays), Err(ConvertError::DataConversion));
    let fields = vec![Field { name: "a".to_string(), data_type: PrimitiveType::Int32 }];
    assert_eq!(
        Batch::try_new(fields, vec![]),
        Err(ConvertError::DataConversion)
    );
}

use std::sync::Arc;

use arrow::array::{ArrayRef, BooleanArray, Decimal128Array, Float64Array, Int64Array,
    StringArray, TimestampMicrosecondArray};
use arrow::datatypes::{DataType, Field, Schema, TimeUnit};
use arrow::record_batch::RecordBatch;

use cubestore::codec::SerializedRecordBatchStream;
use cubestore::columnar::ColumnarType;
use cubestore::dataframe::{arrow_to_column_type, batch_to_dataframe, convert_column,
    rows_from_columns, ColumnData};
use cubestore::decimal::{cut_trailing_zeros, int64_decimal_string, scaled_int_to_decimal_string};
use cubestore::types::{ColumnType, TableValue, TimestampValue};

#[test]
fn trims_fraction_of_nonzero_digits_and_zeros() {
    assert_eq!(cut_trailing_zeros("1.10"), "1.1");
    assert_eq!(cut_trailing_zeros("-12.300"), "-12.3");
    assert_eq!(cut_trailing_zeros("0.50"), "0.5");
}

#[test]
fn trims_all_zero_fraction_entirely() {
    assert_eq!(cut_trailing_zeros("1.00"), "1");
    assert_eq!(cut_trailing_zeros("0.000"), "0");
    assert_eq!(cut_trailing_zeros("-3.0"), "-3");
}

#[test]
fn keeps_strings_the_rewrite_does_not_match() {
    assert_eq!(cut_trailing_zeros("1.5"), "1.5");
    assert_eq!(cut_trailing_zeros("10"), "10");
    // The fraction "050" starts with a zero, so neither alternative of the
    // rewrite matches and the string stays as it is.
    assert_eq!(cut_trailing_zeros("-0.050"), "-0.050");
    assert_eq!(cut_trailing_zeros("1.1050"), "1.1050");
    assert_eq!(cut_trailing_zeros(""), "");
    assert_eq!(cut_trailing_zeros("-"), "-");
    assert_eq!(cut_trailing_zeros("1."), "1.");
}

#[test]
fn renders_scaled_integers_plainly() {
    assert_eq!(scaled_int_to_decimal_string(12345, 0), "12345");
    assert_eq!(scaled_int_to_decimal_string(12345, 2), "123.45");
    assert_eq!(scaled_int_to_decimal_string(-50, 3), "-0.050");
    assert_eq!(scaled_int_to_decimal_string(0, 2), "0.00");
    assert_eq!(scaled_int_to_decimal_string(1, 10), "0.0000000001");
    assert_eq!(scaled_int_to_decimal_string(100, 2), "1.00");
}

#[test]
fn renders_and_trims_decimal_cells() {
    assert_eq!(int64_decimal_string(150, 2), "1.5");
    assert_eq!(int64_decimal_string(100, 2), "1");
    assert_eq!(int64_decimal_string(12345, 0), "12345");
    assert_eq!(int64_decimal_string(0, 2), "0");
}

#[test]
fn summarizes_columnar_types() {
    assert_eq!(arrow_to_column_type(ColumnarType::Utf8).unwrap(), ColumnType::String);
    assert_eq!(arrow_to_column_type(ColumnarType::LargeUtf8).unwrap(), ColumnType::String);
    assert_eq!(
        arrow_to_column_type(ColumnarType::TimestampMicrosecond).unwrap(),
        ColumnType::Timestamp
    );
    assert_eq!(
        arrow_to_column_type(ColumnarType::Float64).unwrap(),
        ColumnType::Decimal { scale: 10, precision: 18 }
    );
    assert_eq!(
        arrow_to_column_type(ColumnarType::Int64Decimal { scale: 3 }).unwrap(),
        ColumnType::Decimal { scale: 3, precision: 18 }
    );
    assert_eq!(arrow_to_column_type(ColumnarType::Boolean).unwrap(), ColumnType::Boolean);
    assert_eq!(arrow_to_column_type(ColumnarType::SignedInt).unwrap(), ColumnType::Int);
    assert_eq!(arrow_to_column_type(ColumnarType::UnsignedInt).unwrap(), ColumnType::Int);
    assert_eq!(
        arrow_to_column_type(ColumnarType::Float32).unwrap(),
        ColumnType::Decimal { scale: 10, precision: 18 }
    );
    assert!(arrow_to_column_type(ColumnarType::Other).is_err());
}

#[test]
fn converts_plain_columns_to_cells() {
    let ints = ColumnData::IntCol { values: vec![Some(5), None, Some(-7)] };
    assert_eq!(
        convert_column(&ints).unwrap(),
        vec![TableValue::Int(5), TableValue::Null, TableValue::Int(-7)]
    );

    let decs = ColumnData::DecimalIntCol { scale: 2, values: vec![Some(150), Some(100), None] };
    assert_eq!(
        convert_column(&decs).unwrap(),
        vec![
            TableValue::Decimal("1.5".to_string()),
            TableValue::Decimal("1".to_string()),
            TableValue::Null
        ]
    );

    let micros = ColumnData::TimestampMicrosCol { values: vec![Some(1_000)] };
    assert_eq!(
        convert_column(&micros).unwrap(),
        vec![TableValue::Timestamp(TimestampValue::new(1_000_000))]
    );

    let overflow = ColumnData::TimestampMicrosCol { values: vec![Some(i64::MAX)] };
    assert!(convert_column(&overflow).is_err());

    let bools = ColumnData::BoolCol { values: vec![Some(true), None] };
    assert_eq!(
        convert_column(&bools).unwrap(),
        vec![TableValue::Boolean(true), TableValue::Null]
    );
}

#[test]
fn transposes_columns_into_rows() {
    let columns = vec![
        vec![TableValue::Int(1), TableValue::Int(2)],
        vec![TableValue::String("a".to_string()), TableValue::String("b".to_string())],
    ];
    let rows = rows_from_columns(&columns, 2);
    assert_eq!(rows.len(), 2);
    assert_eq!(
        rows[0].values(),
        &vec![TableValue::Int(1), TableValue::String("a".to_string())]
    );
    assert_eq!(
        rows[1].values(),
        &vec![TableValue::Int(2), TableValue::String("b".to_string())]
    );
}

fn sample_batch() -> RecordBatch {
    let schema = Arc::new(Schema::new(vec![
        Field::new("n", DataType::Int64, true),
        Field::new("s", DataType::Utf8, true),
        Field::new("b", DataType::Boolean, true),
        Field::new("t", DataType::Timestamp(TimeUnit::Microsecond, None), true),
        Field::new("d", DataType::Decimal128(18, 2), true),
        Field::new("f", DataType::Float64, true),
    ]));
    let n: ArrayRef = Arc::new(Int64Array::from(vec![Some(42), None]));
    let s: ArrayRef = Arc::new(StringArray::from(vec![Some("x"), Some("y")]));
    let b: ArrayRef = Arc::new(BooleanArray::from(vec![Some(true), Some(false)]));
    let t: ArrayRef = Arc::new(TimestampMicrosecondArray::from(vec![Some(5), Some(6)]));
    let d: ArrayRef = Arc::new(
        Decimal128Array::from(vec![Some(150i128), Some(100i128)]).with_precision_and_scale(18, 2).unwrap(),
    );
    let f: ArrayRef = Arc::new(Float64Array::from(vec![Some(1.5), Some(2.0)]));
    RecordBatch::try_new(schema, vec![n, s, b, t, d, f]).unwrap()
}

fn encode(batches: &[RecordBatch]) -> Vec<u8> {
    let mut writer =
        arrow::ipc::writer::StreamWriter::try_new(Vec::new(), &batches[0].schema()).unwrap();
    for batch in batches {
        writer.write(batch).unwrap();
    }
    writer.finish().unwrap();
    writer.into_inner().unwrap()
}

fn decode(bytes: &[u8]) -> Vec<RecordBatch> {
    let reader =
        arrow::ipc::reader::StreamReader::try_new(std::io::Cursor::new(bytes.to_vec()), None)
            .unwrap();
    reader.collect::<Result<Vec<_>, _>>().unwrap()
}

#[test]
fn round_trips_batches_through_the_codec() {
    let batch = sample_batch();
    let bytes = encode(&[batch.clone()]);
    let stream = SerializedRecordBatchStream::from_bytes(bytes);
    let handles = stream.read().unwrap();
    assert_eq!(handles.len(), 1);
    let rewritten = SerializedRecordBatchStream::write(handles).unwrap();
    let restored = decode(rewritten.bytes());
    assert_eq!(restored.len(), 1);
    assert_eq!(restored[0], batch);
}

#[test]
fn materializes_batches_as_rows() {
    let batch = sample_batch();
    let bytes = encode(&[batch]);
    let handles = SerializedRecordBatchStream::from_bytes(bytes).read().unwrap();
    let df = batch_to_dataframe(&handles).unwrap();

    let cols = df.get_columns();
    assert_eq!(cols.len(), 6);
    assert_eq!(cols[0].get_name(), "n");
    assert_eq!(cols[0].get_column_type(), ColumnType::Int);
    assert_eq!(cols[4].get_column_type(), ColumnType::Decimal { scale: 2, precision: 18 });
    assert_eq!(cols[5].get_column_type(), ColumnType::Decimal { scale: 10, precision: 18 });

    let rows = df.get_rows();
    assert_eq!(rows.len(), 2);
    assert_eq!(
        rows[0].values(),
        &vec![
            TableValue::Int(42),
            TableValue::String("x".to_string()),
            TableValue::Boolean(true),
            TableValue::Timestamp(TimestampValue::new(5000)),
            TableValue::Decimal("1.5".to_string()),
            TableValue::Decimal("1.5".to_string()),
        ]
    );
    assert_eq!(
        rows[1].values(),
        &vec![
            TableValue::Null,
            TableValue::String("y".to_string()),
            TableValue::Boolean(false),
            TableValue::Timestamp(TimestampValue::new(6000)),
            TableValue::Decimal("1".to_string()),
            TableValue::Decimal("2".to_string()),
        ]
    );
}

#[test]
fn rejects_unsupported_column_types() {
    // Metadata summarizes a 32-bit float as a decimal, but the row
    // materializer does not read such a column: the error names the tag.
    let schema = Arc::new(Schema::new(vec![Field::new("r", DataType::Float32, true)]));
    let col: ArrayRef = Arc::new(arrow::array::Float32Array::from(vec![Some(1.0f32)]));
    let batch = RecordBatch::try_new(schema, vec![col]).unwrap();
    let bytes = encode(&[batch]);
    let handles = SerializedRecordBatchStream::from_bytes(bytes).read().unwrap();
    let err = batch_to_dataframe(&handles).unwrap_err();
    assert!(err.message.contains("Float32"));

    let schema = Arc::new(Schema::new(vec![Field::new("d", DataType::Date32, true)]));
    let col: ArrayRef = Arc::new(arrow::array::Date32Array::from(vec![Some(1)]));
    let batch = RecordBatch::try_new(schema, vec![col]).unwrap();
    let bytes = encode(&[batch]);
    let handles = SerializedRecordBatchStream::from_bytes(bytes).read().unwrap();
    assert!(batch_to_dataframe(&handles).is_err());
}

#[test]
fn widens_unsigned_and_passes_nanoseconds_through() {
    let schema = Arc::new(Schema::new(vec![
        Field::new("u", DataType::UInt64, true),
        Field::new("t", DataType::Timestamp(TimeUnit::Nanosecond, None), true),
    ]));
    let u: ArrayRef = Arc::new(arrow::array::UInt64Array::from(vec![Some(7u64), None]));
    let t: ArrayRef = Arc::new(arrow::array::TimestampNanosecondArray::from(vec![
        Some(123i64),
        Some(-5i64),
    ]));
    let batch = RecordBatch::try_new(schema, vec![u, t]).unwrap();
    let bytes = encode(&[batch]);
    let handles = SerializedRecordBatchStream::from_bytes(bytes).read().unwrap();
    let df = batch_to_dataframe(&handles).unwrap();
    let rows = df.get_rows();
    assert_eq!(
        rows[0].values(),
        &vec![TableValue::Int(7), TableValue::Timestamp(TimestampValue::new(123))]
    );
    assert_eq!(
        rows[1].values(),
        &vec![TableValue::Null, TableValue::Timestamp(TimestampValue::new(-5))]
    );
}

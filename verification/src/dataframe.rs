use vstd::prelude::*;
use vstd::string::StringExecFns;

use crate::columnar::{
    batch_bool_col, batch_decimal_i64_col, batch_f64_decimal_strs, batch_field_name,
    batch_field_name_of, batch_field_tag, batch_i64_col, batch_num_columns, batch_num_rows,
    batch_rows, batch_str_col, batch_tag_of, batch_ts_micros_col, batch_ts_nanos_col,
    batch_u64_col, batch_width, bool_column, decimal_int_column, float64_decimal_strings,
    int64_column, opt_str_view, opt_str_views, timestamp_micros_column, timestamp_nanos_column,
    uint64_column, utf8_column, ColumnarType, RecordBatchHandle,
};
use crate::decimal::{scaled_decimal, trim_result};
use crate::types::{
    col_views, row_views, value_views, Column, ColumnType, ColumnV, CubeError, DataFrame, Row,
    TableValue, TableValueV, TimestampValue,
};

verus! {

/// The row-side type a columnar field surfaces as, when it is supported.
pub open spec fn spec_arrow_to_column_type(t: ColumnarType) -> Option<ColumnType> {
    match t {
        ColumnarType::Utf8 => Some(ColumnType::String),
        ColumnarType::LargeUtf8 => Some(ColumnType::String),
        ColumnarType::TimestampMicrosecond => Some(ColumnType::Timestamp),
        ColumnarType::TimestampNanosecond => Some(ColumnType::Timestamp),
        ColumnarType::TimestampOther => Some(ColumnType::Timestamp),
        ColumnarType::Float16 => Some(ColumnType::Decimal { scale: 10, precision: 18 }),
        ColumnarType::Float64 => Some(ColumnType::Decimal { scale: 10, precision: 18 }),
        ColumnarType::Int64Decimal { scale } => if scale <= 0x7fffffff {
            Some(ColumnType::Decimal { scale: scale as i32, precision: 18 })
        } else {
            None
        },
        ColumnarType::Boolean => Some(ColumnType::Boolean),
        ColumnarType::SignedInt => Some(ColumnType::Int),
        ColumnarType::UnsignedInt => Some(ColumnType::Int),
        ColumnarType::Float32 => Some(ColumnType::Decimal { scale: 10, precision: 18 }),
        ColumnarType::Other => None,
    }
}

/// A printable name for a columnar type tag, used in error messages so the
/// offending tag reaches the caller.
fn tag_name(t: ColumnarType) -> &'static str {
    match t {
        ColumnarType::Utf8 => "Utf8",
        ColumnarType::LargeUtf8 => "LargeUtf8",
        ColumnarType::TimestampMicrosecond => "Timestamp(Microsecond)",
        ColumnarType::TimestampNanosecond => "Timestamp(Nanosecond)",
        ColumnarType::TimestampOther => "Timestamp",
        ColumnarType::Float16 => "Float16",
        ColumnarType::Float32 => "Float32",
        ColumnarType::Float64 => "Float64",
        ColumnarType::Int64Decimal { .. } => "Int64Decimal",
        ColumnarType::Boolean => "Boolean",
        ColumnarType::SignedInt => "Int",
        ColumnarType::UnsignedInt => "UInt",
        ColumnarType::Other => "unrecognized type",
    }
}

fn unsupported_type_error(t: ColumnarType) -> CubeError {
    CubeError::internal(String::from_str("unsupported type ").concat(tag_name(t)))
}

/// Summarizes a columnar type for row-oriented column metadata; floats become
/// decimals, every integer width an integer. An unsupported type is an error.
pub fn arrow_to_column_type(arrow_type: ColumnarType) -> (r: Result<ColumnType, CubeError>)
    ensures
        r is Ok <==> spec_arrow_to_column_type(arrow_type) is Some,
        r matches Ok(t) ==> spec_arrow_to_column_type(arrow_type) == Some(t),
{
    match arrow_type {
        ColumnarType::Utf8 => Result::Ok(ColumnType::String),
        ColumnarType::LargeUtf8 => Result::Ok(ColumnType::String),
        ColumnarType::TimestampMicrosecond => Result::Ok(ColumnType::Timestamp),
        ColumnarType::TimestampNanosecond => Result::Ok(ColumnType::Timestamp),
        ColumnarType::TimestampOther => Result::Ok(ColumnType::Timestamp),
        ColumnarType::Float16 => Result::Ok(ColumnType::Decimal { scale: 10, precision: 18 }),
        ColumnarType::Float32 => Result::Ok(ColumnType::Decimal { scale: 10, precision: 18 }),
        ColumnarType::Float64 => Result::Ok(ColumnType::Decimal { scale: 10, precision: 18 }),
        ColumnarType::Int64Decimal { scale } => {
            if scale <= 0x7fffffff {
                Result::Ok(ColumnType::Decimal { scale: scale as i32, precision: 18 })
            } else {
                Result::Err(unsupported_type_error(arrow_type))
            }
        },
        ColumnarType::Boolean => Result::Ok(ColumnType::Boolean),
        ColumnarType::SignedInt => Result::Ok(ColumnType::Int),
        ColumnarType::UnsignedInt => Result::Ok(ColumnType::Int),
        ColumnarType::Other => Result::Err(unsupported_type_error(ColumnarType::Other)),
    }
}

/// One column's contents as plain values, extracted from a record batch.
pub enum ColumnData {
    IntCol { values: Vec<Option<i64>> },
    DecimalStrCol { values: Vec<Option<String>> },
    DecimalIntCol { scale: u32, values: Vec<Option<i64>> },
    TimestampMicrosCol { values: Vec<Option<i64>> },
    TimestampNanosCol { values: Vec<Option<i64>> },
    StrCol { values: Vec<Option<String>> },
    BoolCol { values: Vec<Option<bool>> },
}

/// Mathematical image of one column's contents.
pub enum ColumnDataV {
    IntCol { values: Seq<Option<i64>> },
    DecimalStrCol { values: Seq<Option<Seq<char>>> },
    DecimalIntCol { scale: u32, values: Seq<Option<i64>> },
    TimestampMicrosCol { values: Seq<Option<i64>> },
    TimestampNanosCol { values: Seq<Option<i64>> },
    StrCol { values: Seq<Option<Seq<char>>> },
    BoolCol { values: Seq<Option<bool>> },
}

impl View for ColumnData {
    type V = ColumnDataV;

    open spec fn view(&self) -> ColumnDataV {
        match self {
            ColumnData::IntCol { values } => ColumnDataV::IntCol { values: values@ },
            ColumnData::DecimalStrCol { values } => ColumnDataV::DecimalStrCol {
                values: opt_str_views(values@),
            },
            ColumnData::DecimalIntCol { scale, values } => ColumnDataV::DecimalIntCol {
                scale: *scale,
                values: values@,
            },
            ColumnData::TimestampMicrosCol { values } => ColumnDataV::TimestampMicrosCol {
                values: values@,
            },
            ColumnData::TimestampNanosCol { values } => ColumnDataV::TimestampNanosCol {
                values: values@,
            },
            ColumnData::StrCol { values } => ColumnDataV::StrCol {
                values: opt_str_views(values@),
            },
            ColumnData::BoolCol { values } => ColumnDataV::BoolCol { values: values@ },
        }
    }
}

pub open spec fn int_cell(o: Option<i64>) -> TableValueV {
    match o {
        None => TableValueV::Null,
        Some(v) => TableValueV::Int { i: v },
    }
}

pub open spec fn decimal_str_cell(o: Option<Seq<char>>) -> TableValueV {
    match o {
        None => TableValueV::Null,
        Some(s) => TableValueV::Decimal { digits: trim_result(s) },
    }
}

pub open spec fn decimal_int_cell(scale: u32, o: Option<i64>) -> TableValueV {
    match o {
        None => TableValueV::Null,
        Some(v) => TableValueV::Decimal {
            digits: trim_result(scaled_decimal(v as int, scale as nat)),
        },
    }
}

pub open spec fn timestamp_micros_cell(o: Option<i64>) -> TableValueV {
    match o {
        None => TableValueV::Null,
        Some(v) => TableValueV::Timestamp { nanos: (v * 1000) as i64 },
    }
}

pub open spec fn timestamp_nanos_cell(o: Option<i64>) -> TableValueV {
    match o {
        None => TableValueV::Null,
        Some(v) => TableValueV::Timestamp { nanos: v },
    }
}

pub open spec fn str_cell(o: Option<Seq<char>>) -> TableValueV {
    match o {
        None => TableValueV::Null,
        Some(s) => TableValueV::String { chars: s },
    }
}

pub open spec fn bool_cell(o: Option<bool>) -> TableValueV {
    match o {
        None => TableValueV::Null,
        Some(b) => TableValueV::Boolean { b },
    }
}

/// Whether every microsecond value scales to nanoseconds without overflow.
pub open spec fn micros_in_range(values: Seq<Option<i64>>) -> bool {
    forall|i: int|
        0 <= i < values.len() ==> (#[trigger] values[i] matches Some(v) ==> i64::MIN <= v * 1000
            <= i64::MAX)
}

/// Whether a column converts without error.
pub open spec fn column_ok(d: ColumnDataV) -> bool {
    match d {
        ColumnDataV::TimestampMicrosCol { values } => micros_in_range(values),
        _ => true,
    }
}

/// The cells a column converts to.
pub open spec fn column_cells(d: ColumnDataV) -> Seq<TableValueV> {
    match d {
        ColumnDataV::IntCol { values } => values.map_values(|o: Option<i64>| int_cell(o)),
        ColumnDataV::DecimalStrCol { values } => values.map_values(
            |o: Option<Seq<char>>| decimal_str_cell(o),
        ),
        ColumnDataV::DecimalIntCol { scale, values } => values.map_values(
            |o: Option<i64>| decimal_int_cell(scale, o),
        ),
        ColumnDataV::TimestampMicrosCol { values } => values.map_values(
            |o: Option<i64>| timestamp_micros_cell(o),
        ),
        ColumnDataV::TimestampNanosCol { values } => values.map_values(
            |o: Option<i64>| timestamp_nanos_cell(o),
        ),
        ColumnDataV::StrCol { values } => values.map_values(|o: Option<Seq<char>>| str_cell(o)),
        ColumnDataV::BoolCol { values } => values.map_values(|o: Option<bool>| bool_cell(o)),
    }
}

/// Converts one extracted column to row cells: nulls become the null tag,
/// decimals are rendered and trimmed, microseconds are scaled to nanoseconds.
/// A microsecond value that cannot be scaled is an error.
pub fn convert_column(data: &ColumnData) -> (r: Result<Vec<TableValue>, CubeError>)
    ensures
        r is Ok <==> column_ok(data@),
        r matches Ok(cells) ==> value_views(cells@) == column_cells(data@),
{
    match data {
        ColumnData::IntCol { values } => {
            let mut out: Vec<TableValue> = Vec::new();
            let mut i: usize = 0;
            while i < values.len()
                invariant
                    0 <= i <= values@.len(),
                    value_views(out@) == values@.take(i as int).map_values(
                        |o: Option<i64>| int_cell(o),
                    ),
                decreases values@.len() - i,
            {
                let cell = match values[i] {
                    Option::None => TableValue::Null,
                    Option::Some(v) => TableValue::Int(v),
                };
                let ghost prev = out@;
                out.push(cell);
                proof {
                    assert(value_views(prev.push(cell)) =~= value_views(prev).push(cell@));
                    assert(values@.take(i + 1).map_values(|o: Option<i64>| int_cell(o))
                        =~= values@.take(i as int).map_values(|o: Option<i64>| int_cell(o)).push(
                        int_cell(values@[i as int]),
                    ));
                }
                i += 1;
            }
            proof {
                assert(values@.take(values@.len() as int) =~= values@);
            }
            Result::Ok(out)
        },
        ColumnData::DecimalStrCol { values } => {
            let ghost vv = opt_str_views(values@);
            let mut out: Vec<TableValue> = Vec::new();
            let mut i: usize = 0;
            while i < values.len()
                invariant
                    0 <= i <= values@.len(),
                    vv == opt_str_views(values@),
                    vv.len() == values@.len(),
                    value_views(out@) == vv.take(i as int).map_values(
                        |o: Option<Seq<char>>| decimal_str_cell(o),
                    ),
                decreases values@.len() - i,
            {
                let cell = match &values[i] {
                    Option::None => TableValue::Null,
                    Option::Some(s) => TableValue::Decimal(
                        crate::decimal::cut_trailing_zeros(s.as_str()),
                    ),
                };
                let ghost prev = out@;
                out.push(cell);
                proof {
                    assert(value_views(prev.push(cell)) =~= value_views(prev).push(cell@));
                    assert(vv[i as int] == opt_str_view(values@[i as int]));
                    assert(vv.take(i + 1).map_values(|o: Option<Seq<char>>| decimal_str_cell(o))
                        =~= vv.take(i as int).map_values(
                        |o: Option<Seq<char>>| decimal_str_cell(o),
                    ).push(decimal_str_cell(vv[i as int])));
                }
                i += 1;
            }
            proof {
                assert(vv.take(vv.len() as int) =~= vv);
            }
            Result::Ok(out)
        },
        ColumnData::DecimalIntCol { scale, values } => {
            let mut out: Vec<TableValue> = Vec::new();
            let mut i: usize = 0;
            while i < values.len()
                invariant
                    0 <= i <= values@.len(),
                    value_views(out@) == values@.take(i as int).map_values(
                        |o: Option<i64>| decimal_int_cell(*scale, o),
                    ),
                decreases values@.len() - i,
            {
                let cell = match values[i] {
                    Option::None => TableValue::Null,
                    Option::Some(v) => TableValue::Decimal(
                        crate::decimal::int64_decimal_string(v, *scale),
                    ),
                };
                let ghost prev = out@;
                out.push(cell);
                proof {
                    assert(value_views(prev.push(cell)) =~= value_views(prev).push(cell@));
                    assert(values@.take(i + 1).map_values(
                        |o: Option<i64>| decimal_int_cell(*scale, o),
                    ) =~= values@.take(i as int).map_values(
                        |o: Option<i64>| decimal_int_cell(*scale, o),
                    ).push(decimal_int_cell(*scale, values@[i as int])));
                }
                i += 1;
            }
            proof {
                assert(values@.take(values@.len() as int) =~= values@);
            }
            Result::Ok(out)
        },
        ColumnData::TimestampMicrosCol { values } => {
            let mut out: Vec<TableValue> = Vec::new();
            let mut i: usize = 0;
            while i < values.len()
                invariant
                    0 <= i <= values@.len(),
                    data@ == (ColumnDataV::TimestampMicrosCol { values: values@ }),
                    micros_in_range(values@.take(i as int)),
                    value_views(out@) == values@.take(i as int).map_values(
                        |o: Option<i64>| timestamp_micros_cell(o),
                    ),
                decreases values@.len() - i,
            {
                let cell = match values[i] {
                    Option::None => TableValue::Null,
                    Option::Some(v) => {
                        match v.checked_mul(1000) {
                            Option::Some(nanos) => TableValue::Timestamp(
                                TimestampValue::new(nanos),
                            ),
                            Option::None => {
                                proof {
                                    assert(values@[i as int] matches Some(vv) && !(i64::MIN <= vv
                                        * 1000 <= i64::MAX));
                                    assert(!micros_in_range(values@));
                                    assert(data@ == (ColumnDataV::TimestampMicrosCol {
                                        values: values@,
                                    }));
                                    assert(!column_ok(data@));
                                }
                                return Result::Err(
                                    CubeError::internal("timestamp out of range".to_owned()),
                                );
                            },
                        }
                    },
                };
                let ghost prev = out@;
                out.push(cell);
                proof {
                    assert(value_views(prev.push(cell)) =~= value_views(prev).push(cell@));
                    assert(values@.take(i + 1).map_values(
                        |o: Option<i64>| timestamp_micros_cell(o),
                    ) =~= values@.take(i as int).map_values(
                        |o: Option<i64>| timestamp_micros_cell(o),
                    ).push(timestamp_micros_cell(values@[i as int])));
                    assert(micros_in_range(values@.take(i + 1))) by {
                        assert(forall|k: int|
                            0 <= k < i + 1 ==> values@.take(i + 1)[k] == values@.take(i as int).push(
                                values@[i as int],
                            )[k]);
                    }
                }
                i += 1;
            }
            proof {
                assert(values@.take(values@.len() as int) =~= values@);
            }
            Result::Ok(out)
        },
        ColumnData::TimestampNanosCol { values } => {
            let mut out: Vec<TableValue> = Vec::new();
            let mut i: usize = 0;
            while i < values.len()
                invariant
                    0 <= i <= values@.len(),
                    value_views(out@) == values@.take(i as int).map_values(
                        |o: Option<i64>| timestamp_nanos_cell(o),
                    ),
                decreases values@.len() - i,
            {
                let cell = match values[i] {
                    Option::None => TableValue::Null,
                    Option::Some(v) => TableValue::Timestamp(TimestampValue::new(v)),
                };
                let ghost prev = out@;
                out.push(cell);
                proof {
                    assert(value_views(prev.push(cell)) =~= value_views(prev).push(cell@));
                    assert(values@.take(i + 1).map_values(
                        |o: Option<i64>| timestamp_nanos_cell(o),
                    ) =~= values@.take(i as int).map_values(
                        |o: Option<i64>| timestamp_nanos_cell(o),
                    ).push(timestamp_nanos_cell(values@[i as int])));
                }
                i += 1;
            }
            proof {
                assert(values@.take(values@.len() as int) =~= values@);
            }
            Result::Ok(out)
        },
        ColumnData::StrCol { values } => {
            let ghost vv = opt_str_views(values@);
            let mut out: Vec<TableValue> = Vec::new();
            let mut i: usize = 0;
            while i < values.len()
                invariant
                    0 <= i <= values@.len(),
                    vv == opt_str_views(values@),
                    vv.len() == values@.len(),
                    value_views(out@) == vv.take(i as int).map_values(
                        |o: Option<Seq<char>>| str_cell(o),
                    ),
                decreases values@.len() - i,
            {
                let cell = match &values[i] {
                    Option::None => TableValue::Null,
                    Option::Some(s) => TableValue::String(s.clone()),
                };
                let ghost prev = out@;
                out.push(cell);
                proof {
                    assert(value_views(prev.push(cell)) =~= value_views(prev).push(cell@));
                    assert(vv[i as int] == opt_str_view(values@[i as int]));
                    assert(vv.take(i + 1).map_values(|o: Option<Seq<char>>| str_cell(o)) =~= vv.take(
                        i as int,
                    ).map_values(|o: Option<Seq<char>>| str_cell(o)).push(str_cell(vv[i as int])));
                }
                i += 1;
            }
            proof {
                assert(vv.take(vv.len() as int) =~= vv);
            }
            Result::Ok(out)
        },
        ColumnData::BoolCol { values } => {
            let mut out: Vec<TableValue> = Vec::new();
            let mut i: usize = 0;
            while i < values.len()
                invariant
                    0 <= i <= values@.len(),
                    value_views(out@) == values@.take(i as int).map_values(
                        |o: Option<bool>| bool_cell(o),
                    ),
                decreases values@.len() - i,
            {
                let cell = match values[i] {
                    Option::None => TableValue::Null,
                    Option::Some(b) => TableValue::Boolean(b),
                };
                let ghost prev = out@;
                out.push(cell);
                proof {
                    assert(value_views(prev.push(cell)) =~= value_views(prev).push(cell@));
                    assert(values@.take(i + 1).map_values(|o: Option<bool>| bool_cell(o))
                        =~= values@.take(i as int).map_values(|o: Option<bool>| bool_cell(o)).push(
                        bool_cell(values@[i as int]),
                    ));
                }
                i += 1;
            }
            proof {
                assert(values@.take(values@.len() as int) =~= values@);
            }
            Result::Ok(out)
        },
    }
}

fn clone_value(v: &TableValue) -> (r: TableValue)
    ensures
        r@ == v@,
{
    match v {
        TableValue::Null => TableValue::Null,
        TableValue::Int(x) => TableValue::Int(*x),
        TableValue::Decimal(s) => TableValue::Decimal(s.clone()),
        TableValue::Timestamp(t) => TableValue::Timestamp(*t),
        TableValue::String(s) => TableValue::String(s.clone()),
        TableValue::Boolean(b) => TableValue::Boolean(*b),
    }
}

pub open spec fn column_matrix_views(m: Seq<Vec<TableValue>>) -> Seq<Seq<TableValueV>> {
    m.map_values(|c: Vec<TableValue>| value_views(c@))
}

/// Turns column-major cells into rows: row `i` holds cell `i` of each column,
/// in column order.
pub fn rows_from_columns(columns: &Vec<Vec<TableValue>>, num_rows: usize) -> (r: Vec<Row>)
    requires
        forall|c: int| 0 <= c < columns@.len() ==> columns@[c]@.len() == num_rows,
    ensures
        r@.len() == num_rows,
        forall|i: int| 0 <= i < num_rows ==> row_views(r@)[i].len() == columns@.len(),
        forall|i: int, c: int|
            0 <= i < num_rows && 0 <= c < columns@.len() ==> row_views(r@)[i][c]
                == column_matrix_views(columns@)[c][i],
{
    let mut rows: Vec<Row> = Vec::new();
    let mut i: usize = 0;
    while i < num_rows
        invariant
            0 <= i <= num_rows,
            rows@.len() == i,
            forall|c: int| 0 <= c < columns@.len() ==> columns@[c]@.len() == num_rows,
            forall|k: int| 0 <= k < i ==> row_views(rows@)[k].len() == columns@.len(),
            forall|k: int, c: int|
                0 <= k < i && 0 <= c < columns@.len() ==> row_views(rows@)[k][c]
                    == column_matrix_views(columns@)[c][k],
        decreases num_rows - i,
    {
        let mut values: Vec<TableValue> = Vec::new();
        let mut c: usize = 0;
        while c < columns.len()
            invariant
                0 <= c <= columns@.len(),
                0 <= i < num_rows,
                values@.len() == c,
                forall|k: int| 0 <= k < columns@.len() ==> columns@[k]@.len() == num_rows,
                forall|k: int|
                    0 <= k < c ==> value_views(values@)[k] == column_matrix_views(columns@)[k][
                        i as int
                    ],
            decreases columns@.len() - c,
        {
            let cell = clone_value(&columns[c][i]);
            let ghost prev = values@;
            values.push(cell);
            proof {
                assert(value_views(prev.push(cell)) =~= value_views(prev).push(cell@));
                assert(column_matrix_views(columns@)[c as int] == value_views(columns@[
                    c as int
                ]@));
            }
            c += 1;
        }
        let row = Row::new(values);
        let ghost prev_rows = rows@;
        rows.push(row);
        proof {
            assert(row_views(prev_rows.push(row)) =~= row_views(prev_rows).push(row@));
        }
        i += 1;
    }
    rows
}

/// What extraction yields for a column of the given tag, in terms of the
/// batch-content names; `None` for a tag the row materializer does not
/// support.
pub open spec fn spec_extracted(b: RecordBatchHandle, i: int, tag: ColumnarType) -> Option<
    ColumnDataV,
> {
    match tag {
        ColumnarType::SignedInt => Some(ColumnDataV::IntCol { values: batch_i64_col(b, i) }),
        ColumnarType::UnsignedInt => Some(ColumnDataV::IntCol { values: batch_u64_col(b, i) }),
        ColumnarType::Float64 => Some(
            ColumnDataV::DecimalStrCol { values: batch_f64_decimal_strs(b, i) },
        ),
        ColumnarType::Int64Decimal { scale } => Some(
            ColumnDataV::DecimalIntCol { scale, values: batch_decimal_i64_col(b, i) },
        ),
        ColumnarType::TimestampMicrosecond => Some(
            ColumnDataV::TimestampMicrosCol { values: batch_ts_micros_col(b, i) },
        ),
        ColumnarType::TimestampNanosecond => Some(
            ColumnDataV::TimestampNanosCol { values: batch_ts_nanos_col(b, i) },
        ),
        ColumnarType::Utf8 => Some(ColumnDataV::StrCol { values: batch_str_col(b, i) }),
        ColumnarType::Boolean => Some(ColumnDataV::BoolCol { values: batch_bool_col(b, i) }),
        _ => None,
    }
}

pub open spec fn column_data_len(d: ColumnDataV) -> nat {
    match d {
        ColumnDataV::IntCol { values } => values.len(),
        ColumnDataV::DecimalStrCol { values } => values.len(),
        ColumnDataV::DecimalIntCol { values, .. } => values.len(),
        ColumnDataV::TimestampMicrosCol { values } => values.len(),
        ColumnDataV::TimestampNanosCol { values } => values.len(),
        ColumnDataV::StrCol { values } => values.len(),
        ColumnDataV::BoolCol { values } => values.len(),
    }
}

/// Extracts one column of a batch, dispatching on its field tag; an
/// unsupported or mismatched column is an error naming the tag.
fn extract_column(batch: &RecordBatchHandle, i: usize, tag: ColumnarType) -> (r: Result<
    ColumnData,
    CubeError,
>)
    ensures
        r matches Ok(d) ==> Some(d@) == spec_extracted(*batch, i as int, tag) && column_data_len(
            d@,
        ) == batch_rows(*batch),
        spec_extracted(*batch, i as int, tag) is None ==> r is Err,
{
    match tag {
        ColumnarType::SignedInt => {
            match int64_column(batch, i) {
                Option::Some(values) => Result::Ok(ColumnData::IntCol { values }),
                Option::None => Result::Err(unsupported_type_error(tag)),
            }
        },
        ColumnarType::UnsignedInt => {
            match uint64_column(batch, i) {
                Option::Some(values) => Result::Ok(ColumnData::IntCol { values }),
                Option::None => Result::Err(unsupported_type_error(tag)),
            }
        },
        ColumnarType::Float64 => {
            match float64_decimal_strings(batch, i) {
                Option::Some(values) => Result::Ok(ColumnData::DecimalStrCol { values }),
                Option::None => Result::Err(unsupported_type_error(tag)),
            }
        },
        ColumnarType::Int64Decimal { scale } => {
            match decimal_int_column(batch, i) {
                Option::Some(values) => Result::Ok(ColumnData::DecimalIntCol { scale, values }),
                Option::None => Result::Err(unsupported_type_error(tag)),
            }
        },
        ColumnarType::TimestampMicrosecond => {
            match timestamp_micros_column(batch, i) {
                Option::Some(values) => Result::Ok(ColumnData::TimestampMicrosCol { values }),
                Option::None => Result::Err(unsupported_type_error(tag)),
            }
        },
        ColumnarType::TimestampNanosecond => {
            match timestamp_nanos_column(batch, i) {
                Option::Some(values) => Result::Ok(ColumnData::TimestampNanosCol { values }),
                Option::None => Result::Err(unsupported_type_error(tag)),
            }
        },
        ColumnarType::Utf8 => {
            match utf8_column(batch, i) {
                Option::Some(values) => Result::Ok(ColumnData::StrCol { values }),
                Option::None => Result::Err(unsupported_type_error(tag)),
            }
        },
        ColumnarType::Boolean => {
            match bool_column(batch, i) {
                Option::Some(values) => Result::Ok(ColumnData::BoolCol { values }),
                Option::None => Result::Err(unsupported_type_error(tag)),
            }
        },
        _ => Result::Err(unsupported_type_error(tag)),
    }
}

/// The width a frame over these batches has: the first batch's column count.
pub open spec fn spec_frame_width(bs: Seq<RecordBatchHandle>) -> nat {
    if bs.len() > 0 {
        batch_width(bs[0])
    } else {
        0
    }
}

/// Whether column metadata describes the fields of a batch: name, summarized
/// type and ordinal of each field, in order.
pub open spec fn spec_columns_match(cols: Seq<ColumnV>, b0: RecordBatchHandle) -> bool {
    &&& cols.len() == batch_width(b0)
    &&& (forall|j: int|
        #![trigger cols[j]]
        0 <= j < cols.len() ==> {
            &&& cols[j].name == batch_field_name_of(b0, j)
            &&& spec_arrow_to_column_type(batch_tag_of(b0, j)) == Some(cols[j].column_type)
            &&& cols[j].column_index == j
        })
}

/// Cells of column `c` of a batch, as the row materializer produces them.
pub open spec fn spec_batch_cells(b: RecordBatchHandle, c: int) -> Seq<TableValueV> {
    match spec_extracted(b, c, batch_tag_of(b, c)) {
        Some(d) => column_cells(d),
        None => Seq::empty(),
    }
}

pub open spec fn spec_batch_row(b: RecordBatchHandle, width: nat, r: int) -> Seq<TableValueV> {
    Seq::new(width, |c: int| spec_batch_cells(b, c)[r])
}

/// The rows one batch contributes: its cells transposed, row-major.
pub open spec fn spec_batch_data(b: RecordBatchHandle, width: nat) -> Seq<Seq<TableValueV>> {
    Seq::new(batch_rows(b), |r: int| spec_batch_row(b, width, r))
}

/// The rows of a whole frame: each batch's rows, in batch order; a zero-row
/// batch contributes nothing.
pub open spec fn spec_frame_data(bs: Seq<RecordBatchHandle>, width: nat) -> Seq<Seq<TableValueV>>
    decreases bs.len(),
{
    if bs.len() == 0 {
        Seq::empty()
    } else {
        spec_batch_data(bs[0], width) + spec_frame_data(bs.drop_first(), width)
    }
}

proof fn lemma_spec_frame_data_snoc(bs: Seq<RecordBatchHandle>, x: RecordBatchHandle, width: nat)
    ensures
        spec_frame_data(bs.push(x), width) == spec_frame_data(bs, width) + spec_batch_data(
            x,
            width,
        ),
    decreases bs.len(),
{
    if bs.len() == 0 {
        assert(bs.push(x)[0] == x);
        assert(bs.push(x).drop_first() =~= Seq::<RecordBatchHandle>::empty());
        assert(spec_frame_data(Seq::<RecordBatchHandle>::empty(), width)
            =~= Seq::<Seq<TableValueV>>::empty());
        assert(spec_frame_data(bs.push(x), width) =~= spec_frame_data(bs, width)
            + spec_batch_data(x, width));
    } else {
        assert(bs.push(x).drop_first() =~= bs.drop_first().push(x));
        lemma_spec_frame_data_snoc(bs.drop_first(), x, width);
        assert(spec_frame_data(bs.push(x), width) =~= spec_frame_data(bs, width)
            + spec_batch_data(x, width));
    }
}

/// Materializes record batches into a row-oriented frame. On success the
/// frame is exact in terms of the batch-content names: its column metadata
/// describes the first batch's fields, and its rows are every batch's cells,
/// converted and transposed, in batch order.
pub fn batch_to_dataframe(batches: &Vec<RecordBatchHandle>) -> (r: Result<DataFrame, CubeError>)
    ensures
        r matches Ok(df) ==> {
            &&& df@.columns.len() == spec_frame_width(batches@)
            &&& (batches@.len() > 0 ==> spec_columns_match(df@.columns, batches@[0]))
            &&& df@.data == spec_frame_data(batches@, spec_frame_width(batches@))
        },
        r matches Ok(df) ==> forall|i: int|
            0 <= i < df@.data.len() ==> df@.data[i].len() == df@.columns.len(),
{
    let ghost width: nat = spec_frame_width(batches@);
    let mut cols: Vec<Column> = Vec::new();
    let mut all_rows: Vec<Row> = Vec::new();
    proof {
        assert(batches@.take(0) =~= Seq::<RecordBatchHandle>::empty());
        assert(row_views(all_rows@) =~= spec_frame_data(batches@.take(0), width));
    }
    let mut b: usize = 0;
    while b < batches.len()
        invariant
            0 <= b <= batches@.len(),
            width == spec_frame_width(batches@),
            b == 0 ==> all_rows@.len() == 0 && cols@.len() == 0,
            b > 0 ==> batches@.len() > 0 && spec_columns_match(col_views(cols@), batches@[0]),
            row_views(all_rows@) == spec_frame_data(batches@.take(b as int), width),
            forall|i: int|
                0 <= i < row_views(all_rows@).len() ==> row_views(all_rows@)[i].len() == col_views(
                    cols@,
                ).len(),
        decreases batches@.len() - b,
    {
        let batch = &batches[b];
        proof {
            assert(*batch == batches@[b as int]);
        }
        let num_columns = batch_num_columns(batch);
        if b == 0 {
            proof {
                assert(*batch == batches@[0]);
                assert(num_columns as nat == width);
            }
            let mut i: usize = 0;
            while i < num_columns
                invariant
                    0 <= i <= num_columns,
                    cols@.len() == i,
                    *batch == batches@[0],
                    num_columns as nat == batch_width(batches@[0]),
                    forall|j: int|
                        #![trigger col_views(cols@)[j]]
                        0 <= j < i ==> {
                            &&& col_views(cols@)[j].name == batch_field_name_of(batches@[0], j)
                            &&& spec_arrow_to_column_type(batch_tag_of(batches@[0], j)) == Some(
                                col_views(cols@)[j].column_type,
                            )
                            &&& col_views(cols@)[j].column_index == j
                        },
                decreases num_columns - i,
            {
                let name = match batch_field_name(batch, i) {
                    Option::Some(n) => n,
                    Option::None => {
                        return Result::Err(CubeError::internal("missing field".to_owned()));
                    },
                };
                let tag = match batch_field_tag(batch, i) {
                    Option::Some(t) => t,
                    Option::None => {
                        return Result::Err(CubeError::internal("missing field".to_owned()));
                    },
                };
                let column_type = match arrow_to_column_type(tag) {
                    Result::Ok(t) => t,
                    Result::Err(e) => {
                        return Result::Err(e);
                    },
                };
                let column = Column::new(name, column_type, i);
                let ghost prev = cols@;
                cols.push(column);
                proof {
                    assert(col_views(prev.push(column)) =~= col_views(prev).push(column@));
                }
                i += 1;
            }
            proof {
                assert(spec_columns_match(col_views(cols@), batches@[0]));
            }
        }
        let num_rows = batch_num_rows(batch);
        if num_rows > 0 {
            if num_columns != cols.len() {
                return Result::Err(CubeError::internal("mismatched batch width".to_owned()));
            }
            proof {
                assert(cols@.len() as nat == width);
                assert(num_columns as nat == width);
            }
            let mut converted: Vec<Vec<TableValue>> = Vec::new();
            let mut ci: usize = 0;
            while ci < num_columns
                invariant
                    0 <= ci <= num_columns,
                    converted@.len() == ci,
                    *batch == batches@[b as int],
                    0 <= b < batches@.len(),
                    num_rows as nat == batch_rows(batches@[b as int]),
                    forall|k: int|
                        #![trigger converted@[k]]
                        0 <= k < ci ==> value_views(converted@[k]@) == spec_batch_cells(
                            batches@[b as int],
                            k,
                        ) && converted@[k]@.len() == num_rows,
                decreases num_columns - ci,
            {
                let tag = match batch_field_tag(batch, ci) {
                    Option::Some(t) => t,
                    Option::None => {
                        return Result::Err(CubeError::internal("missing field".to_owned()));
                    },
                };
                let data = match extract_column(batch, ci, tag) {
                    Result::Ok(d) => d,
                    Result::Err(e) => {
                        return Result::Err(e);
                    },
                };
                let cells = match convert_column(&data) {
                    Result::Ok(c) => c,
                    Result::Err(e) => {
                        return Result::Err(e);
                    },
                };
                proof {
                    assert(spec_batch_cells(batches@[b as int], ci as int) == column_cells(data@));
                    assert(column_cells(data@).len() == column_data_len(data@));
                    assert(value_views(cells@).len() == cells@.len());
                    assert(cells@.len() == num_rows);
                }
                converted.push(cells);
                ci += 1;
            }
            let ghost bb = batches@[b as int];
            let mut rows = rows_from_columns(&converted, num_rows);
            proof {
                assert forall|i: int| 0 <= i < num_rows implies row_views(rows@)[i]
                    =~= spec_batch_row(bb, width, i) by {
                    assert forall|c: int| 0 <= c < width implies row_views(rows@)[i][c]
                        == spec_batch_cells(bb, c)[i] by {
                        assert(column_matrix_views(converted@)[c] == value_views(converted@[c]@));
                    }
                }
                assert(row_views(rows@) =~= spec_batch_data(bb, width));
            }
            let ghost target = spec_frame_data(batches@.take(b as int), width) + spec_batch_data(
                bb,
                width,
            );
            proof {
                assert(row_views(all_rows@) + row_views(rows@) =~= target);
            }
            while rows.len() > 0
                invariant
                    row_views(all_rows@) + row_views(rows@) == target,
                    forall|i: int|
                        0 <= i < row_views(rows@).len() ==> row_views(rows@)[i].len()
                            == col_views(cols@).len(),
                    forall|i: int|
                        0 <= i < row_views(all_rows@).len() ==> row_views(all_rows@)[i].len()
                            == col_views(cols@).len(),
                decreases rows@.len(),
            {
                let ghost old_rows = rows@;
                let row = rows.remove(0);
                proof {
                    assert(row == old_rows[0]);
                    assert(rows@ =~= old_rows.drop_first());
                    assert(row_views(rows@) =~= row_views(old_rows).drop_first());
                    assert(row@ == row_views(old_rows)[0]);
                }
                let ghost prev = all_rows@;
                all_rows.push(row);
                proof {
                    assert(row_views(prev.push(row)) =~= row_views(prev).push(row@));
                    assert(row_views(all_rows@) + row_views(rows@) =~= target);
                }
            }
            proof {
                assert(row_views(rows@) =~= Seq::<Seq<TableValueV>>::empty());
                assert(row_views(all_rows@) =~= target);
                lemma_spec_frame_data_snoc(batches@.take(b as int), bb, width);
                assert(batches@.take(b + 1) =~= batches@.take(b as int).push(bb));
                assert(row_views(all_rows@) =~= spec_frame_data(batches@.take(b + 1), width));
            }
        } else {
            proof {
                let bb = batches@[b as int];
                assert(spec_batch_data(bb, width) =~= Seq::<Seq<TableValueV>>::empty());
                lemma_spec_frame_data_snoc(batches@.take(b as int), bb, width);
                assert(batches@.take(b + 1) =~= batches@.take(b as int).push(bb));
                assert(row_views(all_rows@) + spec_batch_data(bb, width) =~= row_views(all_rows@));
                assert(row_views(all_rows@) =~= spec_frame_data(batches@.take(b + 1), width));
            }
        }
        b += 1;
    }
    proof {
        assert(batches@.take(batches@.len() as int) =~= batches@);
        if batches@.len() == 0 {
            assert(cols@.len() == 0);
        }
    }
    Result::Ok(DataFrame::new(cols, all_rows))
}

} // verus!

use vstd::prelude::*;

use arrow::datatypes::{DataType, TimeUnit};

verus! {

/// arrow's record batch, held opaquely; Verus refuses the type's own
/// declaration because its trait impls reach arrow's Array trait.
#[verifier::external_body]
pub struct RecordBatchHandle {
    pub(crate) inner: arrow::record_batch::RecordBatch,
}


/// Summary of a columnar field's type, as this engine distinguishes them.
#[derive(Clone, Copy, PartialEq, Eq, Structural, Debug)]
pub enum ColumnarType {
    Utf8,
    LargeUtf8,
    TimestampMicrosecond,
    TimestampNanosecond,
    TimestampOther,
    Float16,
    Float32,
    Float64,
    Int64Decimal { scale: u32 },
    Boolean,
    SignedInt,
    UnsignedInt,
    Other,
}


/// Whether a tag is one the temporal-and-decimal classifier reports.
pub open spec fn is_temporal_tag(t: ColumnarType) -> bool {
    match t {
        ColumnarType::TimestampMicrosecond => true,
        ColumnarType::TimestampNanosecond => true,
        ColumnarType::TimestampOther => true,
        ColumnarType::Int64Decimal { .. } => true,
        _ => false,
    }
}

pub open spec fn opt_str_view(o: Option<String>) -> Option<Seq<char>> {
    match o {
        None => None,
        Some(s) => Some(s@),
    }
}

pub open spec fn opt_str_views(s: Seq<Option<String>>) -> Seq<Option<Seq<char>>> {
    s.map_values(|o: Option<String>| opt_str_view(o))
}

/// Names for what a record batch holds. Each accessor below is a pure
/// function of the batch value, so its result can be named and the verified
/// logic above can be exact in terms of these names. A batch's columns all
/// carry exactly `num_rows` values; arrow's constructors enforce that, and
/// the accessors' length clauses rely on it.
pub uninterp spec fn batch_rows(b: RecordBatchHandle) -> nat;

pub uninterp spec fn batch_width(b: RecordBatchHandle) -> nat;

pub uninterp spec fn batch_field_name_of(b: RecordBatchHandle, i: int) -> Seq<char>;

pub uninterp spec fn batch_tag_of(b: RecordBatchHandle, i: int) -> ColumnarType;

pub uninterp spec fn batch_i64_col(b: RecordBatchHandle, i: int) -> Seq<Option<i64>>;

pub uninterp spec fn batch_u64_col(b: RecordBatchHandle, i: int) -> Seq<Option<i64>>;

pub uninterp spec fn batch_str_col(b: RecordBatchHandle, i: int) -> Seq<Option<Seq<char>>>;

pub uninterp spec fn batch_bool_col(b: RecordBatchHandle, i: int) -> Seq<Option<bool>>;

pub uninterp spec fn batch_ts_micros_col(b: RecordBatchHandle, i: int) -> Seq<Option<i64>>;

pub uninterp spec fn batch_ts_nanos_col(b: RecordBatchHandle, i: int) -> Seq<Option<i64>>;

pub uninterp spec fn batch_decimal_i64_col(b: RecordBatchHandle, i: int) -> Seq<Option<i64>>;

pub uninterp spec fn batch_f64_decimal_strs(b: RecordBatchHandle, i: int) -> Seq<Option<Seq<char>>>;

/// Relies on arrow's RecordBatch::num_rows.
#[verifier::external_body]
pub fn batch_num_rows(batch: &RecordBatchHandle) -> (r: usize)
    ensures
        r as nat == batch_rows(*batch),
{
    batch.inner.num_rows()
}

/// Relies on arrow's RecordBatch::num_columns.
#[verifier::external_body]
pub fn batch_num_columns(batch: &RecordBatchHandle) -> (r: usize)
    ensures
        r as nat == batch_width(*batch),
{
    batch.inner.num_columns()
}

/// Relies on arrow's Schema::field: the name of column `i`, if it exists.
#[verifier::external_body]
pub fn batch_field_name(batch: &RecordBatchHandle, i: usize) -> (r: Option<String>)
    ensures
        r is Some <==> (i as nat) < batch_width(*batch),
        r matches Some(n) ==> n@ == batch_field_name_of(*batch, i as int),
{
    if i < batch.inner.num_columns() {
        Some(batch.inner.schema().field(i).name().clone())
    } else {
        None
    }
}

/// Relies on arrow's DataType: the temporal and decimal tags, one arm each;
/// a column of any other type yields None.
#[verifier::external_body]
fn batch_field_tag_temporal(batch: &RecordBatchHandle, i: usize) -> (r: Option<ColumnarType>)
    ensures
        r matches Some(t) ==> (i as nat) < batch_width(*batch) && t == batch_tag_of(
            *batch,
            i as int,
        ) && is_temporal_tag(t),
        (i as nat) < batch_width(*batch) && is_temporal_tag(batch_tag_of(*batch, i as int))
            ==> r == Some(batch_tag_of(*batch, i as int)),
{
    if i >= batch.inner.num_columns() { return None; }
    match batch.inner.schema().field(i).data_type() {
        DataType::Timestamp(TimeUnit::Microsecond, None) => Some(ColumnarType::TimestampMicrosecond),
        DataType::Timestamp(TimeUnit::Nanosecond, None) => Some(ColumnarType::TimestampNanosecond),
        DataType::Timestamp(_, _) => Some(ColumnarType::TimestampOther),
        DataType::Decimal128(_, s) if *s >= 0 => Some(ColumnarType::Int64Decimal { scale: *s as u32 }),
        _ => None,
    }
}

/// Relies on arrow's DataType: the remaining tags, one arm each; anything
/// this engine does not distinguish is tagged as other.
#[verifier::external_body]
fn batch_field_tag_basic(batch: &RecordBatchHandle, i: usize) -> (r: Option<ColumnarType>)
    ensures
        r is Some <==> (i as nat) < batch_width(*batch),
        (i as nat) < batch_width(*batch) && !is_temporal_tag(batch_tag_of(*batch, i as int))
            ==> r == Some(batch_tag_of(*batch, i as int)),
{
    if i >= batch.inner.num_columns() { return None; }
    Some(match batch.inner.schema().field(i).data_type() {
        DataType::Utf8 => ColumnarType::Utf8,
        DataType::LargeUtf8 => ColumnarType::LargeUtf8,
        DataType::Float16 => ColumnarType::Float16,
        DataType::Float32 => ColumnarType::Float32,
        DataType::Float64 => ColumnarType::Float64,
        DataType::Boolean => ColumnarType::Boolean,
        DataType::Int8 | DataType::Int16 | DataType::Int32 | DataType::Int64 => ColumnarType::SignedInt,
        DataType::UInt8 | DataType::UInt16 | DataType::UInt32 | DataType::UInt64 => ColumnarType::UnsignedInt,
        _ => ColumnarType::Other,
    })
}

/// The tag of column `i`'s type: temporal and decimal kinds first, then the
/// rest; `None` exactly when the column does not exist.
pub fn batch_field_tag(batch: &RecordBatchHandle, i: usize) -> (r: Option<ColumnarType>)
    ensures
        r is Some <==> (i as nat) < batch_width(*batch),
        r matches Some(t) ==> t == batch_tag_of(*batch, i as int),
{
    match batch_field_tag_temporal(batch, i) {
        Option::Some(t) => Option::Some(t),
        Option::None => batch_field_tag_basic(batch, i),
    }
}

/// Relies on arrow's Int64Array: the values of column `i`, nulls as None.
#[verifier::external_body]
pub fn int64_column(batch: &RecordBatchHandle, i: usize) -> (r: Option<Vec<Option<i64>>>)
    ensures
        r matches Some(v) ==> v@ == batch_i64_col(*batch, i as int) && v@.len() == batch_rows(*batch),
{
    if i >= batch.inner.num_columns() { return None; }
    let a = batch.inner.column(i).as_any().downcast_ref::<arrow::array::Int64Array>()?;
    Some((0..arrow::array::Array::len(a)).map(|r| if arrow::array::Array::is_null(a, r) { None } else { Some(a.value(r)) }).collect())
}

/// Relies on arrow's UInt64Array: the values of column `i` reinterpreted as
/// signed 64-bit integers, nulls as None.
#[verifier::external_body]
pub fn uint64_column(batch: &RecordBatchHandle, i: usize) -> (r: Option<Vec<Option<i64>>>)
    ensures
        r matches Some(v) ==> v@ == batch_u64_col(*batch, i as int) && v@.len() == batch_rows(*batch),
{
    if i >= batch.inner.num_columns() { return None; }
    let a = batch.inner.column(i).as_any().downcast_ref::<arrow::array::UInt64Array>()?;
    Some((0..arrow::array::Array::len(a)).map(|r| if arrow::array::Array::is_null(a, r) { None } else { Some(a.value(r) as i64) }).collect())
}

/// Relies on arrow's StringArray: the values of column `i`, nulls as None.
#[verifier::external_body]
pub fn utf8_column(batch: &RecordBatchHandle, i: usize) -> (r: Option<Vec<Option<String>>>)
    ensures
        r matches Some(v) ==> opt_str_views(v@) == batch_str_col(*batch, i as int) && v@.len()
            == batch_rows(*batch),
{
    if i >= batch.inner.num_columns() { return None; }
    let a = batch.inner.column(i).as_any().downcast_ref::<arrow::array::StringArray>()?;
    Some((0..arrow::array::Array::len(a)).map(|r| if arrow::array::Array::is_null(a, r) { None } else { Some(a.value(r).to_string()) }).collect())
}

/// Relies on arrow's BooleanArray: the values of column `i`, nulls as None.
#[verifier::external_body]
pub fn bool_column(batch: &RecordBatchHandle, i: usize) -> (r: Option<Vec<Option<bool>>>)
    ensures
        r matches Some(v) ==> v@ == batch_bool_col(*batch, i as int) && v@.len() == batch_rows(*batch),
{
    if i >= batch.inner.num_columns() { return None; }
    let a = batch.inner.column(i).as_any().downcast_ref::<arrow::array::BooleanArray>()?;
    Some((0..arrow::array::Array::len(a)).map(|r| if arrow::array::Array::is_null(a, r) { None } else { Some(a.value(r)) }).collect())
}

/// Relies on arrow's TimestampMicrosecondArray: the values of column `i`.
#[verifier::external_body]
pub fn timestamp_micros_column(batch: &RecordBatchHandle, i: usize) -> (r: Option<
    Vec<Option<i64>>,
>)
    ensures
        r matches Some(v) ==> v@ == batch_ts_micros_col(*batch, i as int) && v@.len()
            == batch_rows(*batch),
{
    if i >= batch.inner.num_columns() { return None; }
    let a = batch.inner.column(i).as_any().downcast_ref::<arrow::array::TimestampMicrosecondArray>()?;
    Some((0..arrow::array::Array::len(a)).map(|r| if arrow::array::Array::is_null(a, r) { None } else { Some(a.value(r)) }).collect())
}

/// Relies on arrow's TimestampNanosecondArray: the values of column `i`.
#[verifier::external_body]
pub fn timestamp_nanos_column(batch: &RecordBatchHandle, i: usize) -> (r: Option<
    Vec<Option<i64>>,
>)
    ensures
        r matches Some(v) ==> v@ == batch_ts_nanos_col(*batch, i as int) && v@.len()
            == batch_rows(*batch),
{
    if i >= batch.inner.num_columns() { return None; }
    let a = batch.inner.column(i).as_any().downcast_ref::<arrow::array::TimestampNanosecondArray>()?;
    Some((0..arrow::array::Array::len(a)).map(|r| if arrow::array::Array::is_null(a, r) { None } else { Some(a.value(r)) }).collect())
}

/// Relies on arrow's Decimal128Array: the backing integers of column `i`,
/// narrowed to 64 bits as the engine stores them; a backing value outside
/// the 64-bit range wraps, as the engine's own storage would.
#[verifier::external_body]
pub fn decimal_int_column(batch: &RecordBatchHandle, i: usize) -> (r: Option<
    Vec<Option<i64>>,
>)
    ensures
        r matches Some(v) ==> v@ == batch_decimal_i64_col(*batch, i as int) && v@.len()
            == batch_rows(*batch),
{
    if i >= batch.inner.num_columns() { return None; }
    let a = batch.inner.column(i).as_any().downcast_ref::<arrow::array::Decimal128Array>()?;
    Some((0..arrow::array::Array::len(a)).map(|r| if arrow::array::Array::is_null(a, r) { None } else { Some(a.value(r) as i64) }).collect())
}

/// Relies on arrow's Float64Array and bigdecimal's lossless conversion from
/// binary floating point: column `i` as each value's exact decimal
/// expansion, rendered in plain notation with all of its fractional digits;
/// nulls as None, a value with no finite expansion as None.
#[verifier::external_body]
pub fn float64_decimal_strings(batch: &RecordBatchHandle, i: usize) -> (r: Option<
    Vec<Option<String>>,
>)
    ensures
        r matches Some(v) ==> opt_str_views(v@) == batch_f64_decimal_strs(*batch, i as int)
            && v@.len() == batch_rows(*batch),
{
    if i >= batch.inner.num_columns() { return None; }
    let a = batch.inner.column(i).as_any().downcast_ref::<arrow::array::Float64Array>()?;
    let mut out = Vec::with_capacity(arrow::array::Array::len(a));
    for r in 0..arrow::array::Array::len(a) {
        if arrow::array::Array::is_null(a, r) {
            out.push(None);
        } else {
            let d = bigdecimal::BigDecimal::try_from(a.value(r)).ok()?;
            let digits = d.fractional_digit_count().max(0) as usize;
            out.push(Some(format!("{:.*}", digits, d)));
        }
    }
    Some(out)
}

} // verus!

use vstd::prelude::*;

verus! {

/// Error surfaced by every fallible operation of this crate.
#[derive(Debug)]
pub struct CubeError {
    pub message: String,
}

impl View for CubeError {
    type V = Seq<char>;

    closed spec fn view(&self) -> Seq<char> {
        self.message@
    }
}

impl CubeError {
    pub fn internal(message: String) -> (r: CubeError)
        ensures
            r@ == message@,
    {
        CubeError { message }
    }
}

/// Row-side summary of a column's type.
#[derive(Clone, Copy, PartialEq, Eq, Structural, Debug)]
pub enum ColumnType {
    String,
    Int,
    Timestamp,
    Decimal { scale: i32, precision: i32 },
    Boolean,
}

/// Mathematical image of a `Column`.
pub struct ColumnV {
    pub name: Seq<char>,
    pub column_type: ColumnType,
    pub column_index: int,
}

/// A named, typed, positioned column of a table or index schema.
#[derive(Debug)]
pub struct Column {
    name: String,
    column_type: ColumnType,
    column_index: usize,
}

impl View for Column {
    type V = ColumnV;

    closed spec fn view(&self) -> ColumnV {
        ColumnV {
            name: self.name@,
            column_type: self.column_type,
            column_index: self.column_index as int,
        }
    }
}

impl Clone for Column {
    fn clone(&self) -> (r: Self)
        ensures
            r == *self,
    {
        Column {
            name: self.name.clone(),
            column_type: self.column_type,
            column_index: self.column_index,
        }
    }
}

impl Column {
    pub fn new(name: String, column_type: ColumnType, column_index: usize) -> (r: Column)
        ensures
            r@ == (ColumnV { name: name@, column_type, column_index: column_index as int }),
    {
        Column { name, column_type, column_index }
    }

    pub fn get_name(&self) -> (r: &String)
        ensures
            r@ == self@.name,
    {
        &self.name
    }

    pub fn get_column_type(&self) -> (r: ColumnType)
        ensures
            r == self@.column_type,
    {
        self.column_type
    }

    pub fn get_index(&self) -> (r: usize)
        ensures
            r as int == self@.column_index,
    {
        self.column_index
    }
}

/// View of a sequence of columns.
pub open spec fn col_views(s: Seq<Column>) -> Seq<ColumnV> {
    s.map_values(|c: Column| c@)
}

/// Nanoseconds since the unix epoch.
#[derive(Clone, Copy, PartialEq, Eq, Structural, Debug)]
pub struct TimestampValue {
    unix_nano: i64,
}

impl TimestampValue {
    pub fn new(unix_nano: i64) -> (r: TimestampValue)
        ensures
            r.spec_nano() == unix_nano,
    {
        TimestampValue { unix_nano }
    }

    pub fn get_time_stamp(&self) -> (r: i64)
        ensures
            r == self.spec_nano(),
    {
        self.unix_nano
    }

    pub closed spec fn spec_nano(&self) -> i64 {
        self.unix_nano
    }
}

/// Mathematical image of a `TableValue`.
pub enum TableValueV {
    Null,
    Int { i: i64 },
    Decimal { digits: Seq<char> },
    Timestamp { nanos: i64 },
    String { chars: Seq<char> },
    Boolean { b: bool },
}

/// One cell of a row-oriented result.
#[derive(Clone, PartialEq, Debug)]
pub enum TableValue {
    Null,
    Int(i64),
    Decimal(String),
    Timestamp(TimestampValue),
    String(String),
    Boolean(bool),
}

impl View for TableValue {
    type V = TableValueV;

    open spec fn view(&self) -> TableValueV {
        match self {
            TableValue::Null => TableValueV::Null,
            TableValue::Int(v) => TableValueV::Int { i: *v },
            TableValue::Decimal(s) => TableValueV::Decimal { digits: s@ },
            TableValue::Timestamp(t) => TableValueV::Timestamp { nanos: t.spec_nano() },
            TableValue::String(s) => TableValueV::String { chars: s@ },
            TableValue::Boolean(v) => TableValueV::Boolean { b: *v },
        }
    }
}

pub open spec fn value_views(s: Seq<TableValue>) -> Seq<TableValueV> {
    s.map_values(|v: TableValue| v@)
}

/// One row of a row-oriented result.
#[derive(Clone, PartialEq, Debug)]
pub struct Row {
    values: Vec<TableValue>,
}

impl View for Row {
    type V = Seq<TableValueV>;

    closed spec fn view(&self) -> Seq<TableValueV> {
        value_views(self.values@)
    }
}

impl Row {
    pub fn new(values: Vec<TableValue>) -> (r: Row)
        ensures
            r@ == value_views(values@),
    {
        Row { values }
    }

    pub fn values(&self) -> (r: &Vec<TableValue>)
        ensures
            value_views(r@) == self@,
    {
        &self.values
    }

    pub fn push_value(&mut self, value: TableValue)
        ensures
            final(self)@ == old(self)@.push(value@),
    {
        proof {
            assert(value_views(self.values@.push(value)) =~= value_views(self.values@).push(
                value@,
            ));
        }
        self.values.push(value);
    }
}

pub open spec fn row_views(s: Seq<Row>) -> Seq<Seq<TableValueV>> {
    s.map_values(|r: Row| r@)
}

/// Mathematical image of a `DataFrame`.
pub struct DataFrameV {
    pub columns: Seq<ColumnV>,
    pub data: Seq<Seq<TableValueV>>,
}

/// A row-oriented query result: column metadata plus rows of tagged values.
#[derive(Debug)]
pub struct DataFrame {
    columns: Vec<Column>,
    data: Vec<Row>,
}

impl View for DataFrame {
    type V = DataFrameV;

    closed spec fn view(&self) -> DataFrameV {
        DataFrameV { columns: col_views(self.columns@), data: row_views(self.data@) }
    }
}

impl DataFrame {
    pub fn new(columns: Vec<Column>, data: Vec<Row>) -> (r: DataFrame)
        ensures
            r@.columns == col_views(columns@),
            r@.data == row_views(data@),
    {
        DataFrame { columns, data }
    }

    pub fn get_columns(&self) -> (r: &Vec<Column>)
        ensures
            col_views(r@) == self@.columns,
    {
        &self.columns
    }

    pub fn get_rows(&self) -> (r: &Vec<Row>)
        ensures
            row_views(r@) == self@.data,
    {
        &self.data
    }
}

} // verus!

//! Input side of the materializer: loosely-typed scalar cells, column
//! definitions, and the row-major table handed in by the caller.

use vstd::prelude::*;

verus! {

/// One loosely-typed scalar value of a table cell: text, boolean, number
/// (kept as its decimal token), or null.
#[derive(Debug, PartialEq, Eq)]
pub enum CellValue {
    Null,
    Bool(bool),
    Str(String),
    Num(String),
}

/// Mathematical model of a [`CellValue`]: the same shape over `Seq<char>`.
pub enum CellModel {
    Null,
    Bool(bool),
    Str(Seq<char>),
    Num(Seq<char>),
}

impl View for CellValue {
    type V = CellModel;

    open spec fn view(&self) -> CellModel {
        match self {
            CellValue::Null => CellModel::Null,
            CellValue::Bool(b) => CellModel::Bool(*b),
            CellValue::Str(s) => CellModel::Str(s@),
            CellValue::Num(s) => CellModel::Num(s@),
        }
    }
}

impl Clone for CellValue {
    fn clone(&self) -> (r: Self)
        ensures
            r@ == self@,
    {
        match self {
            CellValue::Null => CellValue::Null,
            CellValue::Bool(b) => CellValue::Bool(*b),
            CellValue::Str(s) => CellValue::Str(s.clone()),
            CellValue::Num(s) => CellValue::Num(s.clone()),
        }
    }
}

/// The declared type of a column. The first seven are materialized; the
/// remaining ones are recognised but not yet supported by the coercers.
#[derive(Debug, Clone, Copy, PartialEq, Eq, Structural)]
pub enum ColumnType {
    Text,
    Boolean,
    Int,
    Long,
    Real,
    Datetime,
    Timespan,
    Decimal,
    Dynamic,
    Guid,
}

/// One column definition: a name and a declared type.
#[derive(Debug, PartialEq, Eq)]
pub struct Column {
    pub column_name: String,
    pub column_type: ColumnType,
}

/// Model of a [`Column`].
pub struct ColumnModel {
    pub column_name: Seq<char>,
    pub column_type: ColumnType,
}

impl View for Column {
    type V = ColumnModel;

    open spec fn view(&self) -> ColumnModel {
        ColumnModel { column_name: self.column_name@, column_type: self.column_type }
    }
}

/// Model of a cell sequence.
pub open spec fn cells_model(s: Seq<CellValue>) -> Seq<CellModel> {
    s.map_values(|c: CellValue| c@)
}

/// Model of a column-definition sequence.
pub open spec fn columns_model(s: Seq<Column>) -> Seq<ColumnModel> {
    s.map_values(|c: Column| c@)
}

/// Ordered column definitions plus ordered rows of scalar values, one value
/// per column in definition order.
#[derive(Debug, PartialEq, Eq)]
pub struct DataTable {
    pub columns: Vec<Column>,
    pub rows: Vec<Vec<CellValue>>,
}

/// Model of a [`DataTable`].
pub struct TableModel {
    pub columns: Seq<ColumnModel>,
    pub rows: Seq<Seq<CellModel>>,
}

impl TableModel {
    /// The structural invariant the caller owes: every row is exactly as wide
    /// as the column list.
    pub open spec fn rows_wf(self) -> bool {
        forall|i: int|
            0 <= i < self.rows.len() ==> (#[trigger] self.rows[i]).len() == self.columns.len()
    }
}

impl View for DataTable {
    type V = TableModel;

    open spec fn view(&self) -> TableModel {
        TableModel {
            columns: columns_model(self.columns@),
            rows: self.rows@.map_values(|r: Vec<CellValue>| cells_model(r@)),
        }
    }
}

} // verus!

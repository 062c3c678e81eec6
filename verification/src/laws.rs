//! The library-level laws: shape of every successful conversion, round-trip
//! behaviour of the strict coercers, and idempotence of conversion.

use vstd::prelude::*;
use crate::batch::{ArrayModel, BatchModel};
use crate::coerce::{
    bool_cell_value, bool_column_model, int32_cell_value, int32_column_model, int64_cell_value,
    int64_column_model, string_cell_value, string_column_model,
};
use crate::errors::ConvertError;
use crate::ints::{int_token_val, is_int_token};
use crate::models::{CellModel, TableModel};
use crate::table::{
    column_of_rows, convert_column_model, convert_prefix, convert_table_model,
    lemma_column_model_len,
};

verus! {

/// Every successful prefix conversion yields one array per column, each
/// exactly as long as the row list.
pub proof fn lemma_prefix_shape(t: TableModel, j: int)
    requires
        t.rows_wf(),
        0 <= j <= t.columns.len(),
    ensures
        convert_prefix(t, j) matches Ok(pairs) ==> pairs.len() == j && forall|k: int|
            0 <= k < j ==> (#[trigger] pairs[k]).1.len() == t.rows.len(),
    decreases j,
{
    if j > 0 {
        lemma_prefix_shape(t, j - 1);
        if convert_prefix(t, j) is Ok {
            lemma_column_model_len(column_of_rows(t.rows, j - 1), t.columns[j - 1].column_type);
        }
    }
}

/// Conversion never returns a partial result: on success the batch has
/// exactly one schema entry and one array per declared column, every array
/// as long as the row list; otherwise the whole call carries one named
/// error.
pub proof fn lemma_conversion_shape(t: TableModel, r: Result<BatchModel, ConvertError>)
    requires
        t.rows_wf(),
        r == convert_table_model(t),
    ensures
        r matches Ok(b) ==> {
            &&& b.wf()
            &&& b.fields.len() == t.columns.len()
            &&& b.arrays.len() == t.columns.len()
            &&& forall|j: int|
                0 <= j < b.arrays.len() ==> (#[trigger] b.arrays[j]).len() == t.rows.len()
        },
{
    lemma_prefix_shape(t, t.columns.len() as int);
}

/// `c` is a valid text-column encoding of the optional value `v`.
pub open spec fn encodes_text(c: CellModel, v: Option<Seq<char>>) -> bool {
    match v {
        Option::None => c is Null,
        Option::Some(s) => c == CellModel::Str(s),
    }
}

/// Round trip for text columns: a buffer of valid encodings of optional
/// strings converts, without error, to exactly those strings; nulls map to
/// nulls.
pub proof fn lemma_text_round_trip(cells: Seq<CellModel>, vals: Seq<Option<Seq<char>>>)
    requires
        cells.len() == vals.len(),
        forall|i: int| 0 <= i < cells.len() ==> encodes_text(#[trigger] cells[i], vals[i]),
    ensures
        string_column_model(cells) == Result::<ArrayModel, ConvertError>::Ok(
            ArrayModel::Text(vals),
        ),
{
    assert(cells.map_values(|c: CellModel| string_cell_value(c)) =~= vals);
}

/// `c` is a valid boolean-column encoding of the optional value `v`.
pub open spec fn encodes_bool(c: CellModel, v: Option<bool>) -> bool {
    match v {
        Option::None => c is Null,
        Option::Some(b) => c == CellModel::Bool(b),
    }
}

/// Round trip for boolean columns.
pub proof fn lemma_bool_round_trip(cells: Seq<CellModel>, vals: Seq<Option<bool>>)
    requires
        cells.len() == vals.len(),
        forall|i: int| 0 <= i < cells.len() ==> encodes_bool(#[trigger] cells[i], vals[i]),
    ensures
        bool_column_model(cells) == Result::<ArrayModel, ConvertError>::Ok(
            ArrayModel::Boolean(vals),
        ),
{
    assert(cells.map_values(|c: CellModel| bool_cell_value(c)) =~= vals);
}

/// `c` is a numeric token denoting exactly the 32-bit integer `v` (or null).
pub open spec fn encodes_int32(c: CellModel, v: Option<i32>) -> bool {
    match v {
        Option::None => c is Null,
        Option::Some(x) => c matches CellModel::Num(t) && is_int_token(t) && int_token_val(t)
            == x as int,
    }
}

/// Round trip for 32-bit-integer columns: a buffer of valid integer tokens
/// converts, without error, to exactly the integers they denote.
pub proof fn lemma_int32_round_trip(cells: Seq<CellModel>, vals: Seq<Option<i32>>)
    requires
        cells.len() == vals.len(),
        forall|i: int| 0 <= i < cells.len() ==> encodes_int32(#[trigger] cells[i], vals[i]),
    ensures
        int32_column_model(cells) == Result::<ArrayModel, ConvertError>::Ok(
            ArrayModel::Int32(vals),
        ),
{
    assert(cells.map_values(|c: CellModel| int32_cell_value(c)) =~= vals);
}

/// `c` is a numeric token denoting exactly the 64-bit integer `v` (or null).
pub open spec fn encodes_int64(c: CellModel, v: Option<i64>) -> bool {
    match v {
        Option::None => c is Null,
        Option::Some(x) => c matches CellModel::Num(t) && is_int_token(t) && int_token_val(t)
            == x as int,
    }
}

/// Round trip for 64-bit-integer columns.
pub proof fn lemma_int64_round_trip(cells: Seq<CellModel>, vals: Seq<Option<i64>>)
    requires
        cells.len() == vals.len(),
        forall|i: int| 0 <= i < cells.len() ==> encodes_int64(#[trigger] cells[i], vals[i]),
    ensures
        int64_column_model(cells) == Result::<ArrayModel, ConvertError>::Ok(
            ArrayModel::Int64(vals),
        ),
{
    assert(cells.map_values(|c: CellModel| int64_cell_value(c)) =~= vals);
}

/// Conversion is a pure function of the table: converting the same table
/// twice yields structurally equal outcomes.
pub proof fn lemma_conversion_idempotent(
    t: TableModel,
    r1: Result<BatchModel, ConvertError>,
    r2: Result<BatchModel, ConvertError>,
)
    requires
        r1 == convert_table_model(t),
        r2 == convert_table_model(t),
    ensures
        r1 == r2,
{
}

} // verus!

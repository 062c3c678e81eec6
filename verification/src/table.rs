//! The conversion entry points: transpose the row-major table into column
//! buffers, coerce each buffer by its declared type, and assemble the batch.

use vstd::prelude::*;
use crate::batch::{ArrayModel, Batch, BatchModel, Field, FieldModel, PrimitiveType, TypedArray};
use crate::coerce::{
    bool_column_model, convert_array_bool, convert_array_datetime, convert_array_float,
    convert_array_i32, convert_array_i64, convert_array_string, convert_array_timespan,
    datetime_column_model, int32_column_model, int64_column_model, real_column_model,
    string_column_model, timespan_column_model,
};
use crate::errors::ConvertError;
use crate::models::{cells_model, CellModel, CellValue, Column, ColumnModel, ColumnType, DataTable, TableModel};

verus! {

/// The concrete primitive type that materializes each supported declared
/// type (unsupported declared types never reach a schema entry).
pub open spec fn primitive_of(ct: ColumnType) -> PrimitiveType {
    match ct {
        ColumnType::Text => PrimitiveType::Utf8,
        ColumnType::Boolean => PrimitiveType::Boolean,
        ColumnType::Int => PrimitiveType::Int32,
        ColumnType::Long => PrimitiveType::Int64,
        ColumnType::Real => PrimitiveType::Float64,
        ColumnType::Datetime => PrimitiveType::TimestampNanos,
        ColumnType::Timespan => PrimitiveType::DurationNanos,
        // the unsupported declared types never reach a schema entry; the
        // descriptor chosen here is immaterial
        ColumnType::Decimal => PrimitiveType::Utf8,
        ColumnType::Dynamic => PrimitiveType::Utf8,
        ColumnType::Guid => PrimitiveType::Utf8,
    }
}

/// What one column buffer coerces to under its declared type.
pub open spec fn column_model(cells: Seq<CellModel>, ct: ColumnType) -> Result<
    ArrayModel,
    ConvertError,
> {
    match ct {
        ColumnType::Text => string_column_model(cells),
        ColumnType::Boolean => bool_column_model(cells),
        ColumnType::Int => int32_column_model(cells),
        ColumnType::Long => int64_column_model(cells),
        ColumnType::Real => real_column_model(cells),
        ColumnType::Datetime => datetime_column_model(cells),
        ColumnType::Timespan => timespan_column_model(cells),
        ColumnType::Decimal => Result::Err(ConvertError::NotImplemented),
        ColumnType::Dynamic => Result::Err(ConvertError::NotImplemented),
        ColumnType::Guid => Result::Err(ConvertError::NotImplemented),
    }
}

/// A coerced column keeps its buffer's length.
pub proof fn lemma_column_model_len(cells: Seq<CellModel>, ct: ColumnType)
    ensures
        column_model(cells, ct) matches Ok(a) ==> a.len() == cells.len(),
{
}

/// Model of [`convert_column`]'s outcome.
pub open spec fn pair_res_model(r: Result<(Field, TypedArray), ConvertError>) -> Result<
    (FieldModel, ArrayModel),
    ConvertError,
> {
    match r {
        Result::Ok(p) => Result::Ok((p.0@, p.1@)),
        Result::Err(e) => Result::Err(e),
    }
}

/// What one column converts to: its schema entry plus its typed array, or
/// the error of its coercer.
pub open spec fn convert_column_model(cells: Seq<CellModel>, col: ColumnModel) -> Result<
    (FieldModel, ArrayModel),
    ConvertError,
> {
    match column_model(cells, col.column_type) {
        Result::Ok(a) => Result::Ok(
            (
                FieldModel { name: col.column_name, data_type: primitive_of(col.column_type) },
                a,
            ),
        ),
        Result::Err(e) => Result::Err(e),
    }
}

/// Converts one column buffer by its declared type into a schema entry and
/// a typed array; fails strictly on wrongly-typed cells and on declared
/// types that are not yet supported.
pub fn convert_column(data: Vec<CellValue>, column: &Column) -> (r: Result<
    (Field, TypedArray),
    ConvertError,
>)
    ensures
        pair_res_model(r) == convert_column_model(cells_model(data@), column@),
{
    let dt: PrimitiveType;
    let res: Result<TypedArray, ConvertError>;
    match column.column_type {
        ColumnType::Text => {
            dt = PrimitiveType::Utf8;
            res = convert_array_string(data);
        },
        ColumnType::Boolean => {
            dt = PrimitiveType::Boolean;
            res = convert_array_bool(data);
        },
        ColumnType::Int => {
            dt = PrimitiveType::Int32;
            res = convert_array_i32(data);
        },
        ColumnType::Long => {
            dt = PrimitiveType::Int64;
            res = convert_array_i64(data);
        },
        ColumnType::Real => {
            dt = PrimitiveType::Float64;
            res = convert_array_float(data);
        },
        ColumnType::Datetime => {
            dt = PrimitiveType::TimestampNanos;
            res = convert_array_datetime(data);
        },
        ColumnType::Timespan => {
            dt = PrimitiveType::DurationNanos;
            res = convert_array_timespan(data);
        },
        ColumnType::Decimal => {
            return Err(ConvertError::NotImplemented);
        },
        ColumnType::Dynamic => {
            return Err(ConvertError::NotImplemented);
        },
        ColumnType::Guid => {
            return Err(ConvertError::NotImplemented);
        },
    }
    match res {
        Ok(a) => Ok((Field { name: column.column_name.clone(), data_type: dt }, a)),
        Err(e) => Err(e),
    }
}

/// The buffer of column `j`: the `j`-th value of every row, in row order.
pub open spec fn column_of_rows(rows: Seq<Seq<CellModel>>, j: int) -> Seq<CellModel> {
    Seq::new(rows.len(), |i: int| rows[i][j])
}

/// What converting the first `j` columns yields: their schema-entry/array
/// pairs in order, or the first column error.
pub open spec fn convert_prefix(t: TableModel, j: int) -> Result<
    Seq<(FieldModel, ArrayModel)>,
    ConvertError,
>
    decreases j,
{
    if j <= 0 {
        Result::Ok(Seq::empty())
    } else {
        match convert_prefix(t, j - 1) {
            Result::Ok(pairs) => match convert_column_model(
                column_of_rows(t.rows, j - 1),
                t.columns[j - 1],
            ) {
                Result::Ok(p) => Result::Ok(pairs.push(p)),
                Result::Err(e) => Result::Err(e),
            },
            Result::Err(e) => Result::Err(e),
        }
    }
}

/// A column error is final: every longer prefix keeps it.
pub proof fn lemma_prefix_error(t: TableModel, j: int, k: int)
    requires
        0 <= j <= k,
        convert_prefix(t, j) is Err,
    ensures
        convert_prefix(t, k) == convert_prefix(t, j),
    decreases k - j,
{
    if j < k {
        lemma_prefix_error(t, j, k - 1);
    }
}

/// What a whole table converts to.
pub open spec fn convert_table_model(t: TableModel) -> Result<BatchModel, ConvertError> {
    match convert_prefix(t, t.columns.len() as int) {
        Result::Ok(pairs) => Result::Ok(
            BatchModel {
                fields: pairs.map_values(|p: (FieldModel, ArrayModel)| p.0),
                arrays: pairs.map_values(|p: (FieldModel, ArrayModel)| p.1),
            },
        ),
        Result::Err(e) => Result::Err(e),
    }
}

/// Model of [`convert_table`]'s outcome.
pub open spec fn batch_res_model(r: Result<Batch, ConvertError>) -> Result<
    BatchModel,
    ConvertError,
> {
    match r {
        Result::Ok(b) => Result::Ok(b@),
        Result::Err(e) => Result::Err(e),
    }
}

/// Converts a whole table: transposes the rows into column buffers, coerces
/// each buffer by its column's declared type, and assembles the batch. The
/// caller owes the structural invariant that every row is exactly as wide as
/// the column list; on any coercion error the whole call fails and no
/// partial batch is returned.
pub fn convert_table(table: DataTable) -> (r: Result<Batch, ConvertError>)
    requires
        table@.rows_wf(),
    ensures
        batch_res_model(r) == convert_table_model(table@),
        r matches Ok(b) ==> b@.fields.len() == table@.columns.len() && b@.arrays.len()
            == table@.columns.len() && forall|j: int|
            0 <= j < b@.arrays.len() ==> (#[trigger] b@.arrays[j]).len() == table@.rows.len(),
{
    let ghost t = table@;
    let c = table.columns.len();
    let rn = table.rows.len();
    let mut fields: Vec<Field> = Vec::new();
    let mut arrays: Vec<TypedArray> = Vec::new();
    let mut j: usize = 0;
    proof {
        assert(t.columns.len() == c);
        assert(t.rows.len() == rn);
        assert(Seq::new(0nat, |k: int| (fields@[k]@, arrays@[k]@)) =~= Seq::empty());
    }
    while j < c
        invariant
            0 <= j <= c,
            c == t.columns.len(),
            rn == t.rows.len(),
            t == table@,
            t.rows_wf(),
            c == table.columns@.len(),
            rn == table.rows@.len(),
            fields@.len() == j,
            arrays@.len() == j,
            convert_prefix(t, j as int) == Result::<
                Seq<(FieldModel, ArrayModel)>,
                ConvertError,
            >::Ok(Seq::new(j as nat, |k: int| (fields@[k]@, arrays@[k]@))),
            forall|k: int| 0 <= k < j ==> (#[trigger] arrays@[k])@.len() == rn,
        decreases c - j,
    {
        // gather the j-th value of every row into one column buffer
        let mut buf: Vec<CellValue> = Vec::new();
        let mut i: usize = 0;
        while i < rn
            invariant
                0 <= i <= rn,
                0 <= j < c,
                t == table@,
                t.rows_wf(),
                c == t.columns.len(),
                rn == t.rows.len(),
                c == table.columns@.len(),
                rn == table.rows@.len(),
                buf@.len() == i,
                forall|k: int| 0 <= k < i ==> (#[trigger] buf@[k])@ == t.rows[k][j as int],
            decreases rn - i,
        {
            proof {
                assert(t.rows[i as int] == cells_model(table.rows@[i as int]@));
                assert(t.rows[i as int].len() == c);
            }
            let cell = table.rows[i][j].clone();
            buf.push(cell);
            i = i + 1;
        }
        let ghost colcells = cells_model(buf@);
        proof {
            assert(colcells =~= column_of_rows(t.rows, j as int));
            assert(t.columns[j as int] == table.columns@[j as int]@);
        }
        match convert_column(buf, &table.columns[j]) {
            Ok(pair) => {
                let (f, a) = pair;
                proof {
                    lemma_column_model_len(
                        column_of_rows(t.rows, j as int),
                        t.columns[j as int].column_type,
                    );
                    assert(a@.len() == rn);
                }
                let ghost prev_fields = fields@;
                let ghost prev_arrays = arrays@;
                fields.push(f);
                arrays.push(a);
                proof {
                    let prev = Seq::new(j as nat, |k: int| (prev_fields[k]@, prev_arrays[k]@));
                    let next = Seq::new((j + 1) as nat, |k: int| (fields@[k]@, arrays@[k]@));
                    assert(next =~= prev.push((f@, a@)));
                    assert(convert_prefix(t, j + 1 as int) == Result::<
                        Seq<(FieldModel, ArrayModel)>,
                        ConvertError,
                    >::Ok(next));
                }
                j = j + 1;
            },
            Err(e) => {
                proof {
                    assert(convert_prefix(t, j + 1 as int) == Result::<
                        Seq<(FieldModel, ArrayModel)>,
                        ConvertError,
                    >::Err(e));
                    lemma_prefix_error(t, j + 1 as int, c as int);
                }
                return Err(e);
            },
        }
    }
    let ghost pairs = Seq::new(c as nat, |k: int| (fields@[k]@, arrays@[k]@));
    proof {
        assert(pairs.map_values(|p: (FieldModel, ArrayModel)| p.0) =~= fields@.map_values(
            |f: Field| f@,
        ));
        assert(pairs.map_values(|p: (FieldModel, ArrayModel)| p.1) =~= arrays@.map_values(
            |a: TypedArray| a@,
        ));
        let arrays_m = arrays@.map_values(|a: TypedArray| a@);
        assert(forall|k: int| 0 <= k < c ==> arrays_m[k] == (#[trigger] arrays@[k])@);
    }
    match Batch::try_new(fields, arrays) {
        Ok(b) => Ok(b),
        Err(_) => vstd::pervasive::unreached(),
    }
}

} // verus!

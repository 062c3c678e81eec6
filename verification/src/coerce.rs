//! The per-type coercers: each one turns a column buffer of loosely-typed
//! cells into one typed array, strictly (whole-call error on a wrongly-typed
//! cell) or leniently (unparseable text becomes null), as the declared type
//! demands.

use vstd::prelude::*;
use crate::batch::{opt_real_model, opt_text_model, ArrayModel, RealCell, RealModel, TypedArray};
use crate::datetime::{datetime_cell_value, parse_datetime};
use crate::errors::ConvertError;
use crate::ints::{int_token_val, is_int_token, parse_int32_token, parse_int_token};
use crate::models::{cells_model, CellModel, CellValue};
use crate::timespan::{parse_timespan, timespan_cell_value};

verus! {

/// Model of a coercer's outcome.
pub open spec fn res_model(r: Result<TypedArray, ConvertError>) -> Result<
    ArrayModel,
    ConvertError,
> {
    match r {
        Result::Ok(a) => Result::Ok(a@),
        Result::Err(e) => Result::Err(e),
    }
}

// ---- text ----
/// A cell a text column accepts.
pub open spec fn string_cell_ok(c: CellModel) -> bool {
    c is Null || c is Str
}

pub open spec fn string_cell_value(c: CellModel) -> Option<Seq<char>> {
    match c {
        CellModel::Str(s) => Option::Some(s),
        _ => Option::None,
    }
}

pub open spec fn string_column_model(cells: Seq<CellModel>) -> Result<ArrayModel, ConvertError> {
    if forall|i: int| 0 <= i < cells.len() ==> string_cell_ok(#[trigger] cells[i]) {
        Result::Ok(ArrayModel::Text(cells.map_values(|c: CellModel| string_cell_value(c))))
    } else {
        Result::Err(ConvertError::Deserialize)
    }
}

/// Strict text coercion: text passes through, null stays null, anything else
/// aborts the conversion.
pub fn convert_array_string(values: Vec<CellValue>) -> (r: Result<TypedArray, ConvertError>)
    ensures
        res_model(r) == string_column_model(cells_model(values@)),
{
    let ghost cm = cells_model(values@);
    let mut out: Vec<Option<String>> = Vec::new();
    let mut i: usize = 0;
    while i < values.len()
        invariant
            0 <= i <= values@.len(),
            cm == cells_model(values@),
            cm.len() == values@.len(),
            forall|k: int| 0 <= k < values@.len() ==> cm[k] == (#[trigger] values@[k])@,
            forall|k: int| 0 <= k < i ==> string_cell_ok(#[trigger] cm[k]),
            out@.len() == i,
            forall|k: int|
                0 <= k < i ==> opt_text_model(#[trigger] out@[k]) == string_cell_value(cm[k]),
        decreases values@.len() - i,
    {
        match &values[i] {
            CellValue::Null => out.push(None),
            CellValue::Str(s) => out.push(Some(s.clone())),
            _ => {
                proof {
                    assert(!string_cell_ok(cm[i as int]));
                }
                return Err(ConvertError::Deserialize);
            },
        }
        i = i + 1;
    }
    proof {
        assert(out@.map_values(|o: Option<String>| opt_text_model(o)) =~= cm.map_values(
            |c: CellModel| string_cell_value(c),
        ));
    }
    Ok(TypedArray::Text(out))
}

// ---- boolean ----
pub open spec fn bool_cell_ok(c: CellModel) -> bool {
    c is Null || c is Bool
}

pub open spec fn bool_cell_value(c: CellModel) -> Option<bool> {
    match c {
        CellModel::Bool(b) => Option::Some(b),
        _ => Option::None,
    }
}

pub open spec fn bool_column_model(cells: Seq<CellModel>) -> Result<ArrayModel, ConvertError> {
    if forall|i: int| 0 <= i < cells.len() ==> bool_cell_ok(#[trigger] cells[i]) {
        Result::Ok(ArrayModel::Boolean(cells.map_values(|c: CellModel| bool_cell_value(c))))
    } else {
        Result::Err(ConvertError::Deserialize)
    }
}

/// Strict boolean coercion.
pub fn convert_array_bool(values: Vec<CellValue>) -> (r: Result<TypedArray, ConvertError>)
    ensures
        res_model(r) == bool_column_model(cells_model(values@)),
{
    let ghost cm = cells_model(values@);
    let mut out: Vec<Option<bool>> = Vec::new();
    let mut i: usize = 0;
    while i < values.len()
        invariant
            0 <= i <= values@.len(),
            cm == cells_model(values@),
            cm.len() == values@.len(),
            forall|k: int| 0 <= k < values@.len() ==> cm[k] == (#[trigger] values@[k])@,
            forall|k: int| 0 <= k < i ==> bool_cell_ok(#[trigger] cm[k]),
            out@.len() == i,
            forall|k: int| 0 <= k < i ==> #[trigger] out@[k] == bool_cell_value(cm[k]),
        decreases values@.len() - i,
    {
        match &values[i] {
            CellValue::Null => out.push(None),
            CellValue::Bool(b) => out.push(Some(*b)),
            _ => {
                proof {
                    assert(!bool_cell_ok(cm[i as int]));
                }
                return Err(ConvertError::Deserialize);
            },
        }
        i = i + 1;
    }
    proof {
        assert(out@ =~= cm.map_values(|c: CellModel| bool_cell_value(c)));
    }
    Ok(TypedArray::Boolean(out))
}

// ---- 32-bit integer ----
pub open spec fn int32_cell_ok(c: CellModel) -> bool {
    match c {
        CellModel::Null => true,
        CellModel::Num(t) => is_int_token(t) && i32::MIN <= int_token_val(t) <= i32::MAX,
        _ => false,
    }
}

pub open spec fn int32_cell_value(c: CellModel) -> Option<i32> {
    match c {
        CellModel::Num(t) => Option::Some(int_token_val(t) as i32),
        _ => Option::None,
    }
}

pub open spec fn int32_column_model(cells: Seq<CellModel>) -> Result<ArrayModel, ConvertError> {
    if forall|i: int| 0 <= i < cells.len() ==> int32_cell_ok(#[trigger] cells[i]) {
        Result::Ok(ArrayModel::Int32(cells.map_values(|c: CellModel| int32_cell_value(c))))
    } else {
        Result::Err(ConvertError::Deserialize)
    }
}

/// Strict 32-bit-integer coercion: every non-null cell must be a numeric
/// token denoting an integer in `i32` range.
pub fn convert_array_i32(values: Vec<CellValue>) -> (r: Result<TypedArray, ConvertError>)
    ensures
        res_model(r) == int32_column_model(cells_model(values@)),
{
    let ghost cm = cells_model(values@);
    let mut out: Vec<Option<i32>> = Vec::new();
    let mut i: usize = 0;
    while i < values.len()
        invariant
            0 <= i <= values@.len(),
            cm == cells_model(values@),
            cm.len() == values@.len(),
            forall|k: int| 0 <= k < values@.len() ==> cm[k] == (#[trigger] values@[k])@,
            forall|k: int| 0 <= k < i ==> int32_cell_ok(#[trigger] cm[k]),
            out@.len() == i,
            forall|k: int| 0 <= k < i ==> #[trigger] out@[k] == int32_cell_value(cm[k]),
        decreases values@.len() - i,
    {
        match &values[i] {
            CellValue::Null => out.push(None),
            CellValue::Num(t) => {
                match parse_int32_token(t.as_str()) {
                    Some(v) => out.push(Some(v)),
                    None => {
                        proof {
                            assert(!int32_cell_ok(cm[i as int]));
                        }
                        return Err(ConvertError::Deserialize);
                    },
                }
            },
            _ => {
                proof {
                    assert(!int32_cell_ok(cm[i as int]));
                }
                return Err(ConvertError::Deserialize);
            },
        }
        i = i + 1;
    }
    proof {
        assert(out@ =~= cm.map_values(|c: CellModel| int32_cell_value(c)));
    }
    Ok(TypedArray::Int32(out))
}

// ---- 64-bit integer ----
pub open spec fn int64_cell_ok(c: CellModel) -> bool {
    match c {
        CellModel::Null => true,
        CellModel::Num(t) => is_int_token(t) && i64::MIN <= int_token_val(t) <= i64::MAX,
        _ => false,
    }
}

pub open spec fn int64_cell_value(c: CellModel) -> Option<i64> {
    match c {
        CellModel::Num(t) => Option::Some(int_token_val(t) as i64),
        _ => Option::None,
    }
}

pub open spec fn int64_column_model(cells: Seq<CellModel>) -> Result<ArrayModel, ConvertError> {
    if forall|i: int| 0 <= i < cells.len() ==> int64_cell_ok(#[trigger] cells[i]) {
        Result::Ok(ArrayModel::Int64(cells.map_values(|c: CellModel| int64_cell_value(c))))
    } else {
        Result::Err(ConvertError::Deserialize)
    }
}

/// Strict 64-bit-integer coercion.
pub fn convert_array_i64(values: Vec<CellValue>) -> (r: Result<TypedArray, ConvertError>)
    ensures
        res_model(r) == int64_column_model(cells_model(values@)),
{
    let ghost cm = cells_model(values@);
    let mut out: Vec<Option<i64>> = Vec::new();
    let mut i: usize = 0;
    while i < values.len()
        invariant
            0 <= i <= values@.len(),
            cm == cells_model(values@),
            cm.len() == values@.len(),
            forall|k: int| 0 <= k < values@.len() ==> cm[k] == (#[trigger] values@[k])@,
            forall|k: int| 0 <= k < i ==> int64_cell_ok(#[trigger] cm[k]),
            out@.len() == i,
            forall|k: int| 0 <= k < i ==> #[trigger] out@[k] == int64_cell_value(cm[k]),
        decreases values@.len() - i,
    {
        match &values[i] {
            CellValue::Null => out.push(None),
            CellValue::Num(t) => {
                match parse_int_token(t.as_str()) {
                    Some(v) => out.push(Some(v)),
                    None => {
                        proof {
                            assert(!int64_cell_ok(cm[i as int]));
                        }
                        return Err(ConvertError::Deserialize);
                    },
                }
            },
            _ => {
                proof {
                    assert(!int64_cell_ok(cm[i as int]));
                }
                return Err(ConvertError::Deserialize);
            },
        }
        i = i + 1;
    }
    proof {
        assert(out@ =~= cm.map_values(|c: CellModel| int64_cell_value(c)));
    }
    Ok(TypedArray::Int64(out))
}

// ---- 64-bit float ----
/// The sentinel spellings a float column accepts in a text cell.
pub open spec fn nan_token() -> Seq<char> {
    seq!['N', 'a', 'N']
}

pub open spec fn pos_inf_token() -> Seq<char> {
    seq!['I', 'n', 'f', 'i', 'n', 'i', 't', 'y']
}

pub open spec fn neg_inf_token() -> Seq<char> {
    seq!['-', 'I', 'n', 'f', 'i', 'n', 'i', 't', 'y']
}

pub open spec fn real_cell_ok(c: CellModel) -> bool {
    match c {
        CellModel::Null => true,
        CellModel::Num(_) => true,
        CellModel::Str(s) => s == nan_token() || s == pos_inf_token() || s == neg_inf_token(),
        _ => false,
    }
}

/// The `NaN` sentinel becomes null by design: not-a-number is represented as
/// absence.
pub open spec fn real_cell_value(c: CellModel) -> Option<RealModel> {
    match c {
        CellModel::Num(t) => Option::Some(RealModel::Number(t)),
        CellModel::Str(s) => if s == nan_token() {
            Option::None
        } else if s == pos_inf_token() {
            Option::Some(RealModel::PosInfinity)
        } else {
            Option::Some(RealModel::NegInfinity)
        },
        _ => Option::None,
    }
}

pub open spec fn real_column_model(cells: Seq<CellModel>) -> Result<ArrayModel, ConvertError> {
    if forall|i: int| 0 <= i < cells.len() ==> real_cell_ok(#[trigger] cells[i]) {
        Result::Ok(ArrayModel::Real64(cells.map_values(|c: CellModel| real_cell_value(c))))
    } else {
        Result::Err(ConvertError::Deserialize)
    }
}

/// Maps one float-column cell: the `NaN` sentinel to null, the two infinity
/// sentinels to the signed infinities, a numeric token through unchanged, a
/// null through as null; any other value is a strict error.
pub fn safe_map_real(value: &CellValue) -> (r: Result<Option<RealCell>, ConvertError>)
    ensures
        r is Ok <==> real_cell_ok(value@),
        r matches Ok(o) ==> opt_real_model(o) == real_cell_value(value@),
        r matches Err(e) ==> e == ConvertError::Deserialize,
{
    let nan: String = "NaN".to_owned();
    let pos_inf: String = "Infinity".to_owned();
    let neg_inf: String = "-Infinity".to_owned();
    proof {
        reveal_strlit("NaN");
        reveal_strlit("Infinity");
        reveal_strlit("-Infinity");
        assert(nan@ =~= nan_token());
        assert(pos_inf@ =~= pos_inf_token());
        assert(neg_inf@ =~= neg_inf_token());
    }
    match value {
        CellValue::Null => Ok(None),
        CellValue::Num(t) => Ok(Some(RealCell::Number(t.clone()))),
        CellValue::Str(s) => {
            if *s == nan {
                Ok(None)
            } else if *s == pos_inf {
                Ok(Some(RealCell::PosInfinity))
            } else if *s == neg_inf {
                Ok(Some(RealCell::NegInfinity))
            } else {
                Err(ConvertError::Deserialize)
            }
        },
        CellValue::Bool(_) => Err(ConvertError::Deserialize),
    }
}

/// Float coercion: numbers pass through as tokens, the three sentinel
/// strings map to null and the two infinities, anything else aborts.
pub fn convert_array_float(values: Vec<CellValue>) -> (r: Result<TypedArray, ConvertError>)
    ensures
        res_model(r) == real_column_model(cells_model(values@)),
{
    let ghost cm = cells_model(values@);
    let mut out: Vec<Option<RealCell>> = Vec::new();
    let mut i: usize = 0;
    while i < values.len()
        invariant
            0 <= i <= values@.len(),
            cm == cells_model(values@),
            cm.len() == values@.len(),
            forall|k: int| 0 <= k < values@.len() ==> cm[k] == (#[trigger] values@[k])@,
            forall|k: int| 0 <= k < i ==> real_cell_ok(#[trigger] cm[k]),
            out@.len() == i,
            forall|k: int|
                0 <= k < i ==> opt_real_model(#[trigger] out@[k]) == real_cell_value(cm[k]),
        decreases values@.len() - i,
    {
        match safe_map_real(&values[i]) {
            Ok(o) => out.push(o),
            Err(e) => {
                proof {
                    assert(!real_cell_ok(cm[i as int]));
                }
                return Err(e);
            },
        }
        i = i + 1;
    }
    proof {
        assert(out@.map_values(|o: Option<RealCell>| opt_real_model(o)) =~= cm.map_values(
            |c: CellModel| real_cell_value(c),
        ));
    }
    Ok(TypedArray::Real64(out))
}

// ---- datetime ----
/// A datetime column accepts text cells only; a null cell is a strict error,
/// while unparseable text becomes a null element.
pub open spec fn datetime_cell_ok(c: CellModel) -> bool {
    c is Str
}

pub open spec fn datetime_value(c: CellModel) -> Option<i64> {
    match c {
        CellModel::Str(s) => datetime_cell_value(s),
        _ => Option::None,
    }
}

pub open spec fn datetime_column_model(cells: Seq<CellModel>) -> Result<ArrayModel, ConvertError> {
    if forall|i: int| 0 <= i < cells.len() ==> datetime_cell_ok(#[trigger] cells[i]) {
        Result::Ok(
            ArrayModel::TimestampNanos(cells.map_values(|c: CellModel| datetime_value(c))),
        )
    } else {
        Result::Err(ConvertError::Deserialize)
    }
}

/// Lenient datetime coercion over a strictly-text column buffer.
pub fn convert_array_datetime(values: Vec<CellValue>) -> (r: Result<TypedArray, ConvertError>)
    ensures
        res_model(r) == datetime_column_model(cells_model(values@)),
{
    let ghost cm = cells_model(values@);
    let mut out: Vec<Option<i64>> = Vec::new();
    let mut i: usize = 0;
    while i < values.len()
        invariant
            0 <= i <= values@.len(),
            cm == cells_model(values@),
            cm.len() == values@.len(),
            forall|k: int| 0 <= k < values@.len() ==> cm[k] == (#[trigger] values@[k])@,
            forall|k: int| 0 <= k < i ==> datetime_cell_ok(#[trigger] cm[k]),
            out@.len() == i,
            forall|k: int| 0 <= k < i ==> #[trigger] out@[k] == datetime_value(cm[k]),
        decreases values@.len() - i,
    {
        match &values[i] {
            CellValue::Str(s) => out.push(parse_datetime(s.as_str())),
            _ => {
                proof {
                    assert(!datetime_cell_ok(cm[i as int]));
                }
                return Err(ConvertError::Deserialize);
            },
        }
        i = i + 1;
    }
    proof {
        assert(out@ =~= cm.map_values(|c: CellModel| datetime_value(c)));
    }
    Ok(TypedArray::TimestampNanos(out))
}

// ---- timespan ----
/// A timespan column accepts text cells only, like the datetime column.
pub open spec fn timespan_cell_ok(c: CellModel) -> bool {
    c is Str
}

pub open spec fn timespan_value(c: CellModel) -> Option<i64> {
    match c {
        CellModel::Str(s) => timespan_cell_value(s),
        _ => Option::None,
    }
}

pub open spec fn timespan_column_model(cells: Seq<CellModel>) -> Result<ArrayModel, ConvertError> {
    if forall|i: int| 0 <= i < cells.len() ==> timespan_cell_ok(#[trigger] cells[i]) {
        Result::Ok(ArrayModel::DurationNanos(cells.map_values(|c: CellModel| timespan_value(c))))
    } else {
        Result::Err(ConvertError::Deserialize)
    }
}

/// Lenient timespan coercion over a strictly-text column buffer.
pub fn convert_array_timespan(values: Vec<CellValue>) -> (r: Result<TypedArray, ConvertError>)
    ensures
        res_model(r) == timespan_column_model(cells_model(values@)),
{
    let ghost cm = cells_model(values@);
    let mut out: Vec<Option<i64>> = Vec::new();
    let mut i: usize = 0;
    while i < values.len()
        invariant
            0 <= i <= values@.len(),
            cm == cells_model(values@),
            cm.len() == values@.len(),
            forall|k: int| 0 <= k < values@.len() ==> cm[k] == (#[trigger] values@[k])@,
            forall|k: int| 0 <= k < i ==> timespan_cell_ok(#[trigger] cm[k]),
            out@.len() == i,
            forall|k: int| 0 <= k < i ==> #[trigger] out@[k] == timespan_value(cm[k]),
        decreases values@.len() - i,
    {
        match &values[i] {
            CellValue::Str(s) => out.push(parse_timespan(s.as_str())),
            _ => {
                proof {
                    assert(!timespan_cell_ok(cm[i as int]));
                }
                return Err(ConvertError::Deserialize);
            },
        }
        i = i + 1;
    }
    proof {
        assert(out@ =~= cm.map_values(|c: CellModel| timespan_value(c)));
    }
    Ok(TypedArray::DurationNanos(out))
}

} // verus!

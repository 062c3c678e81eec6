//! Output side of the materializer: typed nullable arrays, schema entries,
//! and the batch that pairs them.

use vstd::prelude::*;
use crate::errors::ConvertError;

verus! {

/// One element of a 64-bit-float column. The numeric token is carried as
/// text (its IEEE value is materialized outside the verified core); the two
/// infinities, which arrive as sentinel strings, are explicit. A `NaN`
/// sentinel never appears here: it is lowered to null.
#[derive(Debug, PartialEq, Eq)]
pub enum RealCell {
    PosInfinity,
    NegInfinity,
    Number(String),
}

/// Model of a [`RealCell`].
pub enum RealModel {
    PosInfinity,
    NegInfinity,
    Number(Seq<char>),
}

impl View for RealCell {
    type V = RealModel;

    open spec fn view(&self) -> RealModel {
        match self {
            RealCell::PosInfinity => RealModel::PosInfinity,
            RealCell::NegInfinity => RealModel::NegInfinity,
            RealCell::Number(s) => RealModel::Number(s@),
        }
    }
}

/// The concrete primitive type of one typed array: the batch's type
/// descriptor for that column.
#[derive(Debug, Clone, Copy, PartialEq, Eq, Structural)]
pub enum PrimitiveType {
    Utf8,
    Boolean,
    Int32,
    Int64,
    Float64,
    TimestampNanos,
    DurationNanos,
}

/// One materialized column: a length-N sequence of optionally-null values of
/// one concrete primitive type.
#[derive(Debug, PartialEq, Eq)]
pub enum TypedArray {
    Text(Vec<Option<String>>),
    Boolean(Vec<Option<bool>>),
    Int32(Vec<Option<i32>>),
    Int64(Vec<Option<i64>>),
    Real64(Vec<Option<RealCell>>),
    TimestampNanos(Vec<Option<i64>>),
    DurationNanos(Vec<Option<i64>>),
}

/// Model of a [`TypedArray`].
pub enum ArrayModel {
    Text(Seq<Option<Seq<char>>>),
    Boolean(Seq<Option<bool>>),
    Int32(Seq<Option<i32>>),
    Int64(Seq<Option<i64>>),
    Real64(Seq<Option<RealModel>>),
    TimestampNanos(Seq<Option<i64>>),
    DurationNanos(Seq<Option<i64>>),
}

/// Model of one optionally-null text element.
pub open spec fn opt_text_model(o: Option<String>) -> Option<Seq<char>> {
    match o {
        Option::None => Option::None,
        Option::Some(s) => Option::Some(s@),
    }
}

/// Model of one optionally-null real element.
pub open spec fn opt_real_model(o: Option<RealCell>) -> Option<RealModel> {
    match o {
        Option::None => Option::None,
        Option::Some(c) => Option::Some(c@),
    }
}

impl View for TypedArray {
    type V = ArrayModel;

    open spec fn view(&self) -> ArrayModel {
        match self {
            TypedArray::Text(v) => ArrayModel::Text(v@.map_values(|o: Option<String>| opt_text_model(o))),
            TypedArray::Boolean(v) => ArrayModel::Boolean(v@),
            TypedArray::Int32(v) => ArrayModel::Int32(v@),
            TypedArray::Int64(v) => ArrayModel::Int64(v@),
            TypedArray::Real64(v) => ArrayModel::Real64(v@.map_values(|o: Option<RealCell>| opt_real_model(o))),
            TypedArray::TimestampNanos(v) => ArrayModel::TimestampNanos(v@),
            TypedArray::DurationNanos(v) => ArrayModel::DurationNanos(v@),
        }
    }
}

impl ArrayModel {
    /// Number of elements of the array.
    pub open spec fn len(self) -> nat {
        match self {
            ArrayModel::Text(s) => s.len(),
            ArrayModel::Boolean(s) => s.len(),
            ArrayModel::Int32(s) => s.len(),
            ArrayModel::Int64(s) => s.len(),
            ArrayModel::Real64(s) => s.len(),
            ArrayModel::TimestampNanos(s) => s.len(),
            ArrayModel::DurationNanos(s) => s.len(),
        }
    }
}

impl TypedArray {
    /// Number of elements of the array.
    pub fn len(&self) -> (r: usize)
        ensures
            r == self@.len(),
    {
        match self {
            TypedArray::Text(v) => v.len(),
            TypedArray::Boolean(v) => v.len(),
            TypedArray::Int32(v) => v.len(),
            TypedArray::Int64(v) => v.len(),
            TypedArray::Real64(v) => v.len(),
            TypedArray::TimestampNanos(v) => v.len(),
            TypedArray::DurationNanos(v) => v.len(),
        }
    }
}

/// One schema entry: column name plus the concrete primitive type of the
/// paired array.
#[derive(Debug, PartialEq, Eq)]
pub struct Field {
    pub name: String,
    pub data_type: PrimitiveType,
}

/// Model of a [`Field`].
pub struct FieldModel {
    pub name: Seq<char>,
    pub data_type: PrimitiveType,
}

impl View for Field {
    type V = FieldModel;

    open spec fn view(&self) -> FieldModel {
        FieldModel { name: self.name@, data_type: self.data_type }
    }
}

/// Model of a [`Batch`].
pub struct BatchModel {
    pub fields: Seq<FieldModel>,
    pub arrays: Seq<ArrayModel>,
}

impl BatchModel {
    /// Schema and arrays pair up one to one and every array has the same
    /// length.
    pub open spec fn wf(self) -> bool {
        &&& self.fields.len() == self.arrays.len()
        &&& forall|i: int, j: int|
            0 <= i < self.arrays.len() && 0 <= j < self.arrays.len() ==> (
            #[trigger] self.arrays[i]).len() == (#[trigger] self.arrays[j]).len()
    }
}

/// The conversion output: an ordered schema paired 1:1 with ordered typed
/// arrays of identical length.
#[derive(Debug, PartialEq, Eq)]
pub struct Batch {
    pub fields: Vec<Field>,
    pub columns: Vec<TypedArray>,
}

impl View for Batch {
    type V = BatchModel;

    open spec fn view(&self) -> BatchModel {
        BatchModel {
            fields: self.fields@.map_values(|f: Field| f@),
            arrays: self.columns@.map_values(|a: TypedArray| a@),
        }
    }
}

impl Batch {
    /// Builds a batch after checking the equal-length invariant, failing with
    /// a data-conversion error when schema and arrays are inconsistent.
    pub fn try_new(fields: Vec<Field>, columns: Vec<TypedArray>) -> (r: Result<Batch, ConvertError>)
        ensures
            r is Ok <==> (BatchModel {
                fields: fields@.map_values(|f: Field| f@),
                arrays: columns@.map_values(|a: TypedArray| a@),
            }).wf(),
            r matches Ok(b) ==> b@ == (BatchModel {
                fields: fields@.map_values(|f: Field| f@),
                arrays: columns@.map_values(|a: TypedArray| a@),
            }),
            r matches Err(e) ==> e == ConvertError::DataConversion,
    {
        if fields.len() != columns.len() {
            return Err(ConvertError::DataConversion);
        }
        let ghost arrays = columns@.map_values(|a: TypedArray| a@);
        proof {
            assert(forall|k: int| 0 <= k < arrays.len() ==> arrays[k] == (#[trigger] columns@[k])@);
        }
        if columns.len() > 0 {
            let expected = columns[0].len();
            let mut i: usize = 1;
            while i < columns.len()
                invariant
                    1 <= i <= columns.len(),
                    arrays == columns@.map_values(|a: TypedArray| a@),
                    arrays.len() == columns@.len(),
                    forall|k: int| 0 <= k < arrays.len() ==> arrays[k] == (#[trigger] columns@[k])@,
                    expected == arrays[0].len(),
                    forall|k: int| 0 <= k < i ==> (#[trigger] arrays[k]).len() == expected,
                decreases columns.len() - i,
            {
                if columns[i].len() != expected {
                    proof {
                        assert(arrays[i as int].len() != arrays[0].len());
                    }
                    return Err(ConvertError::DataConversion);
                }
                i = i + 1;
            }
        }
        Ok(Batch { fields, columns })
    }

    /// The schema entries, in column order.
    pub fn fields(&self) -> (r: &Vec<Field>)
        ensures
            r@.map_values(|f: Field| f@) == self@.fields,
    {
        &self.fields
    }

    /// The typed arrays, in column order.
    pub fn columns(&self) -> (r: &Vec<TypedArray>)
        ensures
            r@.map_values(|a: TypedArray| a@) == self@.arrays,
    {
        &self.columns
    }

    /// Number of columns.
    pub fn num_columns(&self) -> (r: usize)
        ensures
            r == self@.arrays.len(),
    {
        self.columns.len()
    }
}

} // verus!

//! The conversion errors: each names the stage that failed. No partial
//! batch accompanies any of them.

use vstd::prelude::*;

verus! {

/// Why a whole conversion call was aborted.
#[derive(Debug, Clone, Copy, PartialEq, Eq, Structural)]
pub enum ConvertError {
    /// A strict coercer met a value that cannot be read as the column's
    /// declared primitive type.
    Deserialize,
    /// The column's declared type is not yet supported.
    NotImplemented,
    /// Batch assembly was handed schema and arrays of inconsistent lengths.
    DataConversion,
}

} // verus!

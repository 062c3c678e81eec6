//! Column materializer: turns rows of loosely-typed scalar values, grouped by
//! declared column types, into a columnar batch of typed, nullable arrays.
#![allow(unused_imports)]

use vstd::prelude::*;

pub mod batch;
pub mod chars;
pub mod datetime;
pub mod coerce;
pub mod errors;
pub mod ints;
pub mod laws;
pub mod models;
pub mod table;
pub mod timespan;

pub use crate::table::{convert_column, convert_table};

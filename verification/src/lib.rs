//! A parser and processor of BMS and bmson rhythm game scores.
use vstd::prelude::*;

pub mod bms;
pub mod bmson;
pub mod chart;
pub mod number;
pub mod text;

verus! {
}

//! The pprof profile data model: samples refer to locations by id,
//! locations to functions by id, and functions to the string table by index.

use vstd::prelude::*;

verus! {

/// A decoded profile.
#[derive(Clone, Debug, Default)]
pub struct Profile {
    pub sample_type: Vec<ValueType>,
    pub sample: Vec<Sample>,
    pub mapping: Vec<Mapping>,
    pub location: Vec<Location>,
    pub function: Vec<Function>,
    pub string_table: Vec<String>,
    pub drop_frames: i64,
    pub keep_frames: i64,
    pub time_nanos: i64,
    pub duration_nanos: i64,
    pub period_type: String,
    pub period: i64,
    pub comment: i64,
    pub default_sample_type: i64,
}

/// The type and unit of a sample value, as string-table indices.
#[derive(Clone, Debug, Default)]
pub struct ValueType {
    pub ty: i64,
    pub unit: i64,
}

/// One recorded stack, leaf first, with its values.
#[derive(Clone, Debug, Default)]
pub struct Sample {
    pub location_id: Vec<u64>,
    pub value: Vec<i64>,
    pub label: Vec<i64>,
    pub num_label: Vec<i64>,
    pub num_unit: Vec<i64>,
}

/// A mapped binary region.
#[derive(Clone, Debug, Default)]
pub struct Mapping {
    pub id: u64,
    pub memory_start: u64,
    pub memory_limit: u64,
    pub file_offset: u64,
    pub filename: i64,
    pub build_id: i64,
    pub has_functions: bool,
    pub has_filenames: bool,
    pub has_line_numbers: bool,
    pub has_inline_frames: bool,
}

/// A code address; its lines list the (possibly inlined) functions there,
/// innermost first.
#[derive(Clone, Debug, Default)]
pub struct Location {
    pub id: u64,
    pub mapping_id: u64,
    pub address: u64,
    pub line: Vec<Line>,
    pub is_folded: bool,
}

/// A function at a source line.
#[derive(Clone, Debug, Default)]
pub struct Line {
    pub function_id: u64,
    pub line: i64,
}

/// A function; `name`, `system_name` and `filename` index the string table.
#[derive(Clone, Debug, Default)]
pub struct Function {
    pub id: u64,
    pub name: i64,
    pub system_name: i64,
    pub filename: i64,
    pub start_line: i64,
}

/// The primary value of a sample: its first value, or 0 when it has none.
pub open spec fn sample_value(s: Sample) -> i64 {
    if s.value@.len() > 0 {
        s.value@[0]
    } else {
        0
    }
}

impl Sample {
    /// The primary value of the sample.
    pub fn primary_value(&self) -> (r: i64)
        ensures
            r == sample_value(*self),
    {
        if self.value.len() > 0 {
            self.value[0]
        } else {
            0
        }
    }
}

} // verus!

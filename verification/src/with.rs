//! Scalar format adapters: paired textual encode/decode strategies for one
//! value kind each, pluggable per record field.  Absent optional values are
//! uniformly rendered as the empty string.

pub mod bool_as_int;
pub mod date_time;
pub mod date_time_option;
pub mod duration;
pub mod duration_option;

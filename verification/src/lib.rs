//! Rendering of GEDCOM X date values as Extended Date/Time Format text.
//!
//! The modules build on one another: `decimal` renders numbers, `model`
//! makes the date values known to the verifier, `edtf` renders them,
//! `parse` reads GEDCOM X text and renders what it denotes, and `laws`
//! states what holds of the rendering as a whole.

pub mod decimal;
pub mod model;
pub mod edtf;
pub mod parse;
pub mod laws;

pub use crate::decimal::{fill_double_figure, fill_tz_hours};
pub use crate::edtf::{get_range_datetime, ToEdtf};
pub use crate::parse::{conv, render_outcome};

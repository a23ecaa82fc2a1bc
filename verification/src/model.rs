//! The GEDCOM X date model, as the `gedcomx_date` parser defines it.
//!
//! Every field of these types is public, and the verifier reads each type
//! from the parser crate itself: nothing is claimed of them here.
//!
//! Presence of the optional fields is nested: a day goes with a month, a
//! time zone with minutes, the minutes of a time zone with its hours. The
//! types do not enforce that; a finer field without its coarser one is
//! never rendered.

use vstd::prelude::*;

verus! {

/// A calendar date. A year of zero or below counts back from year 1, so
/// that year 0 is the year before it.
#[verifier::external_type_specification]
pub struct ExDate(gedcomx_date::Date);

/// A time of day, with the offset of its time zone from UTC.
#[verifier::external_type_specification]
pub struct ExTime(gedcomx_date::Time);

/// A date with, possibly, a time.
#[verifier::external_type_specification]
pub struct ExDateTime(gedcomx_date::DateTime);

/// A single point in time, exact or approximate.
#[verifier::external_type_specification]
pub struct ExSimple(gedcomx_date::Simple);

/// A span of time, counted in calendar and clock units.
#[verifier::external_type_specification]
pub struct ExDuration(gedcomx_date::Duration);

/// The far end of a range: a point in time, or a span from its start.
#[verifier::external_type_specification]
pub struct ExDateTimeOrDuration(gedcomx_date::DateTimeOrDuration);

/// A range of time, open at either end where that end is absent. The
/// approximate flag holds of both ends alike.
#[verifier::external_type_specification]
pub struct ExRange(gedcomx_date::Range);

/// A range that recurs.
#[verifier::external_type_specification]
pub struct ExRecurring(gedcomx_date::Recurring);

/// A GEDCOM X date: one of its three kinds.
#[verifier::external_type_specification]
pub struct ExGedcomxDate(gedcomx_date::GedcomxDate);

} // verus!

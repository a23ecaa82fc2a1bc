//! Conversion of GEDCOM X date text to EDTF text, by way of the
//! `gedcomx_date` parser.

use vstd::prelude::*;
use crate::edtf::ToEdtf;
use gedcomx_date::GedcomxDate;

verus! {

/// The date that a text denotes in GEDCOM X, or `None` where the text is
/// no GEDCOM X date. It stands for what the parser makes of the text;
/// nothing is said here of the grammar.
pub uninterp spec fn parsed_date(text: Seq<char>) -> Option<GedcomxDate>;

/// `gedcomx_date::parse` reads a whole text as one GEDCOM X date. What it
/// returns depends on the text alone: the date that `parsed_date` names,
/// and an error exactly where `parsed_date` names none. It returns on
/// every text.
pub assume_specification[ gedcomx_date::parse ](string: &str) -> (result: Result<
    gedcomx_date::GedcomxDate,
    String,
>)
    ensures
        match result {
            Ok(date) => parsed_date(string@) == Some(date),
            Err(_) => parsed_date(string@) is None,
        },
;

/// The text that is returned for a text that is no GEDCOM X date.
pub open spec fn parsing_error_text() -> Seq<char> {
    "Parsing error"@
}

/// The EDTF text for the outcome of parsing: that of the date, or the
/// error text where there is no date.
pub open spec fn outcome_text(outcome: Option<GedcomxDate>) -> Seq<char> {
    match outcome {
        Some(date) => date.edtf(),
        None => parsing_error_text(),
    }
}

/// Renders the outcome of parsing: the date as EDTF, or `Parsing error`
/// where there is none.
pub fn render_outcome(outcome: Option<GedcomxDate>) -> (text: String)
    ensures
        text@ == outcome_text(outcome),
{
    match outcome {
        Some(date) => date.to_edtf(),
        None => String::from_str("Parsing error"),
    }
}

/// Converts GEDCOM X date text to EDTF text. A text that is no GEDCOM X
/// date gives `Parsing error`.
pub fn conv(gedcomx: &str) -> (text: String)
    ensures
        text@ == outcome_text(parsed_date(gedcomx@)),
{
    match gedcomx_date::parse(gedcomx) {
        Ok(date) => render_outcome(Some(date)),
        Err(_) => render_outcome(None),
    }
}

} // verus!

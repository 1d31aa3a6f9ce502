//! Calendar dates, read and written by `chrono`.

use crate::cells::opt_text;
use chrono::NaiveDate;
use vstd::prelude::*;

verus! {

/// The canonical form of the calendar date that `text` spells under the
/// `strftime` pattern `format`: what `chrono::NaiveDate::parse_from_str` reads,
/// written back by the date's `Display` (year, month and day, as in
/// `2015-03-07`). `None` where the text does not spell a date under the pattern.
pub uninterp spec fn reformatted_date(text: Seq<char>, format: Seq<char>) -> Option<Seq<char>>;

/// The canonical form of the date that `text` spells under `format`, `None`
/// where it spells none. A canonical form is never empty.
pub open spec fn canonical_date(text: Seq<char>, format: Seq<char>) -> Option<Seq<char>> {
    match reformatted_date(text, format) {
        Some(date) => if date.len() > 0 {
            Some(date)
        } else {
            None
        },
        None => None,
    }
}

/// Reads a date with `chrono::NaiveDate::parse_from_str` and writes it with the
/// date's `Display`. The result depends on the two arguments alone, and a date
/// is never written as the empty text (`Display` writes a year, two hyphens, a
/// month and a day).
#[verifier::external_body]
pub(crate) fn reformat_date(text: &str, format: &str) -> (date: Option<String>)
    ensures
        opt_text(date) == reformatted_date(text@, format@),
        date matches Some(d) ==> d@.len() > 0,
{
    NaiveDate::parse_from_str(text, format).ok().map(|d| d.to_string())
}

} // verus!

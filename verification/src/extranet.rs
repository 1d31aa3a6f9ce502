//! The Extranet reader: from the bytes of a delimited-text export to the
//! roster.

use crate::error::{DiffError, Failure};
use crate::frames::{
    frame_integer_column, frame_rendered_column, frame_text_column, integer_column, read_frame,
    rendered_column, text_column, Frame,
};
use crate::kinds::Source;
use crate::tables::{extranet_rows, ExtranetEntry, ExtranetTable, COLUMNS_DIFFER};
use vstd::prelude::*;
use vstd::string::StringExecFns;

verus! {

/// The header of Extranet's key column.
pub const REG_ID: &'static str = "RegID";

/// The header of the member's name.
pub const FULL_NAME: &'static str = "FullName";

/// The header of the member's section.
pub const CLASS_ID: &'static str = "ClassID";

/// The header of the primary contact's first name.
pub const CONTACT_FIRST_NAME: &'static str = "Primary Contact Firstname";

/// The header of the primary contact's surname.
pub const CONTACT_SURNAME: &'static str = "Primary Contact Surname";

/// The header of the primary contact's email address.
pub const CONTACT_EMAIL: &'static str = "Primary Contact Email";

/// The header of the primary contact's mobile number.
pub const CONTACT_MOBILE: &'static str = "Primary Contact Mobile";

/// The header of the member's date of birth.
pub const DOB: &'static str = "DOB";

/// The roster that a frame holds: `RegID` as integers; `FullName`, `ClassID`,
/// `Primary Contact Email` and `DOB` as the strings they were read as; the
/// primary contact's first name, surname and mobile number cast to strings.
/// Else the detail of the failure: `None`, for a message of `polars`, where a
/// column is absent or of another type; and that the columns differ in length.
pub open spec fn extranet_records(frame: Frame) -> Result<
    Seq<ExtranetEntry>,
    Option<Seq<char>>,
> {
    match (
        frame_integer_column(frame, REG_ID@),
        frame_text_column(frame, FULL_NAME@),
        frame_text_column(frame, CLASS_ID@),
        frame_rendered_column(frame, CONTACT_FIRST_NAME@),
        frame_rendered_column(frame, CONTACT_SURNAME@),
        frame_text_column(frame, CONTACT_EMAIL@),
        frame_rendered_column(frame, CONTACT_MOBILE@),
        frame_text_column(frame, DOB@),
    ) {
        (
            Some(ids),
            Some(names),
            Some(classes),
            Some(first_names),
            Some(surnames),
            Some(emails),
            Some(mobiles),
            Some(births),
        ) => if names.len() == ids.len() && classes.len() == ids.len() && first_names.len()
            == ids.len() && surnames.len() == ids.len() && emails.len() == ids.len()
            && mobiles.len() == ids.len() && births.len() == ids.len() {
            Ok(extranet_rows(ids, names, classes, first_names, surnames, emails, mobiles, births))
        } else {
            Err(Some(COLUMNS_DIFFER@))
        },
        _ => Err(None),
    }
}

/// The processing failure with the given detail.
fn processing_failure(detail: String) -> (e: DiffError)
    ensures
        e == (DiffError::Processing { detail }),
{
    DiffError::Processing { detail }
}

/// Makes the Extranet roster from the frame read from an export. Each failure
/// is a processing failure.
pub fn extranet_table(frame: &Frame) -> (roster: Result<ExtranetTable, DiffError>)
    ensures
        match roster {
            Ok(roster) => extranet_records(*frame) == Ok::<Seq<ExtranetEntry>, Option<Seq<char>>>(
                roster@,
            ),
            Err(e) => extranet_records(*frame) matches Err(detail) && e.reports(
                Failure::Processing(detail),
            ),
        },
{
    let ids = match integer_column(frame, REG_ID) {
        Ok(cells) => cells,
        Err(detail) => {
            return Err(processing_failure(detail));
        },
    };
    let names = match text_column(frame, FULL_NAME) {
        Ok(cells) => cells,
        Err(detail) => {
            return Err(processing_failure(detail));
        },
    };
    let classes = match text_column(frame, CLASS_ID) {
        Ok(cells) => cells,
        Err(detail) => {
            return Err(processing_failure(detail));
        },
    };
    let first_names = match rendered_column(frame, CONTACT_FIRST_NAME) {
        Ok(cells) => cells,
        Err(detail) => {
            return Err(processing_failure(detail));
        },
    };
    let surnames = match rendered_column(frame, CONTACT_SURNAME) {
        Ok(cells) => cells,
        Err(detail) => {
            return Err(processing_failure(detail));
        },
    };
    let emails = match text_column(frame, CONTACT_EMAIL) {
        Ok(cells) => cells,
        Err(detail) => {
            return Err(processing_failure(detail));
        },
    };
    let mobiles = match rendered_column(frame, CONTACT_MOBILE) {
        Ok(cells) => cells,
        Err(detail) => {
            return Err(processing_failure(detail));
        },
    };
    let births = match text_column(frame, DOB) {
        Ok(cells) => cells,
        Err(detail) => {
            return Err(processing_failure(detail));
        },
    };
    match ExtranetTable::from_columns(
        &ids,
        &names,
        &classes,
        &first_names,
        &surnames,
        &emails,
        &mobiles,
        &births,
    ) {
        Some(roster) => Ok(roster),
        None => Err(processing_failure(String::from_str(COLUMNS_DIFFER))),
    }
}

/// What the roster is after the reader has returned: a parse failure with the
/// reader's message where the reader failed, else what the frame holds.
pub open spec fn extranet_outcome(read: Result<Frame, String>) -> Result<
    Seq<ExtranetEntry>,
    Failure,
> {
    match read {
        Err(message) => Err(Failure::Parse(Source::Extranet, Some(message@))),
        Ok(frame) => match extranet_records(frame) {
            Ok(rows) => Ok(rows),
            Err(detail) => Err(Failure::Processing(detail)),
        },
    }
}

/// Whether a result is the given outcome: a roster with its records, or an
/// error that reports its failure.
pub open spec fn is_roster_outcome(
    result: Result<ExtranetTable, DiffError>,
    outcome: Result<Seq<ExtranetEntry>, Failure>,
) -> bool {
    match result {
        Ok(roster) => outcome == Ok::<Seq<ExtranetEntry>, Failure>(roster@),
        Err(e) => outcome matches Err(failure) && e.reports(failure),
    }
}

/// Makes the Extranet roster from what the reader returned. A failure of the
/// reader is a parse failure with the reader's message; a frame without a
/// needed column, or with one of another type, gives a processing failure.
pub fn extranet_after_read(read: Result<Frame, String>) -> (roster: Result<
    ExtranetTable,
    DiffError,
>)
    ensures
        is_roster_outcome(roster, extranet_outcome(read)),
{
    match read {
        Ok(frame) => extranet_table(&frame),
        Err(detail) => Err(DiffError::Parse { source: Source::Extranet, detail }),
    }
}

/// Reads the bytes of an Extranet export into the roster. What the reader makes
/// of the bytes is its own affair; the roster is what `extranet_after_read`
/// makes of what the reader returned.
pub fn read_extranet(extranet_csv: &[u8]) -> (roster: Result<ExtranetTable, DiffError>)
    ensures
        exists|read: Result<Frame, String>|
            is_roster_outcome(roster, #[trigger] extranet_outcome(read)),
{
    let read = read_frame(extranet_csv);
    let ghost returned = read;
    let roster = extranet_after_read(read);
    proof {
        assert(is_roster_outcome(roster, extranet_outcome(returned)));
    }
    roster
}

} // verus!

//! Reconciles two exports of one membership roster, a delimited-text export
//! ("Extranet") and a spreadsheet export in XML ("Operoo"), and reports the
//! records that only one of them holds and the records on which they disagree.

use vstd::prelude::*;

pub mod cells;
pub mod dates;
pub mod error;
pub mod extranet;
pub mod frames;
pub mod guard;
pub mod join;
pub mod kinds;
pub mod laws;
pub mod normalize;
pub mod operoo;
pub mod report;
pub mod rules;
pub mod sheet;
pub mod tables;
pub mod text;
pub mod workbook;

use crate::error::{DiffError, Failure};
use crate::extranet::{extranet_records, extranet_table};
use crate::frames::{read_frame, Frame};
use crate::guard::{check_report_types, unrecognized};
use crate::kinds::{Source, TableKind};
use crate::operoo::{operoo_records, operoo_sheet, operoo_table, read_operoo};
use crate::report::{report_wf, Discrepancies, Report};
use crate::rules::{reconcile, report_of};
use crate::tables::ExtranetEntry;

verus! {

/// What the reconciliation gives after the Extranet reader has returned: the
/// report, or the first failure. A failure of the reader is a parse failure of
/// Extranet with the reader's message. Else Operoo is read; then the columns
/// that the rules need are taken from Operoo and from the frame; then the
/// rules are applied.
pub open spec fn outcome_after_read(read: Result<Frame, String>, operoo: Seq<u8>) -> Result<
    Map<TableKind, Discrepancies>,
    Failure,
> {
    match read {
        Err(message) => Err(Failure::Parse(Source::Extranet, Some(message@))),
        Ok(frame) => match operoo_sheet(operoo) {
            Err(detail) => Err(Failure::Parse(Source::Operoo, Some(detail))),
            Ok(sheet) => match operoo_records(sheet) {
                Err(detail) => Err(Failure::Processing(detail)),
                Ok(theirs) => match extranet_records(frame) {
                    Err(detail) => Err(Failure::Processing(detail)),
                    Ok(ours) => Ok(report_of(ours, theirs)),
                },
            },
        },
    }
}

/// What the reconciliation of two exports gives, for what the Extranet reader
/// returns on the first: an input that does not begin as it should fails the
/// format guard, Extranet's first, whatever the reader would return.
pub open spec fn diff_outcome(extranet: Seq<u8>, operoo: Seq<u8>, read: Result<Frame, String>) -> Result<
    Map<TableKind, Discrepancies>,
    Failure,
> {
    match unrecognized(extranet, operoo) {
        Some(source) => Err(Failure::InvalidFormat(source)),
        None => outcome_after_read(read, operoo),
    }
}

/// Whether a result of a reconciliation is the given outcome: a report with
/// its tables, or an error that reports its failure.
pub open spec fn is_outcome(
    result: Result<Report, DiffError>,
    outcome: Result<Map<TableKind, Discrepancies>, Failure>,
) -> bool {
    match result {
        Ok(report) => outcome == Ok::<Map<TableKind, Discrepancies>, Failure>(report@),
        Err(e) => outcome matches Err(failure) && e.reports(failure),
    }
}

/// Reconciles what the Extranet reader returned with an Operoo export. The
/// result is the collection of the discrepancy tables that have rows; a
/// failure ends the whole reconciliation. Malformed values in single cells are
/// no failure: they become missing values, or dates that equal no date.
pub fn diff_read(read: Result<Frame, String>, operoo_xls: &[u8]) -> (result: Result<
    Report,
    DiffError,
>)
    ensures
        is_outcome(result, outcome_after_read(read, operoo_xls@)),
        result matches Ok(report) ==> report_wf(report@),
{
    let frame = match read {
        Ok(frame) => frame,
        Err(detail) => {
            return Err(DiffError::Parse { source: Source::Extranet, detail });
        },
    };
    let sheet = match read_operoo(operoo_xls) {
        Ok(sheet) => sheet,
        Err(e) => {
            return Err(e);
        },
    };
    let operoo = match operoo_table(&sheet) {
        Ok(operoo) => operoo,
        Err(e) => {
            return Err(e);
        },
    };
    let extranet = match extranet_table(&frame) {
        Ok(extranet) => extranet,
        Err(e) => {
            return Err(e);
        },
    };
    Ok(reconcile(&extranet, &operoo))
}

/// Reconciles an Extranet export with an Operoo export. An input that does not
/// begin as an export of its source does fails the format guard, Extranet's
/// first, and nothing else does. Then the Extranet reader is run on the first
/// input as it is, and the result is what `diff_read` makes of what the reader
/// returned and the second input. So a report holds the tables of the roster
/// that the Operoo export decides and of the roster in the frame that the
/// reader returned.
pub fn diff(extranet_csv: &[u8], operoo_xls: &[u8]) -> (result: Result<Report, DiffError>)
    ensures
        exists|read: Result<Frame, String>|
            is_outcome(result, #[trigger] diff_outcome(extranet_csv@, operoo_xls@, read)),
        match unrecognized(extranet_csv@, operoo_xls@) {
            Some(source) => result matches Err(e) && e == (DiffError::InvalidFormat { source }),
            None => !(result matches Err(DiffError::InvalidFormat { .. })),
        },
        result matches Ok(report) ==> {
            &&& report_wf(report@)
            &&& operoo_sheet(operoo_xls@) matches Ok(sheet)
            &&& operoo_records(sheet) matches Ok(theirs)
            &&& exists|ours: Seq<ExtranetEntry>| report@ == #[trigger] report_of(ours, theirs)
        },
{
    match check_report_types(extranet_csv, operoo_xls) {
        Ok(_) => {},
        Err(e) => {
            proof {
                let read = Err::<Frame, String>(arbitrary());
                assert(is_outcome(Err(e), diff_outcome(extranet_csv@, operoo_xls@, read)));
            }
            return Err(e);
        },
    }
    let read = read_frame(extranet_csv);
    let ghost returned = read;
    let result = diff_read(read, operoo_xls);
    proof {
        assert(is_outcome(result, diff_outcome(extranet_csv@, operoo_xls@, returned)));
        if result is Ok {
            let ours = extranet_records(returned->Ok_0)->Ok_0;
            let theirs = operoo_records(operoo_sheet(operoo_xls@)->Ok_0)->Ok_0;
            assert(result->Ok_0@ == report_of(ours, theirs));
        }
    }
    result
}

/// Reconciling twice what the reader returned, with the same Operoo bytes,
/// gives the same outcome: the same tables, or the same failure. The two
/// failures are reported in the same sentence wherever their detail is decided,
/// which is everywhere but where `polars` writes it after the read. Whether the
/// reader returns the same frame for the same bytes is its own affair.
pub proof fn lemma_diff_is_repeatable(
    extranet: Seq<u8>,
    operoo: Seq<u8>,
    read: Result<Frame, String>,
    first: Result<Report, DiffError>,
    second: Result<Report, DiffError>,
)
    requires
        is_outcome(first, diff_outcome(extranet, operoo, read)),
        is_outcome(second, diff_outcome(extranet, operoo, read)),
    ensures
        match (first, second) {
            (Ok(a), Ok(b)) => a@ == b@,
            (Err(a), Err(b)) => diff_outcome(extranet, operoo, read) matches Err(failure)
                && a.reports(failure) && b.reports(failure) && (failure.is_stated()
                ==> a.message_text() == b.message_text()),
            _ => false,
        },
{
}

} // verus!

//! The Operoo reader: from the bytes of a spreadsheet in XML to the table of
//! the columns that the rules need, and from that table to the roster.

use crate::cells::{present, present_texts, resize_cells, resized, string_views};
use crate::error::{DiffError, Failure};
use crate::frames::{cast_to_integers, integers_of};
use crate::kinds::Source;
use crate::sheet::{
    column_views, distinct_names, find_column, is_table, same_height, Column, ColumnView, Table,
};
use crate::tables::{operoo_rows, OperooEntry, OperooTable, COLUMNS_DIFFER};
use crate::text::{decimal_text, decode_text, same_text, utf8_error_text};
use crate::workbook::{
    child_texts, column_path, document_source, first_child_texts, header_path, node_texts,
    node_views, own_texts, parse_document, select_nodes, sheet_namespace, sheet_prefix,
    xml_parse_error, xml_selection, COLUMN_PATH_END, COLUMN_PATH_START, HEADER_PATH,
    SHEET_NAMESPACE, SHEET_PREFIX,
};
use vstd::prelude::*;
use vstd::slice::slice_subrange;
use vstd::string::StringExecFns;
use vstd::utf8::{decode_utf8, valid_utf8};

verus! {

/// The header of Operoo's key column.
pub const PROFILE_ID: &'static str = "Profile Id";

/// The header of the member's name.
pub const PERSON_NAME: &'static str = "Person Name";

/// The header of the primary contact's name. The space at its end belongs to
/// it.
pub const OWNER_NAME: &'static str = "Profile Owner's Name ";

/// The header of the primary contact's email address.
pub const OWNER_EMAIL: &'static str = "Profile Owner's Email";

/// The header of the primary contact's mobile number.
pub const OWNER_MOBILE: &'static str = "Profile Owner's Mobile Phone";

/// The header of the member's date of birth.
pub const BIRTH_DATE: &'static str = "Person Birth Date";

/// The detail of the failure on an export of fewer than two bytes.
pub const SHORT_EXPORT: &'static str = "The export is shorter than its prefix";

/// The detail of the failure on a header query whose value is no node set.
pub const HEADER_NOT_NODES: &'static str = "Expected row to be nodeset";

/// The detail of the failure on a header query that cannot be evaluated.
pub const HEADER_NOT_QUERIED: &'static str = "The header row could not be queried";

/// The detail of the failure on a column query whose value is no node set.
pub const COLUMN_NOT_NODES: &'static str = "Expected column to be nodeset";

/// The detail of the failure on a column query that cannot be evaluated.
pub const COLUMN_NOT_QUERIED: &'static str = "A column could not be queried";

/// The detail of the failure on two needed headers that are the same.
pub const REPEATED_HEADER: &'static str = "Two columns have the same name";

/// How the detail of the failure on an absent column begins; the column's name
/// follows.
pub const NOT_FOUND: &'static str = "not found: ";

/// Whether a header names one of the columns that the rules need.
pub open spec fn is_needed(name: Seq<char>) -> bool {
    ||| name == PROFILE_ID@
    ||| name == PERSON_NAME@
    ||| name == OWNER_NAME@
    ||| name == OWNER_EMAIL@
    ||| name == OWNER_MOBILE@
    ||| name == BIRTH_DATE@
}

/// What a query selects in the spreadsheet parsed from `text`.
pub open spec fn sheet_selection(text: Seq<char>, path: Seq<char>) -> Option<
    Option<Seq<(Option<Seq<char>>, Seq<Option<Seq<char>>>)>>,
> {
    xml_selection(text, path, sheet_prefix(), sheet_namespace())
}

/// The headers: the texts of the text nodes that the header query selects.
pub open spec fn header_names(nodes: Seq<(Option<Seq<char>>, Seq<Option<Seq<char>>>)>) -> Seq<
    Seq<char>,
> {
    present(own_texts(nodes))
}

/// The columns taken for the first `n` headers: for each needed header, in the
/// header row's order, the data cells at the header's position among all
/// headers, each as the text of its first child. The first column taken sets
/// the number of records; each later one is cut or filled with missing values
/// to it. The first query for a column that fails, or selects no node set,
/// decides the failure's detail.
pub open spec fn projected(text: Seq<char>, headers: Seq<Seq<char>>, n: int) -> Result<
    Seq<ColumnView>,
    Seq<char>,
>
    decreases n,
{
    if n <= 0 {
        Ok(Seq::empty())
    } else {
        match projected(text, headers, n - 1) {
            Err(detail) => Err(detail),
            Ok(before) => if !is_needed(headers[n - 1]) {
                Ok(before)
            } else {
                match sheet_selection(text, column_path(n as nat)) {
                    Some(Some(nodes)) => Ok(
                        before.push(
                            ColumnView {
                                name: headers[n - 1],
                                cells: if before.len() == 0 {
                                    child_texts(nodes)
                                } else {
                                    resized(child_texts(nodes), before[0].cells.len())
                                },
                            },
                        ),
                    ),
                    Some(None) => Err(COLUMN_NOT_NODES@),
                    None => Err(COLUMN_NOT_QUERIED@),
                }
            },
        }
    }
}

/// The table read from the text of a spreadsheet, or the detail of the failure:
/// the parser's message where the text is no XML document, else the library's
/// own sentence for a query that fails or selects no node set and for two
/// needed headers that are the same.
pub open spec fn operoo_columns(text: Seq<char>) -> Result<Seq<ColumnView>, Seq<char>> {
    match xml_parse_error(text) {
        Some(message) => Err(message),
        None => match sheet_selection(text, header_path()) {
            Some(Some(nodes)) => match projected(
                text,
                header_names(nodes),
                header_names(nodes).len() as int,
            ) {
                Ok(columns) => if distinct_names(columns) {
                    Ok(columns)
                } else {
                    Err(REPEATED_HEADER@)
                },
                Err(detail) => Err(detail),
            },
            Some(None) => Err(HEADER_NOT_NODES@),
            None => Err(HEADER_NOT_QUERIED@),
        },
    }
}

/// The table read from the bytes of an Operoo export, or the detail of the
/// failure: the bytes after the first two, read as UTF-8 text, read as a
/// spreadsheet.
pub open spec fn operoo_sheet(bytes: Seq<u8>) -> Result<Seq<ColumnView>, Seq<char>> {
    if bytes.len() < 2 {
        Err(SHORT_EXPORT@)
    } else if !valid_utf8(bytes.skip(2)) {
        Err(utf8_error_text(bytes.skip(2)))
    } else {
        operoo_columns(decode_utf8(bytes.skip(2)))
    }
}

/// Once a column cannot be taken, the projection fails in the same way for
/// every longer list of headers.
pub proof fn lemma_projected_fails(text: Seq<char>, headers: Seq<Seq<char>>, m: int, n: int)
    requires
        m <= n,
        projected(text, headers, m) is Err,
    ensures
        projected(text, headers, n) == projected(text, headers, m),
    decreases n - m,
{
    if m < n {
        lemma_projected_fails(text, headers, m, n - 1);
    }
}

/// The projected columns have one length.
pub proof fn lemma_projected_height(text: Seq<char>, headers: Seq<Seq<char>>, n: int)
    ensures
        projected(text, headers, n) matches Ok(columns) ==> same_height(columns),
    decreases n,
{
    if n > 0 {
        lemma_projected_height(text, headers, n - 1);
        match projected(text, headers, n - 1) {
            Ok(before) => {
                match projected(text, headers, n) {
                    Ok(columns) => {
                        assert forall|i: int| 0 <= i < columns.len() implies (
                        #[trigger] columns[i]).cells.len() == columns[0].cells.len() by {
                            if i < before.len() {
                                assert(columns[i] == before[i]);
                                assert(columns[0] == before[0]);
                            }
                        }
                    },
                    Err(_) => {},
                }
            },
            Err(_) => {},
        }
    }
}

/// Tests a header for the columns that the rules need.
pub fn is_needed_name(name: &str) -> (needed: bool)
    ensures
        needed == is_needed(name@),
{
    same_text(name, PROFILE_ID) || same_text(name, PERSON_NAME) || same_text(name, OWNER_NAME)
        || same_text(name, OWNER_EMAIL) || same_text(name, OWNER_MOBILE) || same_text(
        name,
        BIRTH_DATE,
    )
}

/// The query for the data cells at a position.
pub fn column_path_text(position: usize) -> (path: String)
    ensures
        path@ == column_path(position as nat),
{
    let number = decimal_text(position);
    String::from_str(COLUMN_PATH_START).concat(number.as_str()).concat(COLUMN_PATH_END)
}

/// The parse failure of Operoo with the given detail.
fn parse_failure(detail: String) -> (e: DiffError)
    ensures
        e == (DiffError::Parse { source: Source::Operoo, detail }),
{
    DiffError::Parse { source: Source::Operoo, detail }
}

/// Reads the bytes of an Operoo export into a table. The first two bytes are
/// skipped; the rest is an XML spreadsheet whose first row holds the headers.
/// The table holds the columns that the rules need, in the header row's order.
/// Each failure is a parse failure of Operoo, with the detail that the export
/// decides.
pub fn read_operoo(raw_xls: &[u8]) -> (table: Result<Table, DiffError>)
    ensures
        match table {
            Ok(table) => operoo_sheet(raw_xls@) == Ok::<Seq<ColumnView>, Seq<char>>(table@)
                && is_table(table@),
            Err(e) => operoo_sheet(raw_xls@) matches Err(detail) && e.reports(
                Failure::Parse(Source::Operoo, Some(detail)),
            ),
        },
{
    if raw_xls.len() < 2 {
        return Err(parse_failure(String::from_str(SHORT_EXPORT)));
    }
    let rest = slice_subrange(raw_xls, 2, raw_xls.len());
    proof {
        assert(rest@ =~= raw_xls@.skip(2));
    }
    let text = match decode_text(rest) {
        Ok(text) => text,
        Err(detail) => {
            return Err(parse_failure(detail));
        },
    };
    let document = match parse_document(text) {
        Ok(document) => document,
        Err(detail) => {
            return Err(parse_failure(detail));
        },
    };
    let header_nodes = match select_nodes(&document, HEADER_PATH, SHEET_PREFIX, SHEET_NAMESPACE) {
        Some(Some(nodes)) => nodes,
        Some(None) => {
            return Err(parse_failure(String::from_str(HEADER_NOT_NODES)));
        },
        None => {
            return Err(parse_failure(String::from_str(HEADER_NOT_QUERIED)));
        },
    };
    let headers = present_texts(&node_texts(&header_nodes));
    let ghost names = string_views(headers@);
    let mut columns: Vec<Column> = Vec::new();
    let mut i: usize = 0;
    proof {
        assert(column_views(columns@) =~= Seq::<ColumnView>::empty());
    }
    while i < headers.len()
        invariant
            i <= headers.len(),
            names == string_views(headers@),
            names == header_names(node_views(header_nodes@)),
            raw_xls@.len() >= 2,
            valid_utf8(raw_xls@.skip(2)),
            text@ == decode_utf8(raw_xls@.skip(2)),
            xml_parse_error(text@) is None,
            sheet_selection(text@, header_path()) == Some(Some(node_views(header_nodes@))),
            document_source(document) == text@,
            projected(text@, names, i as int) == Ok::<Seq<ColumnView>, Seq<char>>(
                column_views(columns@),
            ),
        decreases headers.len() - i,
    {
        let ghost before = column_views(columns@);
        proof {
            assert(names[i as int] == headers@[i as int]@);
        }
        if is_needed_name(headers[i].as_str()) {
            let path = column_path_text(i + 1);
            match select_nodes(&document, path.as_str(), SHEET_PREFIX, SHEET_NAMESPACE) {
                Some(Some(nodes)) => {
                    let mut cells = first_child_texts(&nodes);
                    if columns.len() > 0 {
                        proof {
                            assert(before[0] == columns@[0]@);
                        }
                        let height = columns[0].cells.len();
                        resize_cells(&mut cells, height);
                    }
                    let column = Column { name: headers[i].clone(), cells };
                    columns.push(column);
                    proof {
                        assert(column_views(columns@) =~= before.push(column@));
                    }
                },
                Some(None) => {
                    proof {
                        lemma_projected_fails(text@, names, i + 1, headers.len() as int);
                    }
                    return Err(parse_failure(String::from_str(COLUMN_NOT_NODES)));
                },
                None => {
                    proof {
                        lemma_projected_fails(text@, names, i + 1, headers.len() as int);
                    }
                    return Err(parse_failure(String::from_str(COLUMN_NOT_QUERIED)));
                },
            }
        }
        i += 1;
    }
    proof {
        lemma_projected_height(text@, names, headers.len() as int);
    }
    match Table::new(columns) {
        Some(table) => Ok(table),
        None => Err(parse_failure(String::from_str(REPEATED_HEADER))),
    }
}

/// The detail of the failure on a table that lacks the column called `name`.
pub open spec fn not_found(name: Seq<char>) -> Seq<char> {
    NOT_FOUND@ + name
}

/// The first of the six needed columns, in the order of the rules, that a list
/// of columns lacks; `None` where it has them all.
pub open spec fn first_absent(columns: Seq<ColumnView>) -> Option<Seq<char>> {
    if find_column(columns, PROFILE_ID@) is None {
        Some(PROFILE_ID@)
    } else if find_column(columns, PERSON_NAME@) is None {
        Some(PERSON_NAME@)
    } else if find_column(columns, OWNER_NAME@) is None {
        Some(OWNER_NAME@)
    } else if find_column(columns, OWNER_EMAIL@) is None {
        Some(OWNER_EMAIL@)
    } else if find_column(columns, OWNER_MOBILE@) is None {
        Some(OWNER_MOBILE@)
    } else if find_column(columns, BIRTH_DATE@) is None {
        Some(BIRTH_DATE@)
    } else {
        None
    }
}

/// The roster that a list of Operoo's columns holds: the six needed columns,
/// the first cast to integers. Else the detail of the failure: the name of the
/// first absent column, or that the columns differ in length; it is `None`
/// where the cast fails, with a message of `polars`.
pub open spec fn operoo_records(columns: Seq<ColumnView>) -> Result<
    Seq<OperooEntry>,
    Option<Seq<char>>,
> {
    match first_absent(columns) {
        Some(name) => Err(Some(not_found(name))),
        None => {
            let ids = find_column(columns, PROFILE_ID@)->0;
            let names = find_column(columns, PERSON_NAME@)->0;
            let owners = find_column(columns, OWNER_NAME@)->0;
            let emails = find_column(columns, OWNER_EMAIL@)->0;
            let mobiles = find_column(columns, OWNER_MOBILE@)->0;
            let births = find_column(columns, BIRTH_DATE@)->0;
            match integers_of(ids) {
                None => Err(None),
                Some(keys) => if names.len() == keys.len() && owners.len() == keys.len()
                    && emails.len() == keys.len() && mobiles.len() == keys.len() && births.len()
                    == keys.len() {
                    Ok(operoo_rows(keys, names, owners, emails, mobiles, births))
                } else {
                    Err(Some(COLUMNS_DIFFER@))
                },
            }
        },
    }
}

/// The processing failure for a column that the table lacks: its detail names
/// the column.
fn absent_column(name: &str) -> (e: DiffError)
    ensures
        e matches DiffError::Processing { detail } && detail@ == not_found(name@),
{
    DiffError::Processing { detail: String::from_str(NOT_FOUND).concat(name) }
}

/// The processing failure with the given detail.
fn processing_failure(detail: String) -> (e: DiffError)
    ensures
        e == (DiffError::Processing { detail }),
{
    DiffError::Processing { detail }
}

/// Makes the Operoo roster from the table of its columns. `Profile Id` is cast
/// from text to integers, so that it compares with `RegID`. Each failure is a
/// processing failure; its detail names the first column that the table lacks.
pub fn operoo_table(sheet: &Table) -> (roster: Result<OperooTable, DiffError>)
    ensures
        match roster {
            Ok(roster) => operoo_records(sheet@) == Ok::<Seq<OperooEntry>, Option<Seq<char>>>(
                roster@,
            ),
            Err(e) => operoo_records(sheet@) matches Err(detail) && e.reports(
                Failure::Processing(detail),
            ),
        },
{
    let ids = match sheet.cells(PROFILE_ID) {
        Some(cells) => cells,
        None => {
            return Err(absent_column(PROFILE_ID));
        },
    };
    let names = match sheet.cells(PERSON_NAME) {
        Some(cells) => cells,
        None => {
            return Err(absent_column(PERSON_NAME));
        },
    };
    let owners = match sheet.cells(OWNER_NAME) {
        Some(cells) => cells,
        None => {
            return Err(absent_column(OWNER_NAME));
        },
    };
    let emails = match sheet.cells(OWNER_EMAIL) {
        Some(cells) => cells,
        None => {
            return Err(absent_column(OWNER_EMAIL));
        },
    };
    let mobiles = match sheet.cells(OWNER_MOBILE) {
        Some(cells) => cells,
        None => {
            return Err(absent_column(OWNER_MOBILE));
        },
    };
    let births = match sheet.cells(BIRTH_DATE) {
        Some(cells) => cells,
        None => {
            return Err(absent_column(BIRTH_DATE));
        },
    };
    let keys = match cast_to_integers(&ids) {
        Ok(keys) => keys,
        Err(detail) => {
            return Err(processing_failure(detail));
        },
    };
    match OperooTable::from_columns(&keys, &names, &owners, &emails, &mobiles, &births) {
        Some(roster) => Ok(roster),
        None => Err(processing_failure(String::from_str(COLUMNS_DIFFER))),
    }
}

} // verus!

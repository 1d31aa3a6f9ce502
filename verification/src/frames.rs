//! Delimited text, read by `polars`.

use crate::cells::texts;
use polars::prelude::{CsvReadOptions, DataFrame, DataType, NamedFrom, SerReader, Series};
use std::io::Cursor;
use vstd::prelude::*;

verus! {

/// A `DataFrame` of `polars`: named, typed columns of one height. The library
/// reads it and never changes it.
#[verifier::external_body]
pub struct Frame {
    inner: DataFrame,
}

/// The number of records that a frame holds: the one length of its columns.
pub uninterp spec fn frame_height(frame: Frame) -> nat;

/// The cells of the frame's column called `name`, where the frame has that
/// column and the column's type is string; else `None`.
pub uninterp spec fn frame_text_column(frame: Frame, name: Seq<char>) -> Option<
    Seq<Option<Seq<char>>>,
>;

/// The cells of the frame's column called `name`, where the frame has that
/// column and the column's type is 64-bit integer; else `None`.
pub uninterp spec fn frame_integer_column(frame: Frame, name: Seq<char>) -> Option<
    Seq<Option<i64>>,
>;

/// The cells of the frame's column called `name`, cast to strings by `polars`,
/// where the frame has that column and the cast succeeds; else `None`.
pub uninterp spec fn frame_rendered_column(frame: Frame, name: Seq<char>) -> Option<
    Seq<Option<Seq<char>>>,
>;

/// What `polars` makes of a column of strings cast to 64-bit integers, `None`
/// where the cast fails as a whole. A cell that is no numeral becomes a missing
/// value.
pub uninterp spec fn integers_of(cells: Seq<Option<Seq<char>>>) -> Option<Seq<Option<i64>>>;

/// Reads delimited text with `CsvReadOptions::into_reader_with_file_handle` and
/// `CsvReader::finish`, with the reader's defaults but for `ignore_errors`: a
/// cell that does not parse under its column's inferred type becomes a missing
/// value. Nothing is claimed of what comes back: the reader cuts the bytes into
/// chunks whose size depends on the number of threads of its pool, and where a
/// cut falls can decide how a quoted line break is read. With the switch
/// `POLARS_PANIC_ON_ERR` set in the environment, `polars` panics where it would
/// return an error, here and in the four functions below.
#[verifier::external_body]
pub(crate) fn read_frame(bytes: &[u8]) -> (frame: Result<Frame, String>)
{
    CsvReadOptions::default()
        .with_ignore_errors(true)
        .into_reader_with_file_handle(Cursor::new(bytes))
        .finish()
        .map(|inner| Frame { inner })
        .map_err(|e| e.to_string())
}

/// The cells of a string column: `DataFrame::column`, then `Column::str`. It
/// fails where the frame has no such column or the column holds no strings. A
/// column has as many cells as the frame has records. The error's text is that
/// of `polars`.
#[verifier::external_body]
pub(crate) fn text_column(frame: &Frame, name: &str) -> (cells: Result<
    Vec<Option<String>>,
    String,
>)
    ensures
        match cells {
            Ok(cells) => frame_text_column(*frame, name@) == Some(texts(cells@)) && cells.len()
                == frame_height(*frame),
            Err(_) => frame_text_column(*frame, name@) is None,
        },
{
    let column = frame.inner.column(name).map_err(|e| e.to_string())?;
    let values = column.str().map_err(|e| e.to_string())?;
    Ok(values.iter().map(|v| v.map(|s| s.to_string())).collect())
}

/// The cells of an integer column: `DataFrame::column`, then `Column::i64`. It
/// fails where the frame has no such column or the column holds no 64-bit
/// integers. A column has as many cells as the frame has records. The error's
/// text is that of `polars`.
#[verifier::external_body]
pub(crate) fn integer_column(frame: &Frame, name: &str) -> (cells: Result<
    Vec<Option<i64>>,
    String,
>)
    ensures
        match cells {
            Ok(cells) => frame_integer_column(*frame, name@) == Some(cells@) && cells.len()
                == frame_height(*frame),
            Err(_) => frame_integer_column(*frame, name@) is None,
        },
{
    let column = frame.inner.column(name).map_err(|e| e.to_string())?;
    let values = column.i64().map_err(|e| e.to_string())?;
    Ok(values.iter().collect())
}

/// The cells of a column of any type as strings: `DataFrame::column`, then
/// `Column::cast` to the string type. It fails where the frame has no such
/// column or the cast fails. A cast keeps the number of cells. The error's text
/// is that of `polars`.
#[verifier::external_body]
pub(crate) fn rendered_column(frame: &Frame, name: &str) -> (cells: Result<
    Vec<Option<String>>,
    String,
>)
    ensures
        match cells {
            Ok(cells) => frame_rendered_column(*frame, name@) == Some(texts(cells@))
                && cells.len() == frame_height(*frame),
            Err(_) => frame_rendered_column(*frame, name@) is None,
        },
{
    let column = frame.inner.column(name).map_err(|e| e.to_string())?;
    let rendered = column.cast(&DataType::String).map_err(|e| e.to_string())?;
    let values = rendered.str().map_err(|e| e.to_string())?;
    Ok(values.iter().map(|v| v.map(|s| s.to_string())).collect())
}

/// Casts a column of strings to 64-bit integers with `Series::cast`. A cast
/// keeps the number of cells. The error's text is that of `polars`.
#[verifier::external_body]
pub(crate) fn cast_to_integers(cells: &Vec<Option<String>>) -> (numbers: Result<
    Vec<Option<i64>>,
    String,
>)
    ensures
        match numbers {
            Ok(numbers) => integers_of(texts(cells@)) == Some(numbers@) && numbers.len()
                == cells.len(),
            Err(_) => integers_of(texts(cells@)) is None,
        },
{
    let series = Series::new("".into(), cells);
    let cast = series.cast(&DataType::Int64).map_err(|e| e.to_string())?;
    let values = cast.i64().map_err(|e| e.to_string())?;
    Ok(values.iter().collect())
}

} // verus!

//! Loading a story: text to rows, rows to records, records to the graph.
//! A story is loaded whole or not at all.

use crate::graph::{build_graph, graph_of, NodeView, StoryGraph};
use crate::reader::{csv_rows, read_rows};
use crate::record::{record_of, RecordView, StoryRecord, RECORD_FIELDS};
use vstd::prelude::*;

verus! {

/// The byte that separates the fields of a row: a semicolon.
pub const FIELD_DELIMITER: u8 = 0x3b;

/// Whether the first row of the text is a header rather than a record. It is
/// not: the first row is read like any other.
pub const HEADER_ROW: bool = false;

/// Whether rows may differ in their number of fields. They may: a row only
/// has to be long enough for a record.
pub const UNEVEN_ROWS: bool = true;

/// Why a story could not be loaded.
#[derive(Debug)]
pub enum LoadError {
    /// The text could not be split into rows.
    Unreadable(csv::Error),
    /// The row at index `row`, the first such row, has only `found` fields,
    /// fewer than a record needs.
    MissingFields { row: usize, found: usize },
}

/// Whether every row has the fields that a record needs.
pub open spec fn rows_complete(rows: Seq<Seq<Seq<char>>>) -> bool {
    forall|i: int| 0 <= i < rows.len() ==> (#[trigger] rows[i]).len() >= RECORD_FIELDS
}

/// Whether `row` is the index of the first row that is too short for a
/// record.
pub open spec fn first_short_row(rows: Seq<Seq<Seq<char>>>, row: int) -> bool {
    &&& 0 <= row < rows.len()
    &&& rows[row].len() < RECORD_FIELDS
    &&& forall|i: int| 0 <= i < row ==> (#[trigger] rows[i]).len() >= RECORD_FIELDS
}

/// The records that complete rows are read as, row by row.
pub open spec fn records_of(rows: Seq<Seq<Seq<char>>>) -> Seq<RecordView> {
    Seq::new(rows.len(), |i: int| record_of(rows[i]))
}

/// Whether `error` reports the first short row of `rows` with its length.
pub open spec fn reports_short_row(error: LoadError, rows: Seq<Seq<Seq<char>>>) -> bool {
    match error {
        LoadError::MissingFields { row, found } => first_short_row(rows, row as int)
            && found == rows[row as int].len(),
        LoadError::Unreadable(_) => false,
    }
}

/// Reads one record from each row. Succeeds exactly when every row has the
/// fields that a record needs; otherwise reports the first row that has not,
/// and yields no record at all.
pub fn parse_rows(rows: &Vec<Vec<String>>) -> (r: Result<Vec<StoryRecord>, LoadError>)
    ensures
        match r {
            Ok(records) => rows_complete(rows.deep_view()) && records.deep_view() == records_of(
                rows.deep_view(),
            ),
            Err(error) => reports_short_row(error, rows.deep_view()),
        },
{
    let ghost all = rows.deep_view();
    let mut records: Vec<StoryRecord> = Vec::new();
    let mut i: usize = 0;
    while i < rows.len()
        invariant
            i <= rows.len(),
            all == rows.deep_view(),
            records.len() == i,
            forall|j: int| 0 <= j < i ==> (#[trigger] all[j]).len() >= RECORD_FIELDS,
            forall|j: int| 0 <= j < i ==> (#[trigger] records[j])@ == record_of(all[j]),
        decreases rows.len() - i,
    {
        assert(all[i as int] == rows[i as int].deep_view());
        match StoryRecord::from_fields(&rows[i]) {
            Some(record) => {
                records.push(record);
            },
            None => {
                return Err(LoadError::MissingFields { row: i, found: rows[i].len() });
            },
        }
        i = i + 1;
    }
    assert(records.deep_view() =~= records_of(all));
    Ok(records)
}

/// Builds the story graph from rows of fields. Succeeds exactly when every
/// row has the fields that a record needs, with the graph that the rows'
/// records describe; otherwise reports the first row that has not.
pub fn graph_from_rows(rows: &Vec<Vec<String>>) -> (r: Result<StoryGraph, LoadError>)
    ensures
        match r {
            Ok(graph) => rows_complete(rows.deep_view()) && graph@ == graph_of(
                records_of(rows.deep_view()),
            ),
            Err(error) => reports_short_row(error, rows.deep_view()),
        },
{
    match parse_rows(rows) {
        Ok(records) => Ok(build_graph(records)),
        Err(error) => Err(error),
    }
}

/// Loads a story from text whose fields are separated by `delimiter`: rows
/// separated by line breaks, no header row, rows of any length that is
/// enough for a record. Fails where the text cannot be split into rows, and
/// where a row is too short for a record; otherwise the result is the graph
/// that the rows' records describe.
pub fn load_delimited(text: &str, delimiter: u8) -> (r: Result<StoryGraph, LoadError>)
    ensures
        match csv_rows(text@, delimiter, HEADER_ROW, UNEVEN_ROWS) {
            Some(rows) => match r {
                Ok(graph) => rows_complete(rows) && graph@ == graph_of(records_of(rows)),
                Err(error) => reports_short_row(error, rows),
            },
            None => r matches Err(LoadError::Unreadable(_)),
        },
{
    match read_rows(text, delimiter, HEADER_ROW, UNEVEN_ROWS) {
        Ok(rows) => graph_from_rows(&rows),
        Err(error) => Err(LoadError::Unreadable(error)),
    }
}

/// Loads a story from its text, with [`FIELD_DELIMITER`] between the fields
/// of a row.
pub fn load_story(text: &str) -> (r: Result<StoryGraph, LoadError>)
    ensures
        match csv_rows(text@, FIELD_DELIMITER, HEADER_ROW, UNEVEN_ROWS) {
            Some(rows) => match r {
                Ok(graph) => rows_complete(rows) && graph@ == graph_of(records_of(rows)),
                Err(error) => reports_short_row(error, rows),
            },
            None => r matches Err(LoadError::Unreadable(_)),
        },
{
    load_delimited(text, FIELD_DELIMITER)
}

} // verus!

//! Splitting delimited text into rows of fields, done by the `csv` crate.

use vstd::prelude::*;

verus! {

/// The error of the `csv` crate, carried through as it comes.
#[verifier::external_type_specification]
#[verifier::external_body]
pub struct ExCsvError(csv::Error);

/// The rows of fields that `csv`'s reader yields for `text` when it is set up
/// with this delimiter, header mode and flexibility and every other option at
/// its default; `None` where the reader reports an error on some row.
pub uninterp spec fn csv_rows(
    text: Seq<char>,
    delimiter: u8,
    has_headers: bool,
    flexible: bool,
) -> Option<Seq<Seq<Seq<char>>>>;

/// Runs `csv::ReaderBuilder` with the given delimiter, header mode and
/// flexibility over the bytes of `text`, and collects what `Reader::records`
/// yields: every row as its fields in order, or the first error.
///
/// Not proved: that the outcome is decided by the four arguments alone, which
/// is all that [`csv_rows`] says of it.
#[verifier::external_body]
pub(crate) fn read_rows(text: &str, delimiter: u8, has_headers: bool, flexible: bool) -> (r: Result<
    Vec<Vec<String>>,
    csv::Error,
>)
    ensures
        match r {
            Ok(rows) => csv_rows(text@, delimiter, has_headers, flexible) == Some(
                rows.deep_view(),
            ),
            Err(_) => csv_rows(text@, delimiter, has_headers, flexible) is None,
        },
{
    let mut reader = csv::ReaderBuilder::new()
        .delimiter(delimiter)
        .has_headers(has_headers)
        .flexible(flexible)
        .from_reader(text.as_bytes());
    let mut rows: Vec<Vec<String>> = Vec::new();
    for record in reader.records() {
        rows.push(record?.iter().map(str::to_owned).collect());
    }
    Ok(rows)
}

} // verus!

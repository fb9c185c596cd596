//! The translation table: its rows as read from comma-separated bytes, and
//! what the conversion reads from them.
//!
//! Row 0 is the header: its first cell labels the identifier column, the
//! others name one language each. Every later row is a record: an identifier
//! followed by one translation per language column.

use vstd::prelude::*;

verus! {

/// csv's error value, carried through unread to the caller.
#[verifier::external_type_specification]
#[verifier::external_body]
pub struct ExCsvError(csv::Error);

/// The byte that, inside a quoted field, makes the next character literal
/// (`"say \"hi\""` reads as `say "hi"`).
pub const QUOTE_ESCAPE: u8 = 92;

/// The rows of cells that csv reads from `input` with `escape` as the escape
/// byte, or `None` where it reports an error.
pub uninterp spec fn csv_rows(input: Seq<u8>, escape: u8) -> Option<Seq<Seq<Seq<char>>>>;

/// The text of every cell of every row.
pub open spec fn table_view(rows: Seq<Vec<String>>) -> Seq<Seq<Seq<char>>> {
    rows.map_values(|row: Vec<String>| row@.map_values(|cell: String| cell@))
}

/// Relies on csv's `ReaderBuilder` and `Reader::records`: reads all rows of
/// `input`, the first one included, as comma-separated cells; rows may differ
/// in length. The rows, or the fact that csv stops on an error, depend on the
/// bytes and the escape byte alone.
#[verifier::external_body]
pub(crate) fn read_rows(input: &[u8], escape: u8) -> (r: Result<Vec<Vec<String>>, csv::Error>)
    ensures
        match r {
            Ok(rows) => csv_rows(input@, escape) == Some(table_view(rows@)),
            Err(_) => csv_rows(input@, escape) is None,
        },
{
    let mut reader = csv::ReaderBuilder::new().has_headers(false).flexible(true).escape(
        Some(escape),
    ).from_reader(input);
    let mut rows = Vec::new();
    for record in reader.records() {
        rows.push(record?.iter().map(String::from).collect());
    }
    Ok(rows)
}

/// The number of cells in the header; zero for an empty table.
pub open spec fn header_width(t: Seq<Seq<Seq<char>>>) -> nat {
    if t.len() == 0 {
        0
    } else {
        t[0].len()
    }
}

/// The number of language columns: every header cell but the first.
pub open spec fn language_count(t: Seq<Seq<Seq<char>>>) -> nat {
    if header_width(t) == 0 {
        0
    } else {
        (header_width(t) - 1) as nat
    }
}

/// A record is converted when its identifier is present and not empty;
/// any other record is skipped.
pub open spec fn has_identifier(row: Seq<Seq<char>>) -> bool {
    row.len() > 0 && row[0].len() > 0
}

/// Record `k` has no more cells than the header (skipped records always fit).
pub open spec fn row_fits(t: Seq<Seq<Seq<char>>>, k: int) -> bool {
    has_identifier(t[k]) ==> t[k].len() <= header_width(t)
}

/// Every record fits under the header.
pub open spec fn well_formed(t: Seq<Seq<Seq<char>>>) -> bool {
    forall|k: int| 1 <= k < t.len() ==> row_fits(t, k)
}

/// `k` is the first record that has more cells than the header.
pub open spec fn first_overlong(t: Seq<Seq<Seq<char>>>, k: int) -> bool {
    &&& 1 <= k < t.len()
    &&& !row_fits(t, k)
    &&& forall|j: int| 1 <= j < k ==> row_fits(t, j)
}

} // verus!

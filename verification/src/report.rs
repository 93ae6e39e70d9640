//! Report serialisation: rows of text fields to the bytes of a CSV table.
//!
//! Quoting and escaping are the `csv` crate's. Each row is encoded on its own
//! and the encodings are joined here; persisting the bytes is the caller's
//! business.

use vstd::prelude::*;
use crate::seqs::views;

verus! {

/// The bytes that `csv` writes for one record with the given fields, in its
/// default configuration: the fields, quoted where needed, separated by
/// commas, and the record terminator. `None` when the writer reports an
/// error.
pub uninterp spec fn csv_record_bytes(fields: Seq<Seq<char>>) -> Option<Seq<u8>>;

/// Writes one record with `csv::Writer::write_record` into a fresh
/// `csv::Writer` over an empty buffer (`Writer::from_writer`) and takes the
/// buffer back (`Writer::into_inner`).
///
/// Trusted, not proved: what comes back depends on the fields alone, and is
/// what `csv_record_bytes` names.
#[verifier::external_body]
fn encode_record(fields: &Vec<String>) -> (line: Option<Vec<u8>>)
    ensures
        match line {
            Some(bytes) => csv_record_bytes(views(fields@)) == Some(bytes@),
            None => csv_record_bytes(views(fields@)) is None,
        },
{
    let mut writer = csv::Writer::from_writer(Vec::new());
    writer.write_record(fields).ok()?;
    writer.into_inner().ok()
}

/// A table could not be serialised: the row at index `row` is the first that
/// the encoder refused.
#[derive(Clone, Copy, Debug, PartialEq, Eq, Structural)]
pub struct ReportError {
    pub row: usize,
}

/// The view of an encoded row.
pub open spec fn line_view(line: Option<Vec<u8>>) -> Option<Seq<u8>> {
    match line {
        Some(bytes) => Some(bytes@),
        None => None,
    }
}

/// The views of encoded rows.
pub open spec fn line_views(lines: Seq<Option<Vec<u8>>>) -> Seq<Option<Seq<u8>>> {
    Seq::new(lines.len(), |i: int| line_view(lines[i]))
}

/// The bytes of a row, nothing for a row that was refused.
pub open spec fn line_bytes(line: Option<Seq<u8>>) -> Seq<u8> {
    match line {
        Some(bytes) => bytes,
        None => Seq::empty(),
    }
}

/// Whether every row was encoded.
pub open spec fn all_encoded(lines: Seq<Option<Seq<u8>>>) -> bool {
    forall|i: int| 0 <= i < lines.len() ==> (#[trigger] lines[i]) is Some
}

/// The encoded rows, one after the other.
pub open spec fn joined(lines: Seq<Option<Seq<u8>>>) -> Seq<u8> {
    lines.map_values(|line: Option<Seq<u8>>| line_bytes(line)).flatten()
}

/// The encodings of the rows of a table.
pub open spec fn encoded_rows(rows: Seq<Seq<Seq<char>>>) -> Seq<Option<Seq<u8>>> {
    rows.map_values(|fields: Seq<Seq<char>>| csv_record_bytes(fields))
}

/// The fields of each row of a table.
pub open spec fn row_views(rows: Seq<Vec<String>>) -> Seq<Seq<Seq<char>>> {
    Seq::new(rows.len(), |i: int| views(rows[i]@))
}

/// What serialising encoded rows yields: their bytes joined when all were
/// encoded, else the index of the first that was refused.
pub open spec fn join_outcome(lines: Seq<Option<Seq<u8>>>, out: Result<Vec<u8>, ReportError>) -> bool {
    match out {
        Ok(bytes) => all_encoded(lines) && bytes@ == joined(lines),
        Err(error) => {
            &&& error.row < lines.len()
            &&& lines[error.row as int] is None
            &&& forall|i: int| 0 <= i < error.row ==> (#[trigger] lines[i]) is Some
        },
    }
}

proof fn lemma_joined_push(lines: Seq<Option<Seq<u8>>>, line: Option<Seq<u8>>)
    ensures
        joined(lines.push(line)) == joined(lines) + line_bytes(line),
{
    let bytes_of = |line: Option<Seq<u8>>| line_bytes(line);
    assert(lines.push(line).map_values(bytes_of) =~= lines.map_values(bytes_of).push(
        line_bytes(line),
    ));
    lines.map_values(bytes_of).lemma_flatten_push(line_bytes(line));
}

/// Joins encoded rows into one table, or names the first row that is missing.
pub fn join_lines(lines: Vec<Option<Vec<u8>>>) -> (out: Result<Vec<u8>, ReportError>)
    ensures
        join_outcome(line_views(lines@), out),
{
    let ghost all = line_views(lines@);
    let mut table: Vec<u8> = Vec::new();
    let mut i: usize = 0;
    proof {
        assert(all.take(0) =~= Seq::<Option<Seq<u8>>>::empty());
        assert(all.take(0).map_values(|line: Option<Seq<u8>>| line_bytes(line))
            =~= Seq::<Seq<u8>>::empty());
        assert(joined(all.take(0)) =~= Seq::<u8>::empty());
    }
    while i < lines.len()
        invariant
            i <= lines.len(),
            all == line_views(lines@),
            forall|j: int| 0 <= j < i ==> (#[trigger] all[j]) is Some,
            table@ == joined(all.take(i as int)),
        decreases lines.len() - i,
    {
        proof {
            assert(all.take(i + 1) =~= all.take(i as int).push(all[i as int]));
            lemma_joined_push(all.take(i as int), all[i as int]);
        }
        match &lines[i] {
            Some(bytes) => {
                let mut copy = bytes.clone();
                table.append(&mut copy);
            },
            None => {
                return Err(ReportError { row: i });
            },
        }
        i += 1;
    }
    assert(all.take(i as int) =~= all);
    Ok(table)
}

/// Serialises a table: each row is encoded as one CSV record, and the
/// records follow each other in the order of the rows.
pub fn render_table(rows: &Vec<Vec<String>>) -> (out: Result<Vec<u8>, ReportError>)
    ensures
        join_outcome(encoded_rows(row_views(rows@)), out),
{
    let mut lines: Vec<Option<Vec<u8>>> = Vec::new();
    let mut i: usize = 0;
    while i < rows.len()
        invariant
            i <= rows.len(),
            lines@.len() == i,
            forall|j: int| 0 <= j < i ==> line_view(#[trigger] lines@[j]) == csv_record_bytes(
                views(rows@[j]@),
            ),
        decreases rows.len() - i,
    {
        lines.push(encode_record(&rows[i]));
        i += 1;
    }
    assert(line_views(lines@) =~= encoded_rows(row_views(rows@)));
    join_lines(lines)
}

} // verus!

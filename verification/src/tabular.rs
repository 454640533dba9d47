//! Reading a delimited export: bytes to text, text to rows of cells.

use crate::text::clone_strings;
use vstd::prelude::*;

verus! {

/// What `encoding_rs` decodes from `bytes` as Windows-1252: the text,
/// and whether malformed sequences had to be replaced.
pub uninterp spec fn windows_1252_decoding(bytes: Seq<u8>) -> (Seq<char>, bool);

/// The records that the `csv` crate reads from `content` with the given
/// delimiter and settings, each record as its fields in order; nothing
/// in the place of a record that the reader reports as an error.
pub uninterp spec fn csv_records(
    content: Seq<char>,
    delimiter: u8,
    has_headers: bool,
    flexible: bool,
) -> Seq<Option<Seq<Seq<char>>>>;

/// The text that `bytes` hold in Windows-1252.
pub open spec fn windows_1252_text(bytes: Seq<u8>) -> Seq<char> {
    windows_1252_decoding(bytes).0
}

/// Whether `bytes` hold sequences that are malformed and were replaced
/// in the text.
pub open spec fn has_malformed_bytes(bytes: Seq<u8>) -> bool {
    windows_1252_decoding(bytes).1
}

/// The records that could be read, in order: a record that is an error
/// is skipped.
pub open spec fn readable(records: Seq<Option<Seq<Seq<char>>>>) -> Seq<Seq<Seq<char>>>
    decreases records.len(),
{
    if records.len() == 0 {
        seq![]
    } else {
        match records.last() {
            Some(row) => readable(records.drop_last()).push(row),
            None => readable(records.drop_last()),
        }
    }
}

/// The rows of a semicolon-delimited, Windows-1252 encoded export whose
/// first row is a header: the header is left out, rows may differ in
/// their number of cells, and a row that cannot be read is skipped.
pub open spec fn export_rows(bytes: Seq<u8>) -> Seq<Seq<Seq<char>>> {
    readable(csv_records(windows_1252_text(bytes), 0x3B, true, true))
}

/// The largest input that can be decoded without the size of the output
/// buffer leaving the range of `usize`.
pub open spec fn decodable_len(len: nat) -> bool {
    len <= usize::MAX / 8
}

/// Records as texts.
pub open spec fn records_view(records: Seq<Option<Vec<String>>>) -> Seq<Option<Seq<Seq<char>>>> {
    Seq::new(
        records.len(),
        |i: int|
            match records[i] {
                Some(row) => Some(row.deep_view()),
                None => None,
            },
    )
}

/// `encoding_rs::Encoding::decode` on `encoding_rs::WINDOWS_1252`: the
/// decoded text and the flag that tells of malformed sequences, a
/// function of the bytes alone. A byte order mark at the start switches
/// the decoder, and malformed sequences come out as U+FFFD; the call
/// panics only where the output buffer's size overflows, which the bound
/// on the input's length excludes.
#[verifier::external_body]
fn decode_windows_1252(bytes: &[u8]) -> (r: (String, bool))
    requires
        decodable_len(bytes@.len()),
    ensures
        (r.0@, r.1) == windows_1252_decoding(bytes@),
{
    let (text, _, had_errors) = encoding_rs::WINDOWS_1252.decode(bytes);
    (text.into_owned(), had_errors)
}

/// `csv::ReaderBuilder` with `delimiter`, `has_headers` and `flexible`
/// set, reading `content` to its end with `records`: what the reader
/// gave, a function of the arguments alone, each record as its fields
/// and each error as nothing.
#[verifier::external_body]
fn read_records(content: &str, delimiter: u8, has_headers: bool, flexible: bool) -> (records: Vec<
    Option<Vec<String>>,
>)
    ensures
        records_view(records@) == csv_records(content@, delimiter, has_headers, flexible),
{
    let mut builder = csv::ReaderBuilder::new();
    builder.delimiter(delimiter).has_headers(has_headers).flexible(flexible);
    let mut reader = builder.from_reader(content.as_bytes());
    let cells = |record: csv::StringRecord| record.iter().map(|cell| cell.to_string()).collect();
    reader.records().map(|record| record.ok().map(cells)).collect()
}

/// The text of the export held in `bytes`, and whether malformed
/// sequences had to be replaced in it.
pub fn decode_export(bytes: &[u8]) -> (r: (String, bool))
    requires
        decodable_len(bytes@.len()),
    ensures
        r.0@ == windows_1252_text(bytes@),
        r.1 == has_malformed_bytes(bytes@),
{
    decode_windows_1252(bytes)
}

/// The records that could be read, in order: a record that is an error
/// is skipped.
pub fn readable_rows(records: &Vec<Option<Vec<String>>>) -> (rows: Vec<Vec<String>>)
    ensures
        rows.deep_view() == readable(records_view(records@)),
{
    let mut rows: Vec<Vec<String>> = Vec::new();
    let ghost all = records_view(records@);
    let mut i: usize = 0;
    while i < records.len()
        invariant
            i <= records.len(),
            all == records_view(records@),
            rows.deep_view() == readable(all.take(i as int)),
        decreases records.len() - i,
    {
        let ghost before = rows.deep_view();
        proof {
            assert(all.take(i + 1).drop_last() =~= all.take(i as int));
            assert(all.take(i + 1).last() == all[i as int]);
        }
        match &records[i] {
            Some(row) => {
                let copy = clone_strings(row);
                rows.push(copy);
                assert(rows.deep_view() =~= before.push(row.deep_view()));
            },
            None => {},
        }
        i += 1;
    }
    assert(all.take(records.len() as int) =~= all);
    rows
}

/// The rows of the export held in `bytes`.
pub fn read_export(bytes: &[u8]) -> (rows: Vec<Vec<String>>)
    requires
        decodable_len(bytes@.len()),
    ensures
        rows.deep_view() == export_rows(bytes@),
{
    let decoded = decode_windows_1252(bytes);
    let records = read_records(decoded.0.as_str(), 0x3B, true, true);
    readable_rows(&records)
}

} // verus!

//! CSV records written with the csv crate into memory.

use vstd::prelude::*;

verus! {

/// A csv writer with the csv crate's default settings that writes into
/// memory. What it has written is named `csv_written`, the width of its
/// first record `csv_record_width`, and the fields written so far of a
/// record it has not finished `csv_pending_fields`.
#[verifier::external_body]
pub struct CsvBuffer {
    writer: csv::Writer<Vec<u8>>,
}

#[verifier::external_type_specification]
#[verifier::external_body]
pub struct ExCsvError(csv::Error);

/// Names the bytes written so far to a csv writer over a `Vec<u8>`, those
/// still in its buffer included.
pub uninterp spec fn csv_written(w: CsvBuffer) -> Seq<u8>;

/// Names the number of fields of the first record written to a csv writer
/// over a `Vec<u8>`, `None` before any record.
pub uninterp spec fn csv_record_width(w: CsvBuffer) -> Option<nat>;

/// Names the number of fields a csv writer over a `Vec<u8>` has written of
/// a record it has not finished (the writer's `fields_written`): 0 between
/// records, more after a record was refused for its width.
pub uninterp spec fn csv_pending_fields(w: CsvBuffer) -> nat;

/// A byte that forces the writer's default settings to quote a field:
/// the delimiter `,`, the quote `"`, `\r` and `\n`.
pub open spec fn csv_special(b: u8) -> bool {
    b == 44u8 || b == 34u8 || b == 13u8 || b == 10u8
}

/// Whether the field `f` must be quoted.
pub open spec fn csv_needs_quotes(f: Seq<u8>) -> bool {
    exists|i: int| 0 <= i < f.len() && csv_special(#[trigger] f[i])
}

/// `f` with each quote doubled.
pub open spec fn csv_doubled(f: Seq<u8>) -> Seq<u8>
    decreases f.len(),
{
    if f.len() == 0 {
        f
    } else if f[0] == 34u8 {
        seq![34u8, 34u8] + csv_doubled(f.drop_first())
    } else {
        seq![f[0]] + csv_doubled(f.drop_first())
    }
}

/// A field as written: in quotes, with quotes doubled, when it must be
/// quoted; as it is otherwise.
pub open spec fn csv_field(f: Seq<u8>) -> Seq<u8> {
    if csv_needs_quotes(f) {
        seq![34u8] + csv_doubled(f) + seq![34u8]
    } else {
        f
    }
}

/// The fields of a record as written, separated by `,`.
pub open spec fn csv_joined(fields: Seq<Seq<u8>>) -> Seq<u8>
    decreases fields.len(),
{
    if fields.len() == 0 {
        seq![]
    } else if fields.len() == 1 {
        csv_field(fields[0])
    } else {
        csv_joined(fields.drop_last()) + seq![44u8] + csv_field(fields.last())
    }
}

/// A record as written: its fields and a `\n`; a record that would be empty
/// (no fields, or one empty field) is written as `""` and a `\n`.
pub open spec fn csv_record(fields: Seq<Seq<u8>>) -> Seq<u8> {
    if csv_joined(fields).len() == 0 {
        seq![34u8, 34u8, 10u8]
    } else {
        csv_joined(fields) + seq![10u8]
    }
}

/// The UTF-8 bytes of each text.
pub open spec fn utf8_fields(fields: Seq<Seq<char>>) -> Seq<Seq<u8>> {
    fields.map_values(|s: Seq<char>| vstd::utf8::encode_utf8(s))
}

/// The texts of a record's fields.
pub open spec fn field_texts(fields: Seq<String>) -> Seq<Seq<char>> {
    fields.map_values(|s: String| s@)
}

/// Records written one after the other.
pub open spec fn csv_document(records: Seq<Seq<Seq<char>>>) -> Seq<u8>
    decreases records.len(),
{
    if records.len() == 0 {
        seq![]
    } else {
        csv_document(records.drop_last()) + csv_record(utf8_fields(records.last()))
    }
}

/// Calls `csv::Writer::from_writer(Vec::new())`: a writer with the default
/// settings (delimiter `,`, quote `"` doubled inside quoted fields, quoting
/// only where necessary, terminator `\n`, records of one width) that has
/// written nothing.
#[verifier::external_body]
fn csv_writer() -> (w: CsvBuffer)
    ensures
        csv_written(w) == Seq::<u8>::empty(),
        csv_record_width(w) is None,
        csv_pending_fields(w) == 0,
{
    CsvBuffer { writer: csv::Writer::from_writer(Vec::new()) }
}

/// Calls `csv::Writer::write_record` with the fields' bytes. In the csv
/// crate's source, the writer writes the fields (with a `,` before each but
/// the first of the record), then ends the record; writing into a `Vec<u8>`
/// fails only when, at the end of the record, the number of fields written
/// differs from the first record's, and then the record is left unfinished.
/// The contract states, from a writer between records, when the call
/// succeeds and what it writes; after a failure it states only that a
/// success ends the record. What is written by a failing call is left
/// unsaid.
#[verifier::external_body]
fn csv_write_record(w: &mut CsvBuffer, fields: &Vec<String>) -> (r: Result<(), csv::Error>)
    ensures
        csv_pending_fields(*old(w)) == 0 ==> (r is Ok <==> (csv_record_width(*old(w)) is None
            || csv_record_width(*old(w)) == Some(fields@.len()))),
        csv_pending_fields(*old(w)) == 0 && r is Ok ==> csv_written(*final(w)) == csv_written(
            *old(w),
        ) + csv_record(utf8_fields(field_texts(fields@))),
        csv_pending_fields(*old(w)) == 0 && r is Ok ==> csv_record_width(*final(w)) == Some(
            fields@.len(),
        ),
        r is Ok ==> csv_pending_fields(*final(w)) == 0,
{
    w.writer.write_record(fields.iter())
}

/// Calls `csv::Writer::into_inner`, which flushes the writer's buffer into
/// the `Vec<u8>` and hands it back; writing into a `Vec<u8>` does not fail,
/// so the result is always `Some` (`Ok` in the crate's terms).
#[verifier::external_body]
fn csv_into_bytes(w: CsvBuffer) -> (r: Option<Vec<u8>>)
    ensures
        r is Some,
        r matches Some(bytes) ==> bytes@ == csv_written(w),
{
    match w.writer.into_inner() {
        Ok(bytes) => Some(bytes),
        Err(_) => None,
    }
}

/// The records, each of `width` fields, written as CSV.
pub(crate) fn csv_encode(records: &Vec<Vec<String>>, width: usize) -> (r: Vec<u8>)
    requires
        forall|i: int| 0 <= i < records@.len() ==> (#[trigger] records@[i])@.len() == width,
    ensures
        r@ == csv_document(records@.map_values(|rec: Vec<String>| field_texts(rec@))),
{
    let ghost docs = records@.map_values(|rec: Vec<String>| field_texts(rec@));
    let mut w = csv_writer();
    let mut i: usize = 0;
    while i < records.len()
        invariant
            i <= records@.len(),
            docs == records@.map_values(|rec: Vec<String>| field_texts(rec@)),
            forall|k: int| 0 <= k < records@.len() ==> (#[trigger] records@[k])@.len() == width,
            csv_written(w) == csv_document(docs.take(i as int)),
            i == 0 ==> csv_record_width(w) is None,
            i > 0 ==> csv_record_width(w) == Some(width as nat),
            csv_pending_fields(w) == 0,
        decreases records@.len() - i,
    {
        let result = csv_write_record(&mut w, &records[i]);
        match result {
            Ok(()) => {},
            Err(_) => {
                assert(false);
            },
        }
        proof {
            assert(docs.take(i + 1).drop_last() =~= docs.take(i as int));
            assert(docs.take(i + 1).last() == field_texts(records@[i as int]@));
        }
        i = i + 1;
    }
    assert(docs.take(records@.len() as int) =~= docs);
    match csv_into_bytes(w) {
        Some(bytes) => bytes,
        None => {
            assert(false);
            Vec::new()
        },
    }
}

} // verus!

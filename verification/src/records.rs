//! The rows of a CSV text.
use vstd::prelude::*;

use crate::sheet::rows_view;
use crate::text::texts;

verus! {

/// A reader of CSV text, of the crate `csv`.
#[verifier::external_type_specification]
#[verifier::external_body]
#[verifier::reject_recursive_types(R)]
pub struct ExReader<R>(csv::Reader<R>);

/// The records of a CSV text without headers, each by its fields, or by the text of the error
/// that stands in its place.
pub uninterp spec fn csv_records(body: Seq<char>) -> Seq<Result<Seq<Seq<char>>, Seq<char>>>;

/// The records that a reader has still to give.
pub uninterp spec fn remaining_records(reader: csv::Reader<&[u8]>) -> Seq<
    Result<Seq<Seq<char>>, Seq<char>>,
>;

/// Opens a CSV text, by `csv::ReaderBuilder::from_reader` on its bytes with headers switched
/// off and every other setting as `csv` has it.
///
/// Taken on trust: which records the reader will give depends on the text alone. The grammar of
/// CSV, and the limit that all records have as many fields as the first, are those of the crate
/// and are not spelled out.
#[verifier::external_body]
fn open_csv<'a>(body: &'a str) -> (r: csv::Reader<&'a [u8]>)
    ensures
        remaining_records(r) == csv_records(body@),
{
    csv::ReaderBuilder::new().has_headers(false).from_reader(body.as_bytes())
}

/// A record, or the text of an error, by its characters.
pub open spec fn record_view(record: Result<Vec<String>, String>) -> Result<
    Seq<Seq<char>>,
    Seq<char>,
> {
    match record {
        Ok(row) => Ok(texts(row@)),
        Err(message) => Err(message@),
    }
}

/// The next record of a CSV text, by `csv::Reader::records` and the iterator's `next`; an error
/// is given by the text that it displays.
///
/// Taken on trust: the reader gives the records that it has still to give, one at a time and
/// from the front, and nothing once they are used up.
#[verifier::external_body]
fn next_record(reader: &mut csv::Reader<&[u8]>) -> (r: Option<Result<Vec<String>, String>>)
    ensures
        remaining_records(*old(reader)).len() == 0 ==> r is None && remaining_records(
            *final(reader),
        ) == remaining_records(*old(reader)),
        remaining_records(*old(reader)).len() > 0 ==> (r matches Some(record) && record_view(record)
            == remaining_records(*old(reader)).first() && remaining_records(*final(reader))
            == remaining_records(*old(reader)).drop_first()),
{
    match reader.records().next() {
        Some(Ok(record)) => Some(Ok(record.iter().map(|field| field.to_string()).collect())),
        Some(Err(error)) => Some(Err(error.to_string())),
        None => None,
    }
}

/// All records, or the error of the first that has one.
pub open spec fn collected(records: Seq<Result<Seq<Seq<char>>, Seq<char>>>) -> Result<
    Seq<Seq<Seq<char>>>,
    Seq<char>,
>
    decreases records.len(),
{
    if records.len() == 0 {
        Ok(Seq::empty())
    } else {
        match (records.first(), collected(records.drop_first())) {
            (Err(message), _) => Err(message),
            (Ok(row), Ok(rows)) => Ok(seq![row] + rows),
            (Ok(row), Err(message)) => Err(message),
        }
    }
}

/// Rows, or the text of an error, by their characters.
pub open spec fn rows_result_view(result: Result<Vec<Vec<String>>, String>) -> Result<
    Seq<Seq<Seq<char>>>,
    Seq<char>,
> {
    match result {
        Ok(rows) => Ok(rows_view(rows@)),
        Err(message) => Err(message@),
    }
}

/// Adds a record to the rows; an error is handed back and leaves the rows as they are.
pub fn add_record(rows: &mut Vec<Vec<String>>, record: Result<Vec<String>, String>) -> (r: Result<
    (),
    String,
>)
    ensures
        match record_view(record) {
            Ok(row) => r is Ok && rows_view(final(rows)@) == rows_view(old(rows)@).push(row),
            Err(message) => r matches Err(m) && m@ == message && final(rows)@ == old(rows)@,
        },
{
    match record {
        Ok(row) => {
            rows.push(row);
            proof {
                assert(rows_view(rows@) =~= rows_view(old(rows)@).push(texts(row@)));
            }
            Ok(())
        },
        Err(message) => Err(message),
    }
}

/// The rows of the CSV text `body`, or the text of the first error in it.
pub fn read_rows(body: &str) -> (r: Result<Vec<Vec<String>>, String>)
    ensures
        rows_result_view(r) == collected(csv_records(body@)),
{
    let mut reader: csv::Reader<&[u8]> = open_csv(body);
    let mut rows: Vec<Vec<String>> = Vec::new();
    let ghost all = csv_records(body@);
    proof {
        assert(rows_view(rows@) =~= Seq::empty());
        if let Ok(rest) = collected(all) {
            assert(rows_view(rows@) + rest =~= rest);
        }
    }
    loop
        invariant
            all == csv_records(body@),
            match collected(remaining_records(reader)) {
                Ok(rest) => collected(all) == Ok::<Seq<Seq<Seq<char>>>, Seq<char>>(
                    rows_view(rows@) + rest,
                ),
                Err(message) => collected(all) == Err::<Seq<Seq<Seq<char>>>, Seq<char>>(message),
            },
        decreases remaining_records(reader).len(),
    {
        let ghost before = rows@;
        let ghost rest = remaining_records(reader);
        match next_record(&mut reader) {
            Some(record) => match add_record(&mut rows, record) {
                Ok(()) => {
                    proof {
                        if let Ok(tail) = collected(rest.drop_first()) {
                            let row = rest.first()->Ok_0;
                            assert(rows_view(before) + (seq![row] + tail) =~= rows_view(rows@)
                                + tail);
                        }
                    }
                },
                Err(message) => {
                    return Err(message);
                },
            },
            None => {
                proof {
                    assert(rows_view(rows@) + Seq::empty() =~= rows_view(rows@));
                }
                return Ok(rows);
            },
        }
    }
}

/// If every record can be read, every record is a row, in order.
pub proof fn readable_records_are_all_rows(records: Seq<Result<Seq<Seq<char>>, Seq<char>>>)
    requires
        forall|i: int| 0 <= i < records.len() ==> (#[trigger] records[i]) is Ok,
    ensures
        collected(records) matches Ok(rows) && rows.len() == records.len() && forall|i: int|
            0 <= i < rows.len() ==> records[i] == Ok::<Seq<Seq<char>>, Seq<char>>(
                #[trigger] rows[i],
            ),
    decreases records.len(),
{
    if records.len() > 0 {
        let t = records.drop_first();
        assert forall|i: int| 0 <= i < t.len() implies (#[trigger] t[i]) is Ok by {
            assert(t[i] == records[i + 1]);
        }
        readable_records_are_all_rows(t);
        let rows = collected(records)->Ok_0;
        let rest = collected(t)->Ok_0;
        assert forall|i: int| 0 <= i < rows.len() implies records[i] == Ok::<
            Seq<Seq<char>>,
            Seq<char>,
        >(#[trigger] rows[i]) by {
            if i > 0 {
                assert(rows[i] == rest[i - 1]);
                assert(records[i] == t[i - 1]);
            }
        }
    }
}

/// The first record that cannot be read decides: no row is shown and its error is reported.
pub proof fn first_error_is_reported(records: Seq<Result<Seq<Seq<char>>, Seq<char>>>, i: int)
    requires
        0 <= i < records.len(),
        records[i] is Err,
        forall|j: int| 0 <= j < i ==> (#[trigger] records[j]) is Ok,
    ensures
        collected(records) == Err::<Seq<Seq<Seq<char>>>, Seq<char>>(records[i]->Err_0),
    decreases records.len(),
{
    if i > 0 {
        let t = records.drop_first();
        assert forall|j: int| 0 <= j < i - 1 implies (#[trigger] t[j]) is Ok by {
            assert(t[j] == records[j + 1]);
        }
        first_error_is_reported(t, i - 1);
        assert(records[0] is Ok);
    }
}

} // verus!

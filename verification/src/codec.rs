//! CSV documents read into rows, or into records keyed by the header.
use vstd::prelude::*;
use crate::text::views;
use csv::ReaderBuilder;
use std::io::Cursor;

verus! {

/// A CSV document that could not be read; the message of the reader's error.
#[derive(Debug)]
pub struct CsvError {
    pub message: String,
}

/// The fields of each record, read with no header, double quotes doubled inside quoted
/// fields, and records of any length; `None` when reading fails.
pub uninterp spec fn csv_rows(data: Seq<u8>) -> Option<Seq<Seq<Seq<char>>>>;

/// The header and the records, read with the first record as header and all records of the
/// header's length; `None` when reading fails.
pub uninterp spec fn csv_table(data: Seq<u8>) -> Option<(Seq<Seq<char>>, Seq<Seq<Seq<char>>>)>;

pub open spec fn row_views(rows: Seq<Vec<String>>) -> Seq<Seq<Seq<char>>> {
    rows.map_values(|r: Vec<String>| views(r@))
}

/// `csv::ReaderBuilder` with `has_headers(false)`, `double_quote(true)`, `flexible(true)`,
/// then `records`, each field as a `String`; the first error ends reading.
#[verifier::external_body]
fn read_rows(data: &[u8]) -> (r: Result<Vec<Vec<String>>, String>)
    ensures
        r is Ok <==> csv_rows(data@) is Some,
        r matches Ok(v) ==> Some(row_views(v@)) == csv_rows(data@),
{
    let mut rdr = ReaderBuilder::new().has_headers(false).double_quote(true).flexible(true).from_reader(
        Cursor::new(data),
    );
    rdr.records().map(|rec| rec.map(|rec| rec.iter().map(|f| f.to_string()).collect())).collect::<
        Result<Vec<Vec<String>>, _>,
    >().map_err(|e| e.to_string())
}

/// `csv::ReaderBuilder` with `double_quote(true)` and the defaults otherwise (a header, and
/// records that must all be as long as the first record read, the header), then `headers`
/// and `records`. As the reader refuses records of another length, each record it gives has
/// as many fields as the header.
#[verifier::external_body]
fn read_table(data: &[u8]) -> (r: Result<(Vec<String>, Vec<Vec<String>>), String>)
    ensures
        r is Ok <==> csv_table(data@) is Some,
        r matches Ok((h, v)) ==> Some((views(h@), row_views(v@))) == csv_table(data@),
        r matches Ok((h, v)) ==> forall|i: int| 0 <= i < v@.len() ==> (#[trigger] v@[i])@.len()
            == h@.len(),
{
    let mut rdr = ReaderBuilder::new().double_quote(true).from_reader(Cursor::new(data));
    let headers: Vec<String> = match rdr.headers() {
        Ok(h) => h.iter().map(|f| f.to_string()).collect(),
        Err(e) => return Err(e.to_string()),
    };
    let rows = rdr.records().map(|rec| rec.map(|rec| rec.iter().map(|f| f.to_string()).collect())).collect::<
        Result<Vec<Vec<String>>, _>,
    >().map_err(|e| e.to_string())?;
    Ok((headers, rows))
}

/// The rows of a CSV document, records of any length, no header.
pub fn csv_from_string(data: &[u8]) -> (r: Result<Vec<Vec<String>>, CsvError>)
    ensures
        r is Ok <==> csv_rows(data@) is Some,
        r matches Ok(v) ==> Some(row_views(v@)) == csv_rows(data@),
{
    match read_rows(data) {
        Ok(v) => Ok(v),
        Err(m) => Err(CsvError { message: m }),
    }
}

/// Each record paired field by field with the header's names.
pub open spec fn keyed_records(header: Seq<Seq<char>>, rows: Seq<Seq<Seq<char>>>) -> Seq<
    Seq<(Seq<char>, Seq<char>)>,
> {
    rows.map_values(
        |row: Seq<Seq<char>>| Seq::new(row.len(), |i: int| (header[i], row[i])),
    )
}

pub open spec fn pairs_view(v: Seq<(String, String)>) -> Seq<(Seq<char>, Seq<char>)> {
    v.map_values(|p: (String, String)| (p.0@, p.1@))
}

pub open spec fn pair_views(v: Seq<Vec<(String, String)>>) -> Seq<Seq<(Seq<char>, Seq<char>)>> {
    v.map_values(|r: Vec<(String, String)>| pairs_view(r@))
}

/// The records of a CSV document with a header, each as (name, field) pairs in order.
pub fn csv_to_list_of_tables(data: &[u8]) -> (r: Result<Vec<Vec<(String, String)>>, CsvError>)
    ensures
        r is Ok <==> csv_table(data@) is Some,
        r matches Ok(v) ==> pair_views(v@) == keyed_records(
            csv_table(data@).unwrap().0,
            csv_table(data@).unwrap().1,
        ),
{
    let (names, rows) = match read_table(data) {
        Ok(t) => t,
        Err(m) => return Err(CsvError { message: m }),
    };
    let ghost hv = views(names@);
    let ghost rv = row_views(rows@);
    let mut out: Vec<Vec<(String, String)>> = Vec::new();
    let mut i: usize = 0;
    while i < rows.len()
        invariant
            i <= rows.len(),
            hv == views(names@),
            rv == row_views(rows@),
            forall|k: int| 0 <= k < rows@.len() ==> (#[trigger] rows@[k])@.len() == names@.len(),
            pair_views(out@) == keyed_records(hv, rv.take(i as int)),
        decreases rows.len() - i,
    {
        let row = &rows[i];
        let mut pairs: Vec<(String, String)> = Vec::new();
        let mut j: usize = 0;
        while j < row.len()
            invariant
                j <= row.len(),
                row@.len() == names@.len(),
                hv == views(names@),
                pairs_view(pairs@) == Seq::new(j as nat, |k: int| (hv[k], views(row@)[k])),
            decreases row.len() - j,
        {
            let ghost before = pairs@;
            assert(pairs_view(before).len() == before.len());
            assert(before.len() == j);
            pairs.push((names[j].clone(), row[j].clone()));
            assert(pairs_view(pairs@) =~= Seq::new((j + 1) as nat, |k: int| (hv[k], views(row@)[k])))
                by {
                assert(pairs@ == before.push((names@[j as int], row@[j as int])));
                assert forall|k: int| 0 <= k < j + 1 implies #[trigger] pairs_view(pairs@)[k] == (
                hv[k], views(row@)[k]) by {
                    if k < j {
                        assert(pairs@[k] == before[k]);
                        assert(pairs_view(before)[k] == (hv[k], views(row@)[k]));
                    } else {
                        assert(hv[k] == names@[k]@);
                        assert(views(row@)[k] == row@[k]@);
                    }
                }
            }
            j = j + 1;
        }
        let ghost before_out = out@;
        out.push(pairs);
        proof {
            assert(rv[i as int] == views(rows@[i as int]@));
            assert(rv.take(i + 1) == rv.take(i as int).push(rv[i as int]));
            assert(pair_views(out@) == pair_views(before_out).push(
                keyed_records(hv, seq![rv[i as int]])[0],
            ));
            assert(keyed_records(hv, rv.take(i + 1)) == keyed_records(hv, rv.take(i as int)).push(
                keyed_records(hv, seq![rv[i as int]])[0],
            ));
        }
        i = i + 1;
    }
    assert(rv.take(rows.len() as int) == rv);
    Ok(out)
}

} // verus!

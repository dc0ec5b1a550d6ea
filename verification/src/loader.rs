//! Reading an inventory from the CSV export of an item manager.

use vstd::prelude::*;
use crate::error::AdvisorError;
use crate::number::{parse_i8, parse_u64, parsed_i8, parsed_u64};
use crate::record::{record_views, same_text, Class, Kind, Record, RecordView};
use crate::stats::Stats;

verus! {

/// The column of the name.
pub const NAME_COLUMN: usize = 0;

/// The column of the identifier.
pub const ID_COLUMN: usize = 2;

/// The column of the rarity tier.
pub const TIER_COLUMN: usize = 4;

/// The column of the slot.
pub const KIND_COLUMN: usize = 5;

/// The column of the class.
pub const CLASS_COLUMN: usize = 7;

/// The column of the first of the six stats; the others follow it.
pub const STATS_COLUMN: usize = 27;

/// The number of columns that a row must have.
pub const COLUMN_COUNT: usize = 33;

/// What the `csv` crate reads from a text with its default settings: the
/// rows up to the end or to the first one it reports an error for, each as
/// its fields, and whether such an error ended the reading.
pub uninterp spec fn csv_rows(data: Seq<u8>) -> (Seq<Seq<Seq<char>>>, bool);

/// What came out of reading rows: the rows as text, and whether an error
/// came with them.
pub open spec fn rows_read(r: (Vec<Vec<String>>, Option<csv::Error>)) -> (
    Seq<Seq<Seq<char>>>,
    bool,
) {
    (r.0.deep_view(), r.1 is Some)
}

/// The stat that a field holds: the number it writes, or zero.
pub open spec fn stat_of(field: Seq<char>) -> i8 {
    match parsed_i8(field) {
        Some(v) => v,
        None => 0,
    }
}

/// The identifier that a field holds: the number it writes, or zero.
pub open spec fn id_of(field: Seq<char>) -> u64 {
    match parsed_u64(field) {
        Some(v) => v,
        None => 0,
    }
}

/// The six stats of a row.
pub open spec fn stats_of_row(row: Seq<Seq<char>>) -> Stats {
    Stats {
        mobility: stat_of(row[STATS_COLUMN as int]),
        resilience: stat_of(row[STATS_COLUMN + 1]),
        recovery: stat_of(row[STATS_COLUMN + 2]),
        discipline: stat_of(row[STATS_COLUMN + 3]),
        intelligence: stat_of(row[STATS_COLUMN + 4]),
        strength: stat_of(row[STATS_COLUMN + 5]),
    }
}

/// The piece that a row describes, if the row has all columns and names a
/// known slot and class.
pub open spec fn record_of_row(row: Seq<Seq<char>>) -> Option<RecordView> {
    if row.len() < COLUMN_COUNT {
        None
    } else {
        match (Kind::named(row[KIND_COLUMN as int]), Class::named(row[CLASS_COLUMN as int])) {
            (Some(armor), Some(class)) => Some(
                RecordView {
                    name: row[NAME_COLUMN as int],
                    id: id_of(row[ID_COLUMN as int]),
                    armor,
                    class,
                    exotic: row[TIER_COLUMN as int] == "Exotic"@,
                    stat_array: stats_of_row(row),
                },
            ),
            _ => None,
        }
    }
}

/// Every row describes a piece.
pub open spec fn rows_valid(rows: Seq<Seq<Seq<char>>>) -> bool {
    forall|i: int| 0 <= i < rows.len() ==> record_of_row(#[trigger] rows[i]) is Some
}

/// The pieces that the rows describe, in row order.
pub open spec fn records_of_rows(rows: Seq<Seq<Seq<char>>>) -> Seq<RecordView> {
    rows.map_values(|row: Seq<Seq<char>>| record_of_row(row).unwrap())
}

/// Calls `csv::Reader::from_reader` on the bytes and walks `records()` to
/// the end or to the first error, copying each field of each record into a
/// `String`. The reader has the crate's default settings, so the first line
/// is taken as the header and is not among the rows. The contract only
/// gives the outcome its name, `csv_rows`.
#[verifier::external_body]
fn read_rows(data: &[u8]) -> (r: (Vec<Vec<String>>, Option<csv::Error>))
    ensures
        rows_read(r) == csv_rows(data@),
{
    let mut reader = csv::Reader::from_reader(data);
    let mut rows: Vec<Vec<String>> = Vec::new();
    for record in reader.records() {
        match record {
            Ok(record) => rows.push(record.iter().map(String::from).collect()),
            Err(e) => return (rows, Some(e)),
        }
    }
    (rows, None)
}

/// Reads a stat; a field that writes no `i8` counts as zero.
pub fn stat_from(field: &str) -> (v: i8)
    ensures
        v == stat_of(field@),
{
    match parse_i8(field) {
        Some(v) => v,
        None => 0,
    }
}

/// Builds the piece that one row describes. A row with fewer columns than
/// needed, or with an unknown slot or class, is an `InvalidParse`.
pub fn record_from_row(row: &Vec<String>) -> (r: Result<Record, AdvisorError>)
    ensures
        match record_of_row(row.deep_view()) {
            Some(v) => r is Ok && r->Ok_0@ == v,
            None => r == Err::<Record, AdvisorError>(AdvisorError::InvalidParse),
        },
{
    let ghost text = row.deep_view();
    if row.len() < COLUMN_COUNT {
        return Err(AdvisorError::InvalidParse);
    }
    assert(forall|i: int| 0 <= i < row.len() ==> text[i] == row@[i]@);
    let armor = match Kind::from_str(row[KIND_COLUMN].as_str()) {
        Ok(armor) => armor,
        Err(_) => {
            return Err(AdvisorError::InvalidParse);
        },
    };
    let class = match Class::from_str(row[CLASS_COLUMN].as_str()) {
        Ok(class) => class,
        Err(_) => {
            return Err(AdvisorError::InvalidParse);
        },
    };
    let id = match parse_u64(row[ID_COLUMN].as_str()) {
        Some(id) => id,
        None => 0,
    };
    let stat_array = Stats {
        mobility: stat_from(row[STATS_COLUMN].as_str()),
        resilience: stat_from(row[STATS_COLUMN + 1].as_str()),
        recovery: stat_from(row[STATS_COLUMN + 2].as_str()),
        discipline: stat_from(row[STATS_COLUMN + 3].as_str()),
        intelligence: stat_from(row[STATS_COLUMN + 4].as_str()),
        strength: stat_from(row[STATS_COLUMN + 5].as_str()),
    };
    Ok(
        Record {
            name: row[NAME_COLUMN].clone(),
            id,
            armor,
            class,
            exotic: same_text(row[TIER_COLUMN].as_str(), "Exotic"),
            stat_array,
        },
    )
}

/// Builds the inventory that the rows describe, in row order. If any row
/// describes no piece, the whole is an `InvalidParse`.
pub fn records_from_rows(rows: &Vec<Vec<String>>) -> (r: Result<Vec<Record>, AdvisorError>)
    ensures
        rows_valid(rows.deep_view()) ==> r is Ok && record_views(r->Ok_0@) == records_of_rows(
            rows.deep_view(),
        ),
        !rows_valid(rows.deep_view()) ==> r == Err::<Vec<Record>, AdvisorError>(
            AdvisorError::InvalidParse,
        ),
{
    let ghost text = rows.deep_view();
    let mut items: Vec<Record> = Vec::new();
    let mut i: usize = 0;
    while i < rows.len()
        invariant
            i <= rows.len(),
            text == rows.deep_view(),
            items@.len() == i,
            forall|k: int| 0 <= k < i ==> record_of_row(#[trigger] text[k]) == Some(items@[k]@),
        decreases rows.len() - i,
    {
        assert(text[i as int] == rows@[i as int].deep_view());
        match record_from_row(&rows[i]) {
            Ok(item) => {
                items.push(item);
            },
            Err(_) => {
                return Err(AdvisorError::InvalidParse);
            },
        }
        i += 1;
    }
    assert(record_views(items@) =~= records_of_rows(text));
    Ok(items)
}

/// The outcome of an import, given the rows that were read and whether an
/// error ended the reading. The first failure decides: a row that describes
/// no piece comes before the error that followed it.
pub open spec fn import_outcome(rows: Seq<Seq<Seq<char>>>, failed: bool) -> Option<
    Seq<RecordView>,
> {
    if rows_valid(rows) && !failed {
        Some(records_of_rows(rows))
    } else {
        None
    }
}

/// Builds the inventory from what was read: the rows, and the error that
/// ended the reading, if one did. A row that describes no piece gives
/// `InvalidParse`; otherwise the error, if there is one, is handed on as `CSV`.
pub fn records_from_read(rows: &Vec<Vec<String>>, error: Option<csv::Error>) -> (r: Result<
    Vec<Record>,
    AdvisorError,
>)
    ensures
        match import_outcome(rows.deep_view(), error is Some) {
            Some(views) => r is Ok && record_views(r->Ok_0@) == views,
            None => r is Err,
        },
        !rows_valid(rows.deep_view()) ==> r == Err::<Vec<Record>, AdvisorError>(
            AdvisorError::InvalidParse,
        ),
        rows_valid(rows.deep_view()) && error is Some ==> r == Err::<Vec<Record>, AdvisorError>(
            AdvisorError::CSV(error->Some_0),
        ),
{
    match records_from_rows(rows) {
        Ok(items) => match error {
            Some(e) => Err(AdvisorError::CSV(e)),
            None => Ok(items),
        },
        Err(e) => Err(e),
    }
}

/// Reads an inventory from the bytes of a CSV export. The first line is the
/// header; every other line is one piece, in file order. The first failure
/// decides the error: a row that describes no piece gives `InvalidParse`,
/// text that is no well-formed CSV gives `CSV`.
pub fn import_items(data: &[u8]) -> (r: Result<Vec<Record>, AdvisorError>)
    ensures
        match import_outcome(csv_rows(data@).0, csv_rows(data@).1) {
            Some(views) => r is Ok && record_views(r->Ok_0@) == views,
            None => r is Err,
        },
        !rows_valid(csv_rows(data@).0) ==> r == Err::<Vec<Record>, AdvisorError>(
            AdvisorError::InvalidParse,
        ),
        rows_valid(csv_rows(data@).0) && csv_rows(data@).1 ==> r is Err && r->Err_0 is CSV,
{
    let (rows, error) = read_rows(data);
    records_from_read(&rows, error)
}

} // verus!

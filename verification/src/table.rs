//! From the text of a queue listing to a table of jobs.
//!
//! The first line of a listing names the fields, every further line is one
//! job. [`table_of`] says which table a text stands for; [`parse_text`] and
//! [`parse`] compute it.

use crate::strmap::StrMap;
use crate::text::{decode_lossy, lines, lossy_text, split, split_lines, split_text, views};
use vstd::prelude::*;
use vstd::utf8::{decode_utf8, valid_utf8};

verus! {

/// One job: field name to field value, both as they stood in the listing.
pub type JobRecord = StrMap<String>;

/// The jobs of one listing, each under its identifier.
pub type JobTable = StrMap<JobRecord>;

/// What a [`JobRecord`] stands for.
pub type Record = Map<Seq<char>, Seq<char>>;

/// What a [`JobTable`] stands for.
pub type Table = Map<Seq<char>, Record>;

/// Separates the fields of a line.
pub const FIELD_SEPARATOR: char = '|';

/// The name of the field that identifies a job.
pub const ID_FIELD: &'static str = "JOBID";

/// The key of a job without an identifier.
pub const UNKNOWN_ID: &'static str = "UNKNOWN";

/// The record of a line with the fields `values` under a header with the
/// fields `names`: each named column that the line reaches gives one entry,
/// and of two columns with one name the later one counts.
pub open spec fn record_of(names: Seq<Seq<char>>, values: Seq<Seq<char>>) -> Record
    decreases names.len(),
{
    if names.len() == 0 {
        Map::empty()
    } else {
        let last = names.len() - 1;
        let before = record_of(names.drop_last(), values);
        if last < values.len() && names[last].len() > 0 {
            before.insert(names[last], values[last])
        } else {
            before
        }
    }
}

/// The key under which `record` is filed: its identifier, or
/// [`UNKNOWN_ID`] where the identifier field is missing or empty.
pub open spec fn key_of(record: Record) -> Seq<char> {
    if record.contains_key(ID_FIELD@) && record[ID_FIELD@].len() > 0 {
        record[ID_FIELD@]
    } else {
        UNKNOWN_ID@
    }
}

/// The record of the line `row` under the header fields `names`.
pub open spec fn row_record(names: Seq<Seq<char>>, row: Seq<char>) -> Record {
    record_of(names, split(row, FIELD_SEPARATOR))
}

/// The key of the line `row` under the header fields `names`.
pub open spec fn row_key(names: Seq<Seq<char>>, row: Seq<char>) -> Seq<char> {
    key_of(row_record(names, row))
}

/// The table of the lines `rows` under the header fields `names`: the
/// records are filed in order, a later one replacing an earlier one with the
/// same key.
pub open spec fn table_of_rows(names: Seq<Seq<char>>, rows: Seq<Seq<char>>) -> Table
    decreases rows.len(),
{
    if rows.len() == 0 {
        Map::empty()
    } else {
        table_of_rows(names, rows.drop_last()).insert(
            row_key(names, rows.last()),
            row_record(names, rows.last()),
        )
    }
}

/// The table that the listing `text` stands for. A text without a first
/// line stands for the empty table.
pub open spec fn table_of(text: Seq<char>) -> Table {
    let all = lines(text);
    if all.len() == 0 {
        Map::empty()
    } else {
        table_of_rows(split(all[0], FIELD_SEPARATOR), all.skip(1))
    }
}

/// A record holds `name` exactly when `name` is not empty and names a
/// column that the line reaches. So no record has an entry with an empty
/// name, and a line shorter than the header gives no entry for a column
/// beyond its end.
pub proof fn law_record_keys(names: Seq<Seq<char>>, values: Seq<Seq<char>>, name: Seq<char>)
    ensures
        record_of(names, values).contains_key(name) <==> name.len() > 0 && exists|i: int|
            0 <= i < names.len() && i < values.len() && #[trigger] names[i] == name,
    decreases names.len(),
{
    if names.len() > 0 {
        let front = names.drop_last();
        law_record_keys(front, values, name);
        // The columns of `names` are those of `front` and the last one.
        assert(forall|i: int|
            #![trigger front[i]]
            #![trigger names[i]]
            0 <= i < front.len() ==> front[i] == names[i]);
    }
}

/// The entry of a named column that the line reaches holds the line's value
/// in that column, unless a later column that the line reaches has the same
/// name.
pub proof fn law_record_value(names: Seq<Seq<char>>, values: Seq<Seq<char>>, column: int)
    requires
        0 <= column < names.len(),
        column < values.len(),
        names[column].len() > 0,
        forall|j: int|
            column < j < names.len() && j < values.len() ==> names[j] != names[column],
    ensures
        record_of(names, values).contains_key(names[column]),
        record_of(names, values)[names[column]] == values[column],
    decreases names.len(),
{
    if column < names.len() - 1 {
        // The columns before the last one are in the same case.
        let front = names.drop_last();
        assert(forall|j: int| 0 <= j < front.len() ==> front[j] == names[j]);
        law_record_value(front, values, column);
    }
}

/// Every value of a record is one of the line's values: an entry is never
/// filled with anything else, and never with an empty text that the line
/// did not hold.
pub proof fn law_record_values_from_line(
    names: Seq<Seq<char>>,
    values: Seq<Seq<char>>,
    name: Seq<char>,
)
    requires
        record_of(names, values).contains_key(name),
    ensures
        exists|i: int|
            0 <= i < names.len() && i < values.len() && names[i] == name && record_of(
                names,
                values,
            )[name] == #[trigger] values[i],
    decreases names.len(),
{
    let last = names.len() - 1;
    if !(last < values.len() && names[last].len() > 0 && names[last] == name) {
        // The entry stems from a column before the last one.
        let front = names.drop_last();
        law_record_values_from_line(front, values, name);
        assert(forall|i: int| 0 <= i < front.len() ==> front[i] == names[i]);
    }
}

/// A line shorter than the header gives no entry for a column beyond its
/// end, provided that no column which the line does reach has the same
/// name.
pub proof fn law_short_line(names: Seq<Seq<char>>, values: Seq<Seq<char>>, column: int)
    requires
        values.len() <= column < names.len(),
        forall|j: int| 0 <= j < values.len() && j < names.len() ==> names[j] != names[column],
    ensures
        !record_of(names, values).contains_key(names[column]),
{
    law_record_keys(names, values, names[column]);
}

/// A line is filed under its value in the identifier column, the last one
/// that it reaches if the header names several, unless that value is empty:
/// then it is filed under [`UNKNOWN_ID`].
pub proof fn law_key_is_identifier(names: Seq<Seq<char>>, values: Seq<Seq<char>>, column: int)
    requires
        0 <= column < names.len(),
        column < values.len(),
        names[column] == ID_FIELD@,
        forall|j: int| column < j < names.len() && j < values.len() ==> names[j] != ID_FIELD@,
    ensures
        values[column].len() > 0 ==> key_of(record_of(names, values)) == values[column],
        values[column].len() == 0 ==> key_of(record_of(names, values)) == UNKNOWN_ID@,
{
    reveal_strlit("JOBID");
    law_record_value(names, values, column);
}

/// A line that reaches no identifier column is filed under
/// [`UNKNOWN_ID`].
pub proof fn law_key_without_identifier(names: Seq<Seq<char>>, values: Seq<Seq<char>>)
    requires
        forall|j: int| 0 <= j < names.len() && j < values.len() ==> names[j] != ID_FIELD@,
    ensures
        key_of(record_of(names, values)) == UNKNOWN_ID@,
{
    law_record_keys(names, values, ID_FIELD@);
}

/// A table has an entry under `id` exactly when one of the lines has the
/// key `id`.
pub proof fn law_table_keys(names: Seq<Seq<char>>, rows: Seq<Seq<char>>, id: Seq<char>)
    ensures
        table_of_rows(names, rows).contains_key(id) <==> exists|i: int|
            0 <= i < rows.len() && #[trigger] row_key(names, rows[i]) == id,
    decreases rows.len(),
{
    if rows.len() > 0 {
        let front = rows.drop_last();
        law_table_keys(names, front, id);
        // The lines of `rows` are those of `front` and the last one.
        assert(forall|i: int|
            #![trigger front[i]]
            #![trigger rows[i]]
            0 <= i < front.len() ==> front[i] == rows[i]);
    }
}

/// Of the lines with one key the last one wins: the table holds, under the
/// key of the line at `row`, the record of that line, provided that no later
/// line has the same key.
pub proof fn law_last_line_wins(names: Seq<Seq<char>>, rows: Seq<Seq<char>>, row: int)
    requires
        0 <= row < rows.len(),
        forall|j: int| row < j < rows.len() ==> row_key(names, rows[j]) != row_key(names, rows[row]),
    ensures
        table_of_rows(names, rows).contains_key(row_key(names, rows[row])),
        table_of_rows(names, rows)[row_key(names, rows[row])] == row_record(names, rows[row]),
    decreases rows.len(),
{
    if row < rows.len() - 1 {
        // The last line has another key, so the lines before it decide.
        let front = rows.drop_last();
        assert(forall|j: int| 0 <= j < front.len() ==> front[j] == rows[j]);
        law_last_line_wins(names, front, row);
    }
}

/// Of two lines of a listing with the same key only the later one shows in
/// the table: the table holds its record under that key, provided that no
/// line after it has the key again. Line 0 is the header.
pub proof fn law_later_line_replaces(text: Seq<char>, earlier: int, later: int)
    requires
        1 <= earlier < later < lines(text).len(),
        ({
            let names = split(lines(text)[0], FIELD_SEPARATOR);
            &&& row_key(names, lines(text)[earlier]) == row_key(names, lines(text)[later])
            &&& forall|j: int|
                later < j < lines(text).len() ==> row_key(names, lines(text)[j]) != row_key(
                    names,
                    lines(text)[later],
                )
        }),
    ensures
        ({
            let names = split(lines(text)[0], FIELD_SEPARATOR);
            let key = row_key(names, lines(text)[earlier]);
            &&& table_of(text).contains_key(key)
            &&& table_of(text)[key] == row_record(names, lines(text)[later])
        }),
{
    // Line `j` of the listing is line `j - 1` of those below the header.
    let names = split(lines(text)[0], FIELD_SEPARATOR);
    let rows = lines(text).skip(1);
    assert(forall|j: int| 0 <= j < rows.len() ==> rows[j] == lines(text)[j + 1]);
    law_last_line_wins(names, rows, later - 1);
}

/// Every record of a table is the record of one of the lines, filed under
/// that line's key.
pub proof fn law_table_records(names: Seq<Seq<char>>, rows: Seq<Seq<char>>, id: Seq<char>)
    requires
        table_of_rows(names, rows).contains_key(id),
    ensures
        exists|i: int|
            0 <= i < rows.len() && row_key(names, rows[i]) == id && table_of_rows(names, rows)[id]
                == #[trigger] row_record(names, rows[i]),
    decreases rows.len(),
{
    if row_key(names, rows.last()) != id {
        // The record stems from a line before the last one.
        let front = rows.drop_last();
        law_table_records(names, front, id);
        assert(forall|i: int| 0 <= i < front.len() ==> front[i] == rows[i]);
    }
}

/// No record of any listing has an entry with an empty name.
pub proof fn law_no_unnamed_field(text: Seq<char>, id: Seq<char>)
    requires
        table_of(text).contains_key(id),
    ensures
        !table_of(text)[id].contains_key(Seq::<char>::empty()),
{
    let all = lines(text);
    let names = split(all[0], FIELD_SEPARATOR);
    let rows = all.skip(1);
    law_table_records(names, rows, id);
    let i = choose|i: int|
        0 <= i < rows.len() && row_key(names, rows[i]) == id && table_of_rows(names, rows)[id]
            == #[trigger] row_record(names, rows[i]);
    law_record_keys(names, split(rows[i], FIELD_SEPARATOR), Seq::<char>::empty());
}

/// A listing that is empty, or whose only line is the header, stands for the
/// empty table.
pub proof fn law_no_rows(text: Seq<char>)
    requires
        lines(text).len() <= 1,
    ensures
        table_of(text) == Map::<Seq<char>, Record>::empty(),
{
}

/// The record of a line with the fields `values` under the header fields
/// `names`.
pub fn build_record(names: &Vec<String>, values: &Vec<String>) -> (record: JobRecord)
    ensures
        record@ == record_of(views(names@), views(values@)),
{
    let mut record: JobRecord = StrMap::new();
    let mut i: usize = 0;
    while i < names.len()
        invariant
            i <= names.len(),
            record@ == record_of(views(names@).take(i as int), views(values@)),
        decreases names.len() - i,
    {
        proof {
            assert(views(names@).take(i + 1).drop_last() =~= views(names@).take(i as int));
        }
        if i < values.len() && !names[i].as_str().is_empty() {
            record.insert(names[i].clone(), values[i].clone());
        }
        i += 1;
    }
    proof {
        assert(views(names@).take(i as int) =~= views(names@));
    }
    record
}

/// The key under which `record` is filed.
pub fn job_id(record: &JobRecord) -> (id: String)
    ensures
        id@ == key_of(record@),
{
    match record.get(ID_FIELD) {
        Some(value) => if value.as_str().is_empty() {
            UNKNOWN_ID.to_owned()
        } else {
            value.clone()
        },
        None => UNKNOWN_ID.to_owned(),
    }
}

/// The table that the listing `text` stands for.
pub fn parse_text(text: &str) -> (table: JobTable)
    ensures
        table@ == table_of(text@),
{
    let mut table: JobTable = StrMap::new();
    let all = split_lines(text);
    if all.len() == 0 {
        return table;
    }
    let names = split_text(all[0].as_str(), FIELD_SEPARATOR);
    let ghost rows = views(all@).skip(1);
    let mut i: usize = 1;
    while i < all.len()
        invariant
            1 <= i <= all.len(),
            rows == views(all@).skip(1),
            table@ == table_of_rows(views(names@), rows.take(i - 1)),
        decreases all.len() - i,
    {
        let values = split_text(all[i].as_str(), FIELD_SEPARATOR);
        let record = build_record(&names, &values);
        let id = job_id(&record);
        proof {
            assert(rows.take(i as int).drop_last() =~= rows.take(i - 1));
        }
        table.insert(id, record);
        i += 1;
    }
    proof {
        assert(rows.take(i - 1) =~= rows);
    }
    table
}

/// The table that the listing `raw` stands for. The bytes are read as
/// UTF-8, see [`lossy_text`]; every input has a table.
pub fn parse(raw: &[u8]) -> (table: JobTable)
    ensures
        table@ == table_of(lossy_text(raw@)),
        valid_utf8(raw@) ==> table@ == table_of(decode_utf8(raw@)),
{
    let text = decode_lossy(raw);
    parse_text(text.as_str())
}

} // verus!

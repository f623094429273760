//! Reading a locale table from its CSV text: a `key` and a `text` column,
//! both trimmed; rows with an empty key are skipped and a later row wins
//! over an earlier one with the same key. The CSV syntax itself is read by
//! the `csv` crate.

use crate::config::tables::LocaleTable;
use crate::text::{blank, is_blank, push_str, str_eq, trim, trimmed};
use vstd::hash_map::StringHashMap;
use vstd::prelude::*;

verus! {

/// The header row that the `csv` crate reads from a text (fields trimmed),
/// or its error message.
pub uninterp spec fn csv_header_row(text: Seq<char>) -> Result<Seq<Seq<char>>, Seq<char>>;

/// The data rows that the `csv` crate reads from a text after its header
/// row (fields trimmed), or the error message of the first row it cannot
/// read.
pub uninterp spec fn csv_data_rows(text: Seq<char>) -> Result<Seq<Seq<Seq<char>>>, Seq<char>>;

/// The views of a row of fields.
pub open spec fn row_views(row: Seq<String>) -> Seq<Seq<char>> {
    row.map_values(|s: String| s@)
}

/// Trusted: reads the header row with `csv::ReaderBuilder` (fields
/// trimmed) and `Reader::headers`. Claims that the result is the crate's
/// header row of the text, or its error message.
#[verifier::external_body]
pub(crate) fn read_csv_headers(text: &str) -> (r: Result<Vec<String>, String>)
    ensures
        match r {
            Ok(h) => csv_header_row(text@) == Ok::<Seq<Seq<char>>, Seq<char>>(row_views(h@)),
            Err(e) => csv_header_row(text@) == Err::<Seq<Seq<char>>, Seq<char>>(e@),
        },
{
    let mut reader = csv::ReaderBuilder::new().trim(csv::Trim::All).from_reader(text.as_bytes());
    match reader.headers() {
        Ok(headers) => Ok(headers.iter().map(|h| h.to_string()).collect()),
        Err(error) => Err(error.to_string()),
    }
}

/// Trusted: reads the data rows with `csv::ReaderBuilder` (fields trimmed)
/// and `Reader::records`, stopping at the first error. Claims that the
/// result is the crate's rows of the text, or the first error's message.
#[verifier::external_body]
fn read_csv_records(text: &str) -> (r: Result<Vec<Vec<String>>, String>)
    ensures
        match r {
            Ok(rows) => csv_data_rows(text@) == Ok::<Seq<Seq<Seq<char>>>, Seq<char>>(
                rows@.map_values(|row: Vec<String>| row_views(row@)),
            ),
            Err(e) => csv_data_rows(text@) == Err::<Seq<Seq<Seq<char>>>, Seq<char>>(e@),
        },
{
    let mut reader = csv::ReaderBuilder::new().trim(csv::Trim::All).from_reader(text.as_bytes());
    let mut rows = Vec::new();
    for record in reader.records() {
        match record {
            Ok(record) => rows.push(record.iter().map(|f| f.to_string()).collect()),
            Err(error) => return Err(error.to_string()),
        }
    }
    Ok(rows)
}

/// The position of the first `name` among the headers.
pub open spec fn column_of(headers: Seq<Seq<char>>, name: Seq<char>) -> Option<int>
    decreases headers.len(),
{
    if headers.len() == 0 {
        None
    } else if headers[0] == name {
        Some(0)
    } else {
        match column_of(headers.drop_first(), name) {
            Some(i) => Some(i + 1),
            None => None,
        }
    }
}

/// The field at `i` of a row, empty when the row is shorter.
pub open spec fn field(row: Seq<Seq<char>>, i: int) -> Seq<char> {
    if 0 <= i < row.len() {
        row[i]
    } else {
        Seq::empty()
    }
}

/// The texts by key that the rows give, the later row winning.
pub open spec fn locale_entries(rows: Seq<Seq<Seq<char>>>, key_col: int, text_col: int) -> Map<Seq<char>, Seq<char>>
    decreases rows.len(),
{
    if rows.len() == 0 {
        Map::empty()
    } else {
        let m = locale_entries(rows.drop_last(), key_col, text_col);
        let key = trimmed(field(rows.last(), key_col));
        if key.len() == 0 {
            m
        } else {
            m.insert(key, trimmed(field(rows.last(), text_col)))
        }
    }
}

/// What reading the locale CSV `text` gives: the table, or the message of
/// why it cannot be read.
pub open spec fn locale_csv(label: Seq<char>, text: Seq<char>) -> Result<Map<Seq<char>, Seq<char>>, Seq<char>> {
    match csv_header_row(text) {
        Err(e) => Err("reading headers from "@ + label + ": "@ + e),
        Ok(headers) => match (column_of(headers, "key"@), column_of(headers, "text"@)) {
            (Some(k), Some(t)) => match csv_data_rows(text) {
                Err(e) => Err("parsing "@ + label + ": "@ + e),
                Ok(rows) => Ok(locale_entries(rows, k, t)),
            },
            _ => Err(label + " must contain key,text columns"@),
        },
    }
}

fn column_index(headers: &Vec<String>, name: &str) -> (r: Option<usize>)
    ensures
        match r {
            Some(i) => column_of(row_views(headers@), name@) == Some(i as int),
            None => column_of(row_views(headers@), name@) is None,
        },
{
    let ghost h = row_views(headers@);
    let mut i: usize = 0;
    assert(h.skip(0) =~= h);
    while i < headers.len()
        invariant
            i <= headers@.len(),
            h == row_views(headers@),
            column_of(h, name@) == match column_of(h.skip(i as int), name@) {
                Some(j) => Some(j + i),
                None => None,
            },
        decreases headers.len() - i,
    {
        assert(h.skip(i as int)[0] == headers@[i as int]@);
        if str_eq(headers[i].as_str(), name) {
            return Some(i);
        }
        assert(h.skip(i as int).drop_first() =~= h.skip(i + 1));
        i += 1;
    }
    None
}

fn field_at(row: &Vec<String>, i: usize) -> (s: &str)
    ensures
        s@ == field(row_views(row@), i as int),
{
    if i < row.len() {
        row[i].as_str()
    } else {
        proof {
            reveal_strlit("");
        }
        assert(""@ =~= Seq::<char>::empty());
        ""
    }
}

/// The locale table named `locale` read from the CSV `text`; `label` names
/// the file in error messages.
pub fn read_locale_csv_text(label: &str, locale: &str, text: &str) -> (r: Result<LocaleTable, String>)
    ensures
        match r {
            Ok(t) => t.locale@ == locale@ && locale_csv(label@, text@) == Ok::<Map<Seq<char>, Seq<char>>, Seq<char>>(t.texts()),
            Err(e) => locale_csv(label@, text@) == Err::<Map<Seq<char>, Seq<char>>, Seq<char>>(e@),
        },
{
    let headers = match read_csv_headers(text) {
        Ok(h) => h,
        Err(e) => {
            let mut m = "reading headers from ".to_string();
            push_str(&mut m, label);
            push_str(&mut m, ": ");
            push_str(&mut m, e.as_str());
            return Err(m);
        },
    };
    let key_col = column_index(&headers, "key");
    let text_col = column_index(&headers, "text");
    if key_col.is_none() || text_col.is_none() {
        let mut m = label.to_string();
        push_str(&mut m, " must contain key,text columns");
        return Err(m);
    }
    let k = key_col.unwrap();
    let t = text_col.unwrap();
    let rows = match read_csv_records(text) {
        Ok(rows) => rows,
        Err(e) => {
            let mut m = "parsing ".to_string();
            push_str(&mut m, label);
            push_str(&mut m, ": ");
            push_str(&mut m, e.as_str());
            return Err(m);
        },
    };
    let ghost rv = rows@.map_values(|row: Vec<String>| row_views(row@));
    let mut entries: StringHashMap<String> = StringHashMap::new();
    let mut i: usize = 0;
    assert(rv.take(0) =~= Seq::<Seq<Seq<char>>>::empty());
    assert(entries@.map_values(|s: String| s@) =~= Map::<Seq<char>, Seq<char>>::empty());
    while i < rows.len()
        invariant
            i <= rows@.len(),
            rv == rows@.map_values(|row: Vec<String>| row_views(row@)),
            entries@.map_values(|s: String| s@) == locale_entries(rv.take(i as int), k as int, t as int),
        decreases rows.len() - i,
    {
        assert(rv.take(i + 1).drop_last() =~= rv.take(i as int));
        assert(rv.take(i + 1).last() == row_views(rows@[i as int]@));
        let key = trim(field_at(&rows[i], k));
        if !key.as_str().is_empty() {
            let value = trim(field_at(&rows[i], t));
            let ghost before = entries@;
            entries.insert(key, value);
            assert(entries@.map_values(|s: String| s@) =~= before.map_values(|s: String| s@).insert(
                key@,
                value@,
            ));
        }
        i += 1;
    }
    assert(rv.take(rv.len() as int) =~= rv);
    Ok(LocaleTable { locale: locale.to_string(), entries })
}

/// A locale name as written in a manifest key (`zh_CN`) turned into its
/// tag (`zh-CN`).
pub fn normalize_locale_key(key: &str) -> (s: String)
    ensures
        s@ == crate::text::replaced(key@, seq!['_'], seq!['-']),
{
    proof {
        reveal_strlit("_");
        reveal_strlit("-");
        assert("_"@ =~= seq!['_']);
        assert("-"@ =~= seq!['-']);
    }
    crate::text::replace_all(key, "_", "-")
}

} // verus!

//! The header rows of a scenario's CSV tables and the check that they are
//! spelled as the tables' schemas expect: every expected column present, no
//! unknown column (a free `notes` column is allowed anywhere).

use crate::config::locale_csv::{csv_header_row, read_csv_headers, row_views};
use crate::config::validator::{cell_error, ErrorView, ValidationError, error_views};
use crate::text::{lemma_new_flatten_push, push_str, str_eq, str_views};
use vstd::prelude::*;

verus! {

/// The header rows of the tables, as read from their files; `prompts` is
/// `None` when the manifest names no prompts table.
#[derive(Debug, Clone, PartialEq, Eq)]
pub struct TableHeaders {
    pub stats: Vec<String>,
    pub resources: Vec<String>,
    pub actions: Vec<String>,
    pub events: Vec<String>,
    pub balance: Vec<String>,
    pub panels: Vec<String>,
    pub prompts: Option<Vec<String>>,
}

/// The header row of the CSV `text`, trimmed as the table readers trim it,
/// or the error naming the file `label`.
pub fn csv_header(label: &str, text: &str) -> (r: Result<Vec<String>, String>)
    ensures
        match r {
            Ok(h) => csv_header_row(text@) == Ok::<Seq<Seq<char>>, Seq<char>>(row_views(h@)),
            Err(e) => csv_header_row(text@) matches Err(m) && e@ == "reading headers from "@ + label@ + ": "@ + m,
        },
{
    match read_csv_headers(text) {
        Ok(h) => Ok(h),
        Err(m) => {
            let mut e = "reading headers from ".to_string();
            push_str(&mut e, label);
            push_str(&mut e, ": ");
            push_str(&mut e, m.as_str());
            Err(e)
        },
    }
}

/// The columns of `stats.csv`.
pub open spec fn stats_columns() -> Seq<Seq<char>> {
    seq!["id"@, "label_key"@, "min"@, "max"@, "default"@, "display_format"@, "sort"@]
}

/// The columns of `resources.csv`.
pub open spec fn resources_columns() -> Seq<Seq<char>> {
    seq!["id"@, "label_key"@, "default"@, "unit"@, "display_format"@, "sort"@]
}

/// The columns of `actions.csv`.
pub open spec fn actions_columns() -> Seq<Seq<char>> {
    seq![
        "id"@,
        "name_key"@,
        "risk"@,
        "cost_energy"@,
        "cost_wood"@,
        "cost_fiber"@,
        "reward_type"@,
        "resolver_id"@,
        "enabled"@,
    ]
}

/// The columns of `events.csv`.
pub open spec fn events_columns() -> Seq<Seq<char>> {
    seq!["id"@, "title_key"@, "severity"@, "base_weight"@, "cooldown_ticks"@, "resolver_id"@]
}

/// The columns of `balance.csv`.
pub open spec fn balance_columns() -> Seq<Seq<char>> {
    seq!["key"@, "value"@]
}

/// The columns of `panels.csv`.
pub open spec fn panels_columns() -> Seq<Seq<char>> {
    seq!["id"@, "title_key"@, "level"@, "sort"@, "visible"@]
}

/// The columns of `prompts.csv`.
pub open spec fn prompts_columns() -> Seq<Seq<char>> {
    seq!["id"@, "template_key"@, "variables"@]
}

/// The error for the header column at `i`, when it is neither expected nor
/// `notes`.
pub open spec fn unknown_column_error(location: Seq<char>, header: Seq<Seq<char>>, expected: Seq<Seq<char>>, i: int) -> Seq<ErrorView> {
    if expected.contains(header[i]) || header[i] == "notes"@ {
        seq![]
    } else {
        seq![cell_error(location, 1, header[i], "unknown column"@)]
    }
}

/// The error for the expected column at `j`, when the header lacks it.
pub open spec fn missing_column_error(location: Seq<char>, header: Seq<Seq<char>>, expected: Seq<Seq<char>>, j: int) -> Seq<ErrorView> {
    if header.contains(expected[j]) {
        seq![]
    } else {
        seq![cell_error(location, 1, expected[j], "missing column"@)]
    }
}

/// The errors of a header row: its unknown columns in order, then the
/// expected columns it lacks in order.
pub open spec fn header_errors(location: Seq<char>, header: Seq<Seq<char>>, expected: Seq<Seq<char>>) -> Seq<ErrorView> {
    Seq::new(header.len(), |i: int| unknown_column_error(location, header, expected, i)).flatten()
        + Seq::new(expected.len(), |j: int| missing_column_error(location, header, expected, j)).flatten()
}

/// The errors of all header rows, table by table.
pub open spec fn table_header_errors(h: TableHeaders) -> Seq<ErrorView> {
    header_errors("stats.csv"@, row_views(h.stats@), stats_columns())
        + header_errors("resources.csv"@, row_views(h.resources@), resources_columns())
        + header_errors("actions.csv"@, row_views(h.actions@), actions_columns())
        + header_errors("events.csv"@, row_views(h.events@), events_columns())
        + header_errors("balance.csv"@, row_views(h.balance@), balance_columns())
        + header_errors("panels.csv"@, row_views(h.panels@), panels_columns())
        + match h.prompts {
            Some(p) => header_errors("prompts.csv"@, row_views(p@), prompts_columns()),
            None => seq![],
        }
}

fn has_column(columns: &Vec<&str>, x: &str) -> (b: bool)
    ensures
        b == str_views(columns@).contains(x@),
{
    let mut i: usize = 0;
    while i < columns.len()
        invariant
            i <= columns@.len(),
            forall|j: int| 0 <= j < i ==> columns@[j]@ != x@,
        decreases columns.len() - i,
    {
        if str_eq(columns[i], x) {
            assert(str_views(columns@)[i as int] == x@);
            return true;
        }
        i += 1;
    }
    assert forall|j: int| 0 <= j < str_views(columns@).len() implies str_views(columns@)[j] != x@ by {
        assert(str_views(columns@)[j] == columns@[j]@);
    }
    false
}

fn has_header(header: &Vec<String>, x: &str) -> (b: bool)
    ensures
        b == row_views(header@).contains(x@),
{
    let mut i: usize = 0;
    while i < header.len()
        invariant
            i <= header@.len(),
            forall|j: int| 0 <= j < i ==> header@[j]@ != x@,
        decreases header.len() - i,
    {
        if str_eq(header[i].as_str(), x) {
            assert(row_views(header@)[i as int] == x@);
            return true;
        }
        i += 1;
    }
    assert forall|j: int| 0 <= j < row_views(header@).len() implies row_views(header@)[j] != x@ by {
        assert(row_views(header@)[j] == header@[j]@);
    }
    false
}

/// Appends the errors of one header row.
fn check_header(location: &str, header: &Vec<String>, expected: &Vec<&str>, errors: &mut Vec<ValidationError>)
    ensures
        error_views(final(errors)@) == error_views(old(errors)@) + header_errors(
            location@,
            row_views(header@),
            str_views(expected@),
        ),
{
    let ghost hv = row_views(header@);
    let ghost ev = str_views(expected@);
    let ghost f = |i: int| unknown_column_error(location@, hv, ev, i);
    let ghost g = |j: int| missing_column_error(location@, hv, ev, j);
    let ghost start = error_views(errors@);
    let mut i: usize = 0;
    assert(Seq::new(0, f) =~= Seq::<Seq<ErrorView>>::empty());
    assert(error_views(errors@) =~= start + Seq::new(0, f).flatten());
    while i < header.len()
        invariant
            i <= header@.len(),
            hv == row_views(header@),
            ev == str_views(expected@),
            f == (|i: int| unknown_column_error(location@, hv, ev, i)),
            error_views(errors@) == start + Seq::new(i as nat, f).flatten(),
        decreases header.len() - i,
    {
        proof {
            lemma_new_flatten_push(i as nat, f);
        }
        let ghost before = error_views(errors@);
        let column = header[i].as_str();
        assert(hv[i as int] == column@);
        if !has_column(expected, column) && !str_eq(column, "notes") {
            let e = ValidationError::at(location, 1, column, "unknown column".to_string());
            errors.push(e);
        }
        assert(error_views(errors@) =~= before + f(i as int));
        i += 1;
    }
    assert(Seq::new(hv.len(), f) =~= Seq::new(hv.len(), |i: int| unknown_column_error(location@, hv, ev, i)));
    let ghost mid = error_views(errors@);
    let mut j: usize = 0;
    assert(Seq::new(0, g) =~= Seq::<Seq<ErrorView>>::empty());
    assert(error_views(errors@) =~= mid + Seq::new(0, g).flatten());
    while j < expected.len()
        invariant
            j <= expected@.len(),
            hv == row_views(header@),
            ev == str_views(expected@),
            g == (|j: int| missing_column_error(location@, hv, ev, j)),
            error_views(errors@) == mid + Seq::new(j as nat, g).flatten(),
        decreases expected.len() - j,
    {
        proof {
            lemma_new_flatten_push(j as nat, g);
        }
        let ghost before = error_views(errors@);
        let column = expected[j];
        assert(ev[j as int] == column@);
        if !has_header(header, column) {
            let e = ValidationError::at(location, 1, column, "missing column".to_string());
            errors.push(e);
        }
        assert(error_views(errors@) =~= before + g(j as int));
        j += 1;
    }
    assert(Seq::new(ev.len(), g) =~= Seq::new(ev.len(), |j: int| missing_column_error(location@, hv, ev, j)));
    assert(error_views(errors@) =~= start + header_errors(location@, hv, ev));
}

/// Appends the errors of every header row, table by table.
pub fn check_table_headers(h: &TableHeaders, errors: &mut Vec<ValidationError>)
    ensures
        error_views(final(errors)@) == error_views(old(errors)@) + table_header_errors(*h),
{
    let ghost start = error_views(errors@);
    let stats = vec!["id", "label_key", "min", "max", "default", "display_format", "sort"];
    assert(str_views(stats@) =~= stats_columns());
    check_header("stats.csv", &h.stats, &stats, errors);
    let resources = vec!["id", "label_key", "default", "unit", "display_format", "sort"];
    assert(str_views(resources@) =~= resources_columns());
    check_header("resources.csv", &h.resources, &resources, errors);
    let actions = vec![
        "id",
        "name_key",
        "risk",
        "cost_energy",
        "cost_wood",
        "cost_fiber",
        "reward_type",
        "resolver_id",
        "enabled",
    ];
    assert(str_views(actions@) =~= actions_columns());
    check_header("actions.csv", &h.actions, &actions, errors);
    let events = vec!["id", "title_key", "severity", "base_weight", "cooldown_ticks", "resolver_id"];
    assert(str_views(events@) =~= events_columns());
    check_header("events.csv", &h.events, &events, errors);
    let balance = vec!["key", "value"];
    assert(str_views(balance@) =~= balance_columns());
    check_header("balance.csv", &h.balance, &balance, errors);
    let panels = vec!["id", "title_key", "level", "sort", "visible"];
    assert(str_views(panels@) =~= panels_columns());
    check_header("panels.csv", &h.panels, &panels, errors);
    match &h.prompts {
        Some(p) => {
            let prompts = vec!["id", "template_key", "variables"];
            assert(str_views(prompts@) =~= prompts_columns());
            check_header("prompts.csv", p, &prompts, errors);
        },
        None => {},
    }
    assert(error_views(errors@) =~= start + table_header_errors(*h));
}

} // verus!

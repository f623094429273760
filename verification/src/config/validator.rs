//! Scenario configuration checks: required manifest fields, table headers,
//! unique row ids, value ranges, registered resolvers, present locale keys
//! and complete prompt placeholders. Each problem is reported with its
//! table, row and column.

use crate::config::headers::{check_table_headers, table_header_errors, TableHeaders};
use crate::config::placeholders::{check_placeholders, placeholder_errors};
use crate::config::tables::{LocaleTable, Manifest, PanelRow, PromptRow};
use crate::text::{
    blank, contains_str, debug_quoted, is_blank, lemma_new_flatten_push, push_str, quote_debug,
    str_eq, str_views, decimal, push_decimal,
};
use vstd::hash_map::StringHashMap;
use vstd::prelude::*;

verus! {

/// A problem in a scenario's configuration: the file, and where the problem
/// is about one cell, its CSV row (counting the header as row 1) and column.
#[derive(Debug, Clone, PartialEq, Eq)]
pub struct ValidationError {
    pub location: String,
    pub row: Option<usize>,
    pub column: Option<String>,
    pub message: String,
}

/// What a validation error says.
pub struct ErrorView {
    pub location: Seq<char>,
    pub row: Option<usize>,
    pub column: Option<Seq<char>>,
    pub message: Seq<char>,
}

impl View for ValidationError {
    type V = ErrorView;

    open spec fn view(&self) -> ErrorView {
        ErrorView {
            location: self.location@,
            row: self.row,
            column: match self.column {
                Some(c) => Some(c@),
                None => None,
            },
            message: self.message@,
        }
    }
}

/// The views of a sequence of errors.
pub open spec fn error_views(v: Seq<ValidationError>) -> Seq<ErrorView> {
    v.map_values(|e: ValidationError| e@)
}

/// An error about a whole file.
pub open spec fn file_error(location: Seq<char>, message: Seq<char>) -> ErrorView {
    ErrorView { location, row: None, column: None, message }
}

/// An error about one cell.
pub open spec fn cell_error(location: Seq<char>, row: usize, column: Seq<char>, message: Seq<char>) -> ErrorView {
    ErrorView { location, row: Some(row), column: Some(column), message }
}

/// The line of an error: `file:row:column message`, or `file:row message`,
/// or `file message`.
pub open spec fn rendered(e: ErrorView) -> Seq<char> {
    match (e.row, e.column) {
        (Some(row), Some(column)) => e.location + seq![':'] + decimal(row as nat) + seq![':'] + column
            + seq![' '] + e.message,
        (Some(row), None) => e.location + seq![':'] + decimal(row as nat) + seq![' '] + e.message,
        _ => e.location + seq![' '] + e.message,
    }
}

impl ValidationError {
    fn new(location: &str, message: String) -> (e: Self)
        ensures
            e@ == file_error(location@, message@),
    {
        ValidationError { location: location.to_string(), row: None, column: None, message }
    }

    pub(crate) fn at(location: &str, row: usize, column: &str, message: String) -> (e: Self)
        ensures
            e@ == cell_error(location@, row, column@, message@),
    {
        ValidationError {
            location: location.to_string(),
            row: Some(row),
            column: Some(column.to_string()),
            message,
        }
    }

    /// The error as one line (what its `Display` gives).
    pub fn render(&self) -> (s: String)
        ensures
            s@ == rendered(self@),
    {
        let mut s = self.location.clone();
        match (self.row, &self.column) {
            (Some(row), Some(column)) => {
                push_str(&mut s, ":");
                push_decimal(&mut s, row as u64);
                push_str(&mut s, ":");
                push_str(&mut s, column.as_str());
            },
            (Some(row), None) => {
                push_str(&mut s, ":");
                push_decimal(&mut s, row as u64);
            },
            _ => {},
        }
        push_str(&mut s, " ");
        push_str(&mut s, self.message.as_str());
        proof {
            reveal_strlit(":");
            reveal_strlit(" ");
        }
        s
    }
}

/// The checks that a stats row needs: its id and label key, and how its
/// bounds and default compare (`min > max`; default below min or above max).
#[derive(Debug, Clone, PartialEq, Eq)]
pub struct StatFacts {
    pub id: String,
    pub label_key: String,
    pub min_above_max: bool,
    pub default_outside_bounds: bool,
}

/// The checks that a resources row needs: whether its default is negative.
#[derive(Debug, Clone, PartialEq, Eq)]
pub struct ResourceFacts {
    pub id: String,
    pub label_key: String,
    pub default_negative: bool,
}

/// What the checks read of an actions row: whether the action is enabled
/// and whether any of its costs is negative.
#[derive(Debug, Clone, PartialEq, Eq)]
pub struct ActionFacts {
    pub id: String,
    pub name_key: String,
    pub resolver_id: String,
    pub enabled: bool,
    pub negative_cost: bool,
}

/// The checks that an events row needs: whether its base weight is negative.
#[derive(Debug, Clone, PartialEq, Eq)]
pub struct EventFacts {
    pub id: String,
    pub title_key: String,
    pub resolver_id: String,
    pub negative_weight: bool,
}

/// A loaded scenario configuration as the checks read it.
pub struct ConfigFacts {
    pub manifest: Manifest,
    pub stats: Vec<StatFacts>,
    pub resources: Vec<ResourceFacts>,
    pub actions: Vec<ActionFacts>,
    pub events: Vec<EventFacts>,
    pub panels: Vec<PanelRow>,
    pub prompts: Vec<PromptRow>,
    pub locales: StringHashMap<LocaleTable>,
    /// The header rows of the tables as read from their files.
    pub headers: TableHeaders,
}

/// The resolvers that actions may name.
pub open spec fn action_resolvers() -> Seq<Seq<char>> {
    seq![
        "fish_basic"@,
        "eat_food_basic"@,
        "collect_rain_basic"@,
        "salvage_basic"@,
        "repair_basic"@,
        "rest_basic"@,
        "observe_weather_basic"@,
        "study_chart_basic"@,
        "change_course_basic"@,
    ]
}

/// The resolvers that events may name.
pub open spec fn event_resolvers() -> Seq<Seq<char>> {
    seq![
        "rain_basic"@,
        "heat_basic"@,
        "storm_basic"@,
        "fish_shoal_basic"@,
        "floating_crate_basic"@,
        "hull_damage_basic"@,
        "island_silhouette_basic"@,
        "abandoned_ship_basic"@,
    ]
}

/// The registered action resolvers.
pub fn registered_action_resolvers() -> (v: Vec<&'static str>)
    ensures
        str_views(v@) == action_resolvers(),
{
    let v = vec![
        "fish_basic",
        "eat_food_basic",
        "collect_rain_basic",
        "salvage_basic",
        "repair_basic",
        "rest_basic",
        "observe_weather_basic",
        "study_chart_basic",
        "change_course_basic",
    ];
    assert(str_views(v@) =~= action_resolvers());
    v
}

/// The registered event resolvers.
pub fn registered_event_resolvers() -> (v: Vec<&'static str>)
    ensures
        str_views(v@) == event_resolvers(),
{
    let v = vec![
        "rain_basic",
        "heat_basic",
        "storm_basic",
        "fish_shoal_basic",
        "floating_crate_basic",
        "hull_damage_basic",
        "island_silhouette_basic",
        "abandoned_ship_basic",
    ];
    assert(str_views(v@) =~= event_resolvers());
    v
}


/// The row number of the row at `index` (the header is row 1).
pub open spec fn csv_line(index: int) -> usize {
    (index + 2) as usize
}

fn csv_row(index: usize) -> (r: usize)
    requires
        index + 2 <= usize::MAX,
    ensures
        r == csv_line(index as int),
{
    index + 2
}

/// The error for the id at `j` among `ids`: required when blank, duplicate
/// when an earlier non-blank id is the same.
pub open spec fn id_error(location: Seq<char>, ids: Seq<Seq<char>>, j: int) -> Seq<ErrorView> {
    if is_blank(ids[j]) {
        seq![cell_error(location, csv_line(j), "id"@, "id is required"@)]
    } else if earlier_id(ids, j, ids[j]) {
        seq![cell_error(location, csv_line(j), "id"@, "duplicate id "@ + debug_quoted(ids[j]))]
    } else {
        seq![]
    }
}

/// Whether a non-blank id before position `j` is `x`.
pub open spec fn earlier_id(ids: Seq<Seq<char>>, j: int, x: Seq<char>) -> bool {
    exists|k: int| 0 <= k < j && !is_blank(ids[k]) && ids[k] == x
}

/// Whether one of the strings of `s` is `x`.
pub open spec fn in_strings(s: Seq<String>, x: Seq<char>) -> bool {
    exists|i: int| 0 <= i < s.len() && s[i]@ == x
}

/// The id errors of a table, row by row.
pub open spec fn id_errors(location: Seq<char>, ids: Seq<Seq<char>>) -> Seq<ErrorView> {
    Seq::new(ids.len(), |j: int| id_error(location, ids, j)).flatten()
}

/// Joining pieces gives nothing exactly when every piece is empty.
proof fn lemma_flatten_empty<A>(s: Seq<Seq<A>>)
    ensures
        s.flatten().len() == 0 <==> forall|i: int| 0 <= i < s.len() ==> #[trigger] s[i].len() == 0,
    decreases s.len(),
{
    if s.len() > 0 {
        lemma_flatten_empty(s.drop_first());
        if s.flatten().len() == 0 {
            assert forall|i: int| 0 <= i < s.len() implies #[trigger] s[i].len() == 0 by {
                if i > 0 {
                    assert(s.drop_first()[i - 1] == s[i]);
                }
            }
        }
        if forall|i: int| 0 <= i < s.len() ==> #[trigger] s[i].len() == 0 {
            assert forall|i: int| 0 <= i < s.drop_first().len() implies #[trigger] s.drop_first()[i].len() == 0 by {
                assert(s.drop_first()[i] == s[i + 1]);
            }
        }
    }
}

/// A table's id column reports nothing exactly when every id is non-blank
/// and no id repeats.
pub proof fn lemma_id_errors_empty(location: Seq<char>, ids: Seq<Seq<char>>)
    ensures
        id_errors(location, ids).len() == 0 <==> (forall|i: int| 0 <= i < ids.len() ==> !is_blank(#[trigger] ids[i]))
            && (forall|i: int, j: int| 0 <= i < j < ids.len() ==> #[trigger] ids[i] != #[trigger] ids[j]),
{
    let f = |j: int| id_error(location, ids, j);
    let s = Seq::new(ids.len(), f);
    lemma_flatten_empty(s);
    if id_errors(location, ids).len() == 0 {
        assert forall|i: int| 0 <= i < ids.len() implies !is_blank(#[trigger] ids[i]) by {
            assert(s[i].len() == 0);
        }
        assert forall|i: int, j: int| 0 <= i < j < ids.len() implies #[trigger] ids[i] != #[trigger] ids[j] by {
            assert(s[j].len() == 0);
            assert(s[i].len() == 0);
            if ids[i] == ids[j] {
                assert(earlier_id(ids, j, ids[j]));
            }
        }
    }
    if (forall|i: int| 0 <= i < ids.len() ==> !is_blank(#[trigger] ids[i])) && (forall|i: int, j: int|
        0 <= i < j < ids.len() ==> #[trigger] ids[i] != #[trigger] ids[j]) {
        assert forall|j: int| 0 <= j < s.len() implies #[trigger] s[j].len() == 0 by {
            assert(!is_blank(ids[j]));
            if earlier_id(ids, j, ids[j]) {
                let k = choose|k: int| 0 <= k < j && !is_blank(ids[k]) && ids[k] == ids[j];
                assert(ids[k] != ids[j]);
            }
        }
    }
}

/// The errors for a locale key cell: required when blank, missing when the
/// default locale's table exists and lacks it.
pub open spec fn locale_key_errors(
    keys: Option<Map<Seq<char>, String>>,
    location: Seq<char>,
    row: usize,
    column: Seq<char>,
    key: Seq<char>,
) -> Seq<ErrorView> {
    if is_blank(key) {
        seq![cell_error(location, row, column, "locale key is required"@)]
    } else if keys is Some && !keys->0.contains_key(key) {
        seq![cell_error(location, row, column, "missing locale key "@ + debug_quoted(key))]
    } else {
        seq![]
    }
}

fn push_error(errors: &mut Vec<ValidationError>, e: ValidationError)
    ensures
        error_views(final(errors)@) == error_views(old(errors)@).push(e@),
{
    errors.push(e);
    assert(error_views(errors@) =~= error_views(old(errors)@).push(e@));
}

fn validate_locale_key(
    default_locale: Option<&StringHashMap<String>>,
    location: &str,
    row: usize,
    column: &str,
    key: &str,
    errors: &mut Vec<ValidationError>,
)
    ensures
        error_views(final(errors)@) == error_views(old(errors)@) + locale_key_errors(
            match default_locale {
                Some(m) => Some(m@),
                None => None,
            },
            location@,
            row,
            column@,
            key@,
        ),
{
    let ghost keys = match default_locale {
        Some(m) => Some(m@),
        None => None::<Map<Seq<char>, String>>,
    };
    if blank(key) {
        push_error(errors, ValidationError::at(location, row, column, "locale key is required".to_string()));
        assert(error_views(errors@) =~= error_views(old(errors)@) + locale_key_errors(keys, location@, row, column@, key@));
        return ;
    }
    if let Some(locale) = default_locale {
        if !locale.contains_key(key) {
            let mut message = "missing locale key ".to_string();
            let quoted = quote_debug(key);
            push_str(&mut message, quoted.as_str());
            push_error(errors, ValidationError::at(location, row, column, message));
            assert(error_views(errors@) =~= error_views(old(errors)@) + locale_key_errors(keys, location@, row, column@, key@));
            return ;
        }
    }
    assert(error_views(errors@) =~= error_views(old(errors)@) + locale_key_errors(keys, location@, row, column@, key@));
}

fn contains_string(v: &Vec<String>, x: &str) -> (b: bool)
    ensures
        b == in_strings(v@, x@),
{
    let mut i: usize = 0;
    while i < v.len()
        invariant
            i <= v.len(),
            forall|j: int| 0 <= j < i ==> v@[j]@ != x@,
        decreases v.len() - i,
    {
        if str_eq(v[i].as_str(), x) {
            return true;
        }
        i += 1;
    }
    false
}

/// The views of a sequence of strings.
pub open spec fn string_views(v: Seq<String>) -> Seq<Seq<char>> {
    v.map_values(|s: String| s@)
}

fn validate_ids(location: &str, ids: &Vec<String>, errors: &mut Vec<ValidationError>)
    requires
        ids@.len() + 2 <= usize::MAX,
    ensures
        error_views(final(errors)@) == error_views(old(errors)@) + id_errors(location@, string_views(ids@)),
{
    let ghost v = string_views(ids@);
    let ghost f = |j: int| id_error(location@, v, j);
    let mut seen: Vec<String> = Vec::new();
    let mut j: usize = 0;
    assert(Seq::new(0, f) =~= Seq::<Seq<ErrorView>>::empty());
    assert(error_views(errors@) =~= error_views(old(errors)@) + Seq::new(0, f).flatten());
    while j < ids.len()
        invariant
            j <= ids@.len(),
            ids@.len() + 2 <= usize::MAX,
            v == string_views(ids@),
            f == (|j: int| id_error(location@, v, j)),
            error_views(errors@) == error_views(old(errors)@) + Seq::new(j as nat, f).flatten(),
            forall|x: Seq<char>|
                #![trigger in_strings(seen@, x)]
                #![trigger earlier_id(v, j as int, x)]
                in_strings(seen@, x) <==> earlier_id(v, j as int, x),
        decreases ids.len() - j,
    {
        let id = ids[j].as_str();
        assert(v[j as int] == id@);
        proof {
            lemma_new_flatten_push(j as nat, f);
        }
        let ghost before = error_views(errors@);
        if blank(id) {
            push_error(errors, ValidationError::at(location, csv_row(j), "id", "id is required".to_string()));
            assert(error_views(errors@) =~= before + f(j as int));
        } else if contains_string(&seen, id) {
            let mut message = "duplicate id ".to_string();
            let quoted = quote_debug(id);
            push_str(&mut message, quoted.as_str());
            push_error(errors, ValidationError::at(location, csv_row(j), "id", message));
            assert(error_views(errors@) =~= before + f(j as int));
        } else {
            let ghost old_seen = seen@;
            seen.push(id.to_string());
            assert(f(j as int) =~= Seq::<ErrorView>::empty());
            assert(error_views(errors@) =~= before + f(j as int));
            assert forall|x: Seq<char>| #![trigger in_strings(seen@, x)] #![trigger earlier_id(v, j + 1, x)]
                in_strings(seen@, x) <==> earlier_id(v, j + 1, x) by {
                assert(in_strings(old_seen, x) <==> earlier_id(v, j as int, x));
                if in_strings(seen@, x) {
                    let i = choose|i: int| 0 <= i < seen@.len() && seen@[i]@ == x;
                    if i < old_seen.len() {
                        assert(old_seen[i]@ == x);
                    } else {
                        assert(v[j as int] == x);
                    }
                }
                if earlier_id(v, j + 1, x) {
                    let k = choose|k: int| 0 <= k < j + 1 && !is_blank(v[k]) && v[k] == x;
                    if k < j {
                        let i = choose|i: int| 0 <= i < old_seen.len() && old_seen[i]@ == x;
                        assert(seen@[i]@ == x);
                    } else {
                        assert(seen@[old_seen.len() as int]@ == x);
                    }
                }
            }
        }
        j += 1;
    }
}


/// The errors of one stats row.
pub open spec fn stat_row_errors(r: StatFacts, row: usize, keys: Option<Map<Seq<char>, String>>) -> Seq<ErrorView> {
    (if r.min_above_max {
        seq![cell_error("stats.csv"@, row, "min"@, r.id@ + " min must be <= max"@)]
    } else {
        seq![]
    })
    + (if r.default_outside_bounds {
        seq![cell_error("stats.csv"@, row, "default"@, r.id@ + " default must be within min/max"@)]
    } else {
        seq![]
    })
    + locale_key_errors(keys, "stats.csv"@, row, "label_key"@, r.label_key@)
}

/// The errors of one resources row.
pub open spec fn resource_row_errors(r: ResourceFacts, row: usize, keys: Option<Map<Seq<char>, String>>) -> Seq<ErrorView> {
    (if r.default_negative {
        seq![cell_error("resources.csv"@, row, "default"@, r.id@ + " default must be >= 0"@)]
    } else {
        seq![]
    })
    + locale_key_errors(keys, "resources.csv"@, row, "label_key"@, r.label_key@)
}

/// The error when a resolver is not registered.
pub open spec fn resolver_errors(registered: Seq<Seq<char>>, location: Seq<char>, row: usize, resolver: Seq<char>) -> Seq<ErrorView> {
    if registered.contains(resolver) {
        seq![]
    } else {
        seq![cell_error(location, row, "resolver_id"@, "resolver_id "@ + debug_quoted(resolver) + " is not registered"@)]
    }
}

/// The errors of one actions row.
pub open spec fn action_row_errors(r: ActionFacts, row: usize, keys: Option<Map<Seq<char>, String>>) -> Seq<ErrorView> {
    (if r.negative_cost {
        seq![cell_error("actions.csv"@, row, "cost_energy"@, r.id@ + " costs must be >= 0"@)]
    } else {
        seq![]
    })
    + resolver_errors(action_resolvers(), "actions.csv"@, row, r.resolver_id@)
    + locale_key_errors(keys, "actions.csv"@, row, "name_key"@, r.name_key@)
}

/// The errors of one events row.
pub open spec fn event_row_errors(r: EventFacts, row: usize, keys: Option<Map<Seq<char>, String>>) -> Seq<ErrorView> {
    (if r.negative_weight {
        seq![cell_error("events.csv"@, row, "base_weight"@, r.id@ + " base_weight must be >= 0"@)]
    } else {
        seq![]
    })
    + resolver_errors(event_resolvers(), "events.csv"@, row, r.resolver_id@)
    + locale_key_errors(keys, "events.csv"@, row, "title_key"@, r.title_key@)
}

/// The errors of one panels row.
pub open spec fn panel_row_errors(r: PanelRow, row: usize, keys: Option<Map<Seq<char>, String>>) -> Seq<ErrorView> {
    locale_key_errors(keys, "panels.csv"@, row, "title_key"@, r.title_key@)
}

/// The errors of one prompts row: its template key, then, where the default
/// locale has the template, the agreement of the template's placeholders
/// with the row's declared variables.
pub open spec fn prompt_row_errors(r: PromptRow, row: usize, keys: Option<Map<Seq<char>, String>>) -> Seq<ErrorView> {
    locale_key_errors(keys, "prompts.csv"@, row, "template_key"@, r.template_key@) + match keys {
        Some(m) => if m.contains_key(r.template_key@) {
            placeholder_errors(row, r.variables@, m[r.template_key@]@)
        } else {
            seq![]
        },
        None => seq![],
    }
}

fn validate_resolver(registered: &Vec<&str>, location: &str, row: usize, resolver: &str, errors: &mut Vec<ValidationError>)
    ensures
        error_views(final(errors)@) == error_views(old(errors)@) + resolver_errors(str_views(registered@), location@, row, resolver@),
{
    if !contains_str(registered, resolver) {
        let mut message = "resolver_id ".to_string();
        let quoted = quote_debug(resolver);
        push_str(&mut message, quoted.as_str());
        push_str(&mut message, " is not registered");
        push_error(errors, ValidationError::at(location, row, "resolver_id", message));
    }
    assert(error_views(errors@) =~= error_views(old(errors)@) + resolver_errors(str_views(registered@), location@, row, resolver@));
}

fn stat_ids(rows: &Vec<StatFacts>) -> (ids: Vec<String>)
    ensures
        ids@.len() == rows@.len(),
        string_views(ids@) == rows@.map_values(|r: StatFacts| r.id@),
{
    let mut ids: Vec<String> = Vec::new();
    let mut i: usize = 0;
    while i < rows.len()
        invariant
            i <= rows@.len(),
            string_views(ids@) == rows@.take(i as int).map_values(|r: StatFacts| r.id@),
        decreases rows.len() - i,
    {
        let ghost before = ids@;
        ids.push(rows[i].id.clone());
        assert(rows@.take(i + 1) =~= rows@.take(i as int).push(rows@[i as int]));
        assert(string_views(ids@) =~= string_views(before).push(rows@[i as int].id@));
        assert(string_views(ids@) =~= rows@.take(i + 1).map_values(|r: StatFacts| r.id@));
        i += 1;
    }
    assert(rows@.take(rows@.len() as int) =~= rows@);
    ids
}

fn resource_ids(rows: &Vec<ResourceFacts>) -> (ids: Vec<String>)
    ensures
        ids@.len() == rows@.len(),
        string_views(ids@) == rows@.map_values(|r: ResourceFacts| r.id@),
{
    let mut ids: Vec<String> = Vec::new();
    let mut i: usize = 0;
    while i < rows.len()
        invariant
            i <= rows@.len(),
            string_views(ids@) == rows@.take(i as int).map_values(|r: ResourceFacts| r.id@),
        decreases rows.len() - i,
    {
        let ghost before = ids@;
        ids.push(rows[i].id.clone());
        assert(rows@.take(i + 1) =~= rows@.take(i as int).push(rows@[i as int]));
        assert(string_views(ids@) =~= string_views(before).push(rows@[i as int].id@));
        assert(string_views(ids@) =~= rows@.take(i + 1).map_values(|r: ResourceFacts| r.id@));
        i += 1;
    }
    assert(rows@.take(rows@.len() as int) =~= rows@);
    ids
}

fn action_ids(rows: &Vec<ActionFacts>) -> (ids: Vec<String>)
    ensures
        ids@.len() == rows@.len(),
        string_views(ids@) == rows@.map_values(|r: ActionFacts| r.id@),
{
    let mut ids: Vec<String> = Vec::new();
    let mut i: usize = 0;
    while i < rows.len()
        invariant
            i <= rows@.len(),
            string_views(ids@) == rows@.take(i as int).map_values(|r: ActionFacts| r.id@),
        decreases rows.len() - i,
    {
        let ghost before = ids@;
        ids.push(rows[i].id.clone());
        assert(rows@.take(i + 1) =~= rows@.take(i as int).push(rows@[i as int]));
        assert(string_views(ids@) =~= string_views(before).push(rows@[i as int].id@));
        assert(string_views(ids@) =~= rows@.take(i + 1).map_values(|r: ActionFacts| r.id@));
        i += 1;
    }
    assert(rows@.take(rows@.len() as int) =~= rows@);
    ids
}

fn event_ids(rows: &Vec<EventFacts>) -> (ids: Vec<String>)
    ensures
        ids@.len() == rows@.len(),
        string_views(ids@) == rows@.map_values(|r: EventFacts| r.id@),
{
    let mut ids: Vec<String> = Vec::new();
    let mut i: usize = 0;
    while i < rows.len()
        invariant
            i <= rows@.len(),
            string_views(ids@) == rows@.take(i as int).map_values(|r: EventFacts| r.id@),
        decreases rows.len() - i,
    {
        let ghost before = ids@;
        ids.push(rows[i].id.clone());
        assert(rows@.take(i + 1) =~= rows@.take(i as int).push(rows@[i as int]));
        assert(string_views(ids@) =~= string_views(before).push(rows@[i as int].id@));
        assert(string_views(ids@) =~= rows@.take(i + 1).map_values(|r: EventFacts| r.id@));
        i += 1;
    }
    assert(rows@.take(rows@.len() as int) =~= rows@);
    ids
}

fn panel_ids(rows: &Vec<PanelRow>) -> (ids: Vec<String>)
    ensures
        ids@.len() == rows@.len(),
        string_views(ids@) == rows@.map_values(|r: PanelRow| r.id@),
{
    let mut ids: Vec<String> = Vec::new();
    let mut i: usize = 0;
    while i < rows.len()
        invariant
            i <= rows@.len(),
            string_views(ids@) == rows@.take(i as int).map_values(|r: PanelRow| r.id@),
        decreases rows.len() - i,
    {
        let ghost before = ids@;
        ids.push(rows[i].id.clone());
        assert(rows@.take(i + 1) =~= rows@.take(i as int).push(rows@[i as int]));
        assert(string_views(ids@) =~= string_views(before).push(rows@[i as int].id@));
        assert(string_views(ids@) =~= rows@.take(i + 1).map_values(|r: PanelRow| r.id@));
        i += 1;
    }
    assert(rows@.take(rows@.len() as int) =~= rows@);
    ids
}

/// The errors of the stat rows, row by row.
pub open spec fn stat_errors(rows: Seq<StatFacts>, keys: Option<Map<Seq<char>, String>>) -> Seq<ErrorView> {
    Seq::new(rows.len(), |i: int| stat_row_errors(rows[i], csv_line(i), keys)).flatten()
}

fn validate_stat_rows(
    rows: &Vec<StatFacts>,
    default_locale: Option<&StringHashMap<String>>,
    errors: &mut Vec<ValidationError>,
)
    requires
        rows@.len() + 2 <= usize::MAX,
    ensures
        error_views(final(errors)@) == error_views(old(errors)@) + stat_errors(
            rows@,
            match default_locale {
                Some(m) => Some(m@),
                None => None,
            },
        ),
{
    let ghost keys = match default_locale {
        Some(m) => Some(m@),
        None => None::<Map<Seq<char>, String>>,
    };
    let ghost f = |i: int| stat_row_errors(rows@[i], csv_line(i), keys);
    let mut i: usize = 0;
    assert(Seq::new(0, f) =~= Seq::<Seq<ErrorView>>::empty());
    assert(error_views(errors@) =~= error_views(old(errors)@) + Seq::new(0, f).flatten());
    while i < rows.len()
        invariant
            i <= rows@.len(),
            rows@.len() + 2 <= usize::MAX,
            keys == match default_locale {
                Some(m) => Some(m@),
                None => None::<Map<Seq<char>, String>>,
            },
            f == (|i: int| stat_row_errors(rows@[i], csv_line(i), keys)),
            error_views(errors@) == error_views(old(errors)@) + Seq::new(i as nat, f).flatten(),
        decreases rows.len() - i,
    {
        proof {
            lemma_new_flatten_push(i as nat, f);
        }
        let ghost before = error_views(errors@);
        let row = &rows[i];
        let line = csv_row(i);
        if row.min_above_max {
            let mut message = row.id.clone();
            push_str(&mut message, " min must be <= max");
            push_error(errors, ValidationError::at("stats.csv", line, "min", message));
        }
        if row.default_outside_bounds {
            let mut message = row.id.clone();
            push_str(&mut message, " default must be within min/max");
            push_error(errors, ValidationError::at("stats.csv", line, "default", message));
        }
        validate_locale_key(default_locale, "stats.csv", line, "label_key", row.label_key.as_str(), errors);
        assert(error_views(errors@) =~= before + f(i as int));

        i += 1;
    }
    assert(Seq::new(rows@.len(), f) =~= Seq::new(rows@.len(), |i: int| stat_row_errors(rows@[i], csv_line(i), keys)));
}

/// The errors of the resource rows, row by row.
pub open spec fn resource_errors(rows: Seq<ResourceFacts>, keys: Option<Map<Seq<char>, String>>) -> Seq<ErrorView> {
    Seq::new(rows.len(), |i: int| resource_row_errors(rows[i], csv_line(i), keys)).flatten()
}

fn validate_resource_rows(
    rows: &Vec<ResourceFacts>,
    default_locale: Option<&StringHashMap<String>>,
    errors: &mut Vec<ValidationError>,
)
    requires
        rows@.len() + 2 <= usize::MAX,
    ensures
        error_views(final(errors)@) == error_views(old(errors)@) + resource_errors(
            rows@,
            match default_locale {
                Some(m) => Some(m@),
                None => None,
            },
        ),
{
    let ghost keys = match default_locale {
        Some(m) => Some(m@),
        None => None::<Map<Seq<char>, String>>,
    };
    let ghost f = |i: int| resource_row_errors(rows@[i], csv_line(i), keys);
    let mut i: usize = 0;
    assert(Seq::new(0, f) =~= Seq::<Seq<ErrorView>>::empty());
    assert(error_views(errors@) =~= error_views(old(errors)@) + Seq::new(0, f).flatten());
    while i < rows.len()
        invariant
            i <= rows@.len(),
            rows@.len() + 2 <= usize::MAX,
            keys == match default_locale {
                Some(m) => Some(m@),
                None => None::<Map<Seq<char>, String>>,
            },
            f == (|i: int| resource_row_errors(rows@[i], csv_line(i), keys)),
            error_views(errors@) == error_views(old(errors)@) + Seq::new(i as nat, f).flatten(),
        decreases rows.len() - i,
    {
        proof {
            lemma_new_flatten_push(i as nat, f);
        }
        let ghost before = error_views(errors@);
        let row = &rows[i];
        let line = csv_row(i);
        if row.default_negative {
            let mut message = row.id.clone();
            push_str(&mut message, " default must be >= 0");
            push_error(errors, ValidationError::at("resources.csv", line, "default", message));
        }
        validate_locale_key(default_locale, "resources.csv", line, "label_key", row.label_key.as_str(), errors);
        assert(error_views(errors@) =~= before + f(i as int));

        i += 1;
    }
    assert(Seq::new(rows@.len(), f) =~= Seq::new(rows@.len(), |i: int| resource_row_errors(rows@[i], csv_line(i), keys)));
}

/// The errors of the action rows, row by row.
pub open spec fn action_errors(rows: Seq<ActionFacts>, keys: Option<Map<Seq<char>, String>>) -> Seq<ErrorView> {
    Seq::new(rows.len(), |i: int| action_row_errors(rows[i], csv_line(i), keys)).flatten()
}

fn validate_action_rows(
    rows: &Vec<ActionFacts>,
    default_locale: Option<&StringHashMap<String>>,
    errors: &mut Vec<ValidationError>,
)
    requires
        rows@.len() + 2 <= usize::MAX,
    ensures
        error_views(final(errors)@) == error_views(old(errors)@) + action_errors(
            rows@,
            match default_locale {
                Some(m) => Some(m@),
                None => None,
            },
        ),
{
    let ghost keys = match default_locale {
        Some(m) => Some(m@),
        None => None::<Map<Seq<char>, String>>,
    };
    let ghost f = |i: int| action_row_errors(rows@[i], csv_line(i), keys);
    let mut i: usize = 0;
    assert(Seq::new(0, f) =~= Seq::<Seq<ErrorView>>::empty());
    assert(error_views(errors@) =~= error_views(old(errors)@) + Seq::new(0, f).flatten());
    while i < rows.len()
        invariant
            i <= rows@.len(),
            rows@.len() + 2 <= usize::MAX,
            keys == match default_locale {
                Some(m) => Some(m@),
                None => None::<Map<Seq<char>, String>>,
            },
            f == (|i: int| action_row_errors(rows@[i], csv_line(i), keys)),
            error_views(errors@) == error_views(old(errors)@) + Seq::new(i as nat, f).flatten(),
        decreases rows.len() - i,
    {
        proof {
            lemma_new_flatten_push(i as nat, f);
        }
        let ghost before = error_views(errors@);
        let row = &rows[i];
        let line = csv_row(i);
        if row.negative_cost {
            let mut message = row.id.clone();
            push_str(&mut message, " costs must be >= 0");
            push_error(errors, ValidationError::at("actions.csv", line, "cost_energy", message));
        }
        let registered = registered_action_resolvers();
        validate_resolver(&registered, "actions.csv", line, row.resolver_id.as_str(), errors);
        validate_locale_key(default_locale, "actions.csv", line, "name_key", row.name_key.as_str(), errors);
        assert(error_views(errors@) =~= before + f(i as int));

        i += 1;
    }
    assert(Seq::new(rows@.len(), f) =~= Seq::new(rows@.len(), |i: int| action_row_errors(rows@[i], csv_line(i), keys)));
}

/// The errors of the event rows, row by row.
pub open spec fn event_errors(rows: Seq<EventFacts>, keys: Option<Map<Seq<char>, String>>) -> Seq<ErrorView> {
    Seq::new(rows.len(), |i: int| event_row_errors(rows[i], csv_line(i), keys)).flatten()
}

fn validate_event_rows(
    rows: &Vec<EventFacts>,
    default_locale: Option<&StringHashMap<String>>,
    errors: &mut Vec<ValidationError>,
)
    requires
        rows@.len() + 2 <= usize::MAX,
    ensures
        error_views(final(errors)@) == error_views(old(errors)@) + event_errors(
            rows@,
            match default_locale {
                Some(m) => Some(m@),
                None => None,
            },
        ),
{
    let ghost keys = match default_locale {
        Some(m) => Some(m@),
        None => None::<Map<Seq<char>, String>>,
    };
    let ghost f = |i: int| event_row_errors(rows@[i], csv_line(i), keys);
    let mut i: usize = 0;
    assert(Seq::new(0, f) =~= Seq::<Seq<ErrorView>>::empty());
    assert(error_views(errors@) =~= error_views(old(errors)@) + Seq::new(0, f).flatten());
    while i < rows.len()
        invariant
            i <= rows@.len(),
            rows@.len() + 2 <= usize::MAX,
            keys == match default_locale {
                Some(m) => Some(m@),
                None => None::<Map<Seq<char>, String>>,
            },
            f == (|i: int| event_row_errors(rows@[i], csv_line(i), keys)),
            error_views(errors@) == error_views(old(errors)@) + Seq::new(i as nat, f).flatten(),
        decreases rows.len() - i,
    {
        proof {
            lemma_new_flatten_push(i as nat, f);
        }
        let ghost before = error_views(errors@);
        let row = &rows[i];
        let line = csv_row(i);
        if row.negative_weight {
            let mut message = row.id.clone();
            push_str(&mut message, " base_weight must be >= 0");
            push_error(errors, ValidationError::at("events.csv", line, "base_weight", message));
        }
        let registered = registered_event_resolvers();
        validate_resolver(&registered, "events.csv", line, row.resolver_id.as_str(), errors);
        validate_locale_key(default_locale, "events.csv", line, "title_key", row.title_key.as_str(), errors);
        assert(error_views(errors@) =~= before + f(i as int));

        i += 1;
    }
    assert(Seq::new(rows@.len(), f) =~= Seq::new(rows@.len(), |i: int| event_row_errors(rows@[i], csv_line(i), keys)));
}

/// The errors of the panel rows, row by row.
pub open spec fn panel_errors(rows: Seq<PanelRow>, keys: Option<Map<Seq<char>, String>>) -> Seq<ErrorView> {
    Seq::new(rows.len(), |i: int| panel_row_errors(rows[i], csv_line(i), keys)).flatten()
}

fn validate_panel_rows(
    rows: &Vec<PanelRow>,
    default_locale: Option<&StringHashMap<String>>,
    errors: &mut Vec<ValidationError>,
)
    requires
        rows@.len() + 2 <= usize::MAX,
    ensures
        error_views(final(errors)@) == error_views(old(errors)@) + panel_errors(
            rows@,
            match default_locale {
                Some(m) => Some(m@),
                None => None,
            },
        ),
{
    let ghost keys = match default_locale {
        Some(m) => Some(m@),
        None => None::<Map<Seq<char>, String>>,
    };
    let ghost f = |i: int| panel_row_errors(rows@[i], csv_line(i), keys);
    let mut i: usize = 0;
    assert(Seq::new(0, f) =~= Seq::<Seq<ErrorView>>::empty());
    assert(error_views(errors@) =~= error_views(old(errors)@) + Seq::new(0, f).flatten());
    while i < rows.len()
        invariant
            i <= rows@.len(),
            rows@.len() + 2 <= usize::MAX,
            keys == match default_locale {
                Some(m) => Some(m@),
                None => None::<Map<Seq<char>, String>>,
            },
            f == (|i: int| panel_row_errors(rows@[i], csv_line(i), keys)),
            error_views(errors@) == error_views(old(errors)@) + Seq::new(i as nat, f).flatten(),
        decreases rows.len() - i,
    {
        proof {
            lemma_new_flatten_push(i as nat, f);
        }
        let ghost before = error_views(errors@);
        let row = &rows[i];
        let line = csv_row(i);
        validate_locale_key(default_locale, "panels.csv", line, "title_key", row.title_key.as_str(), errors);
        assert(error_views(errors@) =~= before + f(i as int));

        i += 1;
    }
    assert(Seq::new(rows@.len(), f) =~= Seq::new(rows@.len(), |i: int| panel_row_errors(rows@[i], csv_line(i), keys)));
}

/// The errors of the prompt rows, row by row.
pub open spec fn prompt_errors(rows: Seq<PromptRow>, keys: Option<Map<Seq<char>, String>>) -> Seq<ErrorView> {
    Seq::new(rows.len(), |i: int| prompt_row_errors(rows[i], csv_line(i), keys)).flatten()
}

fn validate_prompt_rows(
    rows: &Vec<PromptRow>,
    default_locale: Option<&StringHashMap<String>>,
    errors: &mut Vec<ValidationError>,
)
    requires
        rows@.len() + 2 <= usize::MAX,
    ensures
        error_views(final(errors)@) == error_views(old(errors)@) + prompt_errors(
            rows@,
            match default_locale {
                Some(m) => Some(m@),
                None => None,
            },
        ),
{
    let ghost keys = match default_locale {
        Some(m) => Some(m@),
        None => None::<Map<Seq<char>, String>>,
    };
    let ghost f = |i: int| prompt_row_errors(rows@[i], csv_line(i), keys);
    let mut i: usize = 0;
    assert(Seq::new(0, f) =~= Seq::<Seq<ErrorView>>::empty());
    assert(error_views(errors@) =~= error_views(old(errors)@) + Seq::new(0, f).flatten());
    while i < rows.len()
        invariant
            i <= rows@.len(),
            rows@.len() + 2 <= usize::MAX,
            keys == match default_locale {
                Some(m) => Some(m@),
                None => None::<Map<Seq<char>, String>>,
            },
            f == (|i: int| prompt_row_errors(rows@[i], csv_line(i), keys)),
            error_views(errors@) == error_views(old(errors)@) + Seq::new(i as nat, f).flatten(),
        decreases rows.len() - i,
    {
        proof {
            lemma_new_flatten_push(i as nat, f);
        }
        let ghost before = error_views(errors@);
        let row = &rows[i];
        let line = csv_row(i);
        validate_locale_key(default_locale, "prompts.csv", line, "template_key", row.template_key.as_str(), errors);
        if let Some(locale) = default_locale {
            if let Some(template) = locale.get(row.template_key.as_str()) {
                check_placeholders(line, row.variables.as_str(), template.as_str(), errors);
            }
        }
        assert(error_views(errors@) =~= before + f(i as int));

        i += 1;
    }
    assert(Seq::new(rows@.len(), f) =~= Seq::new(rows@.len(), |i: int| prompt_row_errors(rows@[i], csv_line(i), keys)));
}


/// The keys of the default locale's table, when the manifest's default
/// locale has one.
pub open spec fn default_keys(c: &ConfigFacts) -> Option<Map<Seq<char>, String>> {
    if c.locales@.contains_key(c.manifest.default_locale@) {
        Some(c.locales@[c.manifest.default_locale@].entries@)
    } else {
        None
    }
}

/// The errors of the manifest: blank id, blank version, a default locale
/// without a table.
pub open spec fn manifest_errors(c: &ConfigFacts) -> Seq<ErrorView> {
    (if is_blank(c.manifest.id@) {
        seq![file_error("scenario.toml"@, "id is required"@)]
    } else {
        seq![]
    }) + (if is_blank(c.manifest.version@) {
        seq![file_error("scenario.toml"@, "version is required"@)]
    } else {
        seq![]
    }) + (if !c.locales@.contains_key(c.manifest.default_locale@) {
        seq![
            file_error(
                "scenario.toml"@,
                "default_locale "@ + c.manifest.default_locale@ + " has no locale table"@,
            ),
        ]
    } else {
        seq![]
    })
}

/// Every error of a configuration, in the order in which they are reported:
/// the manifest, then the header row of each table, then the id column of
/// each table, then each table row by row.
pub open spec fn config_errors(c: &ConfigFacts) -> Seq<ErrorView> {
    let keys = default_keys(c);
    manifest_errors(c)
        + table_header_errors(c.headers)
        + id_errors("stats.csv"@, c.stats@.map_values(|r: StatFacts| r.id@))
        + id_errors("resources.csv"@, c.resources@.map_values(|r: ResourceFacts| r.id@))
        + id_errors("actions.csv"@, c.actions@.map_values(|r: ActionFacts| r.id@))
        + id_errors("events.csv"@, c.events@.map_values(|r: EventFacts| r.id@))
        + id_errors("panels.csv"@, c.panels@.map_values(|r: PanelRow| r.id@))
        + stat_errors(c.stats@, keys)
        + resource_errors(c.resources@, keys)
        + action_errors(c.actions@, keys)
        + event_errors(c.events@, keys)
        + panel_errors(c.panels@, keys)
        + prompt_errors(c.prompts@, keys)
}

/// One of the joined pieces holds `x`, so the joined pieces do.
proof fn lemma_flatten_contains<A>(n: nat, f: spec_fn(int) -> Seq<A>, i: int, x: A)
    requires
        0 <= i < n,
        f(i).contains(x),
    ensures
        Seq::new(n, f).flatten().contains(x),
    decreases n,
{
    let m = (n - 1) as nat;
    lemma_new_flatten_push(m, f);
    let front = Seq::new(m, f).flatten();
    if i == m {
        let piece = f(i);
        let k = choose|k: int| 0 <= k < piece.len() && piece[k] == x;
        assert((front + piece)[front.len() + k] == x);
    } else {
        lemma_flatten_contains(m, f, i, x);
        let k = choose|k: int| 0 <= k < front.len() && front[k] == x;
        assert((front + f(m as int))[k] == x);
    }
}

/// What either part holds, the two joined hold.
proof fn lemma_concat_contains<A>(a: Seq<A>, b: Seq<A>, x: A)
    requires
        a.contains(x) || b.contains(x),
    ensures
        (a + b).contains(x),
{
    if a.contains(x) {
        let k = choose|k: int| 0 <= k < a.len() && a[k] == x;
        assert((a + b)[k] == x);
    } else {
        let k = choose|k: int| 0 <= k < b.len() && b[k] == x;
        assert((a + b)[a.len() + k] == x);
    }
}

/// An error of a stats row is an error of the configuration.
proof fn lemma_stat_row_error_in_config(c: &ConfigFacts, i: int, x: ErrorView)
    requires
        0 <= i < c.stats@.len(),
        stat_row_errors(c.stats@[i], csv_line(i), default_keys(c)).contains(x),
    ensures
        config_errors(c).contains(x),
{
    let keys = default_keys(c);
    let f = |j: int| stat_row_errors(c.stats@[j], csv_line(j), keys);
    assert(Seq::new(c.stats@.len(), f) =~= Seq::new(
        c.stats@.len(),
        |j: int| stat_row_errors(c.stats@[j], csv_line(j), keys),
    ));
    let before = manifest_errors(c) + table_header_errors(c.headers) + id_errors(
        "stats.csv"@,
        c.stats@.map_values(|r: StatFacts| r.id@),
    ) + id_errors("resources.csv"@, c.resources@.map_values(|r: ResourceFacts| r.id@)) + id_errors(
        "actions.csv"@,
        c.actions@.map_values(|r: ActionFacts| r.id@),
    ) + id_errors("events.csv"@, c.events@.map_values(|r: EventFacts| r.id@)) + id_errors(
        "panels.csv"@,
        c.panels@.map_values(|r: PanelRow| r.id@),
    );
    let stats = stat_errors(c.stats@, keys);
    let resources = resource_errors(c.resources@, keys);
    let actions = action_errors(c.actions@, keys);
    let events = event_errors(c.events@, keys);
    let panels = panel_errors(c.panels@, keys);
    let prompts = prompt_errors(c.prompts@, keys);
    lemma_flatten_contains(c.stats@.len(), f, i, x);
    lemma_concat_contains(before, stats, x);
    lemma_concat_contains(before + stats, resources, x);
    lemma_concat_contains(before + stats + resources, actions, x);
    lemma_concat_contains(before + stats + resources + actions, events, x);
    lemma_concat_contains(before + stats + resources + actions + events, panels, x);
    lemma_concat_contains(before + stats + resources + actions + events + panels, prompts, x);
}

/// A stat row's problems are always reported, at its row and in the column
/// at fault, so a configuration with such a row is never accepted: a
/// minimum above the maximum (`min`), a default outside min/max
/// (`default`), a blank label key, or a label key that the default locale
/// lacks (`label_key`).
pub proof fn lemma_stat_problems_reported(c: &ConfigFacts, i: int)
    requires
        0 <= i < c.stats@.len(),
    ensures
        c.stats@[i].min_above_max ==> config_errors(c).contains(
            cell_error("stats.csv"@, csv_line(i), "min"@, c.stats@[i].id@ + " min must be <= max"@),
        ),
        c.stats@[i].default_outside_bounds ==> config_errors(c).contains(
            cell_error(
                "stats.csv"@,
                csv_line(i),
                "default"@,
                c.stats@[i].id@ + " default must be within min/max"@,
            ),
        ),
        is_blank(c.stats@[i].label_key@) ==> config_errors(c).contains(
            cell_error("stats.csv"@, csv_line(i), "label_key"@, "locale key is required"@),
        ),
        !is_blank(c.stats@[i].label_key@) && c.locales@.contains_key(c.manifest.default_locale@)
            && !c.locales@[c.manifest.default_locale@].entries@.contains_key(c.stats@[i].label_key@)
            ==> config_errors(c).contains(
            cell_error(
                "stats.csv"@,
                csv_line(i),
                "label_key"@,
                "missing locale key "@ + debug_quoted(c.stats@[i].label_key@),
            ),
        ),
{
    let keys = default_keys(c);
    let r = c.stats@[i];
    let row = csv_line(i);
    let min_part = if r.min_above_max {
        seq![cell_error("stats.csv"@, row, "min"@, r.id@ + " min must be <= max"@)]
    } else {
        seq![]
    };
    let default_part = if r.default_outside_bounds {
        seq![cell_error("stats.csv"@, row, "default"@, r.id@ + " default must be within min/max"@)]
    } else {
        seq![]
    };
    let label_part = locale_key_errors(keys, "stats.csv"@, row, "label_key"@, r.label_key@);
    let all = stat_row_errors(r, row, keys);
    assert(all == min_part + default_part + label_part);
    if min_part.len() > 0 {
        assert(all[0] == min_part[0]);
        lemma_stat_row_error_in_config(c, i, min_part[0]);
    }
    if default_part.len() > 0 {
        assert(all[min_part.len() as int] == default_part[0]);
        lemma_stat_row_error_in_config(c, i, default_part[0]);
    }
    if label_part.len() > 0 {
        assert(all[(min_part.len() + default_part.len()) as int] == label_part[0]);
        lemma_stat_row_error_in_config(c, i, label_part[0]);
    }
}

/// Every problem of a scenario configuration (see [`config_errors`]).
pub fn validate_config(config: &ConfigFacts) -> (errors: Vec<ValidationError>)
    requires
        config.stats@.len() + 2 <= usize::MAX,
        config.resources@.len() + 2 <= usize::MAX,
        config.actions@.len() + 2 <= usize::MAX,
        config.events@.len() + 2 <= usize::MAX,
        config.panels@.len() + 2 <= usize::MAX,
        config.prompts@.len() + 2 <= usize::MAX,
    ensures
        error_views(errors@) == config_errors(config),
{
    let mut errors: Vec<ValidationError> = Vec::new();
    let ghost start = error_views(errors@);
    if blank(config.manifest.id.as_str()) {
        push_error(&mut errors, ValidationError::new("scenario.toml", "id is required".to_string()));
    }
    if blank(config.manifest.version.as_str()) {
        push_error(&mut errors, ValidationError::new("scenario.toml", "version is required".to_string()));
    }
    if !config.locales.contains_key(config.manifest.default_locale.as_str()) {
        let mut message = "default_locale ".to_string();
        push_str(&mut message, config.manifest.default_locale.as_str());
        push_str(&mut message, " has no locale table");
        push_error(&mut errors, ValidationError::new("scenario.toml", message));
    }
    assert(error_views(errors@) =~= manifest_errors(config));
    check_table_headers(&config.headers, &mut errors);

    validate_ids("stats.csv", &stat_ids(&config.stats), &mut errors);
    validate_ids("resources.csv", &resource_ids(&config.resources), &mut errors);
    validate_ids("actions.csv", &action_ids(&config.actions), &mut errors);
    validate_ids("events.csv", &event_ids(&config.events), &mut errors);
    validate_ids("panels.csv", &panel_ids(&config.panels), &mut errors);

    let default_locale = match config.locales.get(config.manifest.default_locale.as_str()) {
        Some(table) => Some(&table.entries),
        None => None,
    };
    validate_stat_rows(&config.stats, default_locale, &mut errors);
    validate_resource_rows(&config.resources, default_locale, &mut errors);
    validate_action_rows(&config.actions, default_locale, &mut errors);
    validate_event_rows(&config.events, default_locale, &mut errors);
    validate_panel_rows(&config.panels, default_locale, &mut errors);
    validate_prompt_rows(&config.prompts, default_locale, &mut errors);
    errors
}

} // verus!

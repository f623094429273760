//! The agent-facing tool surface: the tools offered, the daemon method each
//! one calls, and the compact form in which a tool's output is handed back.
//! Tool output is a JSON document, held here as a `Json` tree.

use crate::daemon::{method_name, tool_method_named, DaemonMethod};
use crate::text::{decimal, decimal_string, push_decimal, push_str, str_eq};
use vstd::prelude::*;

verus! {

/// A JSON document. Numbers keep their text; an object keeps its fields in
/// order.
#[derive(Debug, PartialEq)]
pub enum Json {
    Null,
    Bool(bool),
    Number(String),
    Str(String),
    Array(Vec<Json>),
    Object(Vec<(String, Json)>),
}

/// The mathematical form of a JSON document.
pub enum JsonV {
    Null,
    Bool(bool),
    Number(Seq<char>),
    Str(Seq<char>),
    Array(Seq<JsonV>),
    Object(Seq<(Seq<char>, JsonV)>),
}

/// The form of one document.
pub open spec fn json_view(j: Json) -> JsonV
    decreases j, 1int,
{
    match j {
        Json::Null => JsonV::Null,
        Json::Bool(b) => JsonV::Bool(b),
        Json::Number(n) => JsonV::Number(n@),
        Json::Str(s) => JsonV::Str(s@),
        Json::Array(items) => {
            proof {
                assert(decreases_to!(j => j->Array_0));
                assert(decreases_to!(j->Array_0 => j->Array_0@));
            }
            JsonV::Array(items_view(items@))
        },
        Json::Object(fields) => {
            proof {
                assert(decreases_to!(j => j->Object_0));
                assert(decreases_to!(j->Object_0 => j->Object_0@));
            }
            JsonV::Object(fields_view(fields@))
        },
    }
}

/// The forms of a run of documents.
pub open spec fn items_view(items: Seq<Json>) -> Seq<JsonV>
    decreases items, 0int,
{
    if items.len() == 0 {
        Seq::empty()
    } else {
        proof {
            assert(decreases_to!(items => items.subrange(0, items.len() - 1)));
            assert(decreases_to!(items => items[items.len() - 1]));
        }
        items_view(items.subrange(0, items.len() - 1)).push(json_view(items[items.len() - 1]))
    }
}

/// The forms of a run of named fields.
pub open spec fn fields_view(fields: Seq<(String, Json)>) -> Seq<(Seq<char>, JsonV)>
    decreases fields, 0int,
{
    if fields.len() == 0 {
        Seq::empty()
    } else {
        proof {
            assert(decreases_to!(fields => fields.subrange(0, fields.len() - 1)));
            assert(decreases_to!(fields => fields[fields.len() - 1]));
            assert(decreases_to!(fields[fields.len() - 1] => fields[fields.len() - 1].1));
        }
        fields_view(fields.subrange(0, fields.len() - 1)).push(
            (fields[fields.len() - 1].0@, json_view(fields[fields.len() - 1].1)),
        )
    }
}

/// The forms of a run of documents, one by one.
pub proof fn lemma_items_view(items: Seq<Json>)
    ensures
        items_view(items).len() == items.len(),
        forall|i: int| 0 <= i < items.len() ==> #[trigger] items_view(items)[i] == json_view(items[i]),
    decreases items.len(),
{
    if items.len() > 0 {
        lemma_items_view(items.subrange(0, items.len() - 1));
    }
}

/// The forms of a run of fields, one by one.
pub proof fn lemma_fields_view(fields: Seq<(String, Json)>)
    ensures
        fields_view(fields).len() == fields.len(),
        forall|i: int| 0 <= i < fields.len() ==> #[trigger] fields_view(fields)[i] == (fields[i].0@, json_view(fields[i].1)),
    decreases fields.len(),
{
    if fields.len() > 0 {
        lemma_fields_view(fields.subrange(0, fields.len() - 1));
    }
}

/// Appending a document appends its form.
pub proof fn lemma_items_view_push(items: Seq<Json>, item: Json)
    ensures
        items_view(items.push(item)) == items_view(items).push(json_view(item)),
{
    assert(items.push(item).subrange(0, items.len() as int) =~= items);
}

/// Appending a field appends its form.
pub proof fn lemma_fields_view_push(fields: Seq<(String, Json)>, field: (String, Json))
    ensures
        fields_view(fields.push(field)) == fields_view(fields).push((field.0@, json_view(field.1))),
{
    assert(fields.push(field).subrange(0, fields.len() as int) =~= fields);
}

impl View for Json {
    type V = JsonV;

    open spec fn view(&self) -> JsonV {
        json_view(*self)
    }
}

impl Json {
    /// A copy with the same form.
    pub fn duplicate(&self) -> (r: Json)
        ensures
            r@ == self@,
        decreases self,
    {
        match self {
            Json::Null => Json::Null,
            Json::Bool(b) => Json::Bool(*b),
            Json::Number(n) => Json::Number(n.clone()),
            Json::Str(s) => Json::Str(s.clone()),
            Json::Array(items) => {
                let mut out: Vec<Json> = Vec::new();
                let mut i: usize = 0;
                while i < items.len()
                    invariant
                        i <= items@.len(),
                        *self == Json::Array(*items),
                        items_view(out@) == items_view(items@.take(i as int)),
                    decreases items.len() - i,
                {
                    proof {
                        assert(decreases_to!(*self => self->Array_0));
                        assert(decreases_to!(self->Array_0 => self->Array_0@));
                        assert(decreases_to!(self->Array_0@ => self->Array_0@[i as int]));
                    }
                    let item = items[i].duplicate();
                    proof {
                        lemma_items_view_push(out@, item);
                        lemma_items_view_push(items@.take(i as int), items@[i as int]);
                        assert(items@.take(i as int).push(items@[i as int]) =~= items@.take(i + 1));
                    }
                    out.push(item);
                    i += 1;
                }
                assert(items@.take(items@.len() as int) =~= items@);
                Json::Array(out)
            },
            Json::Object(fields) => {
                let mut out: Vec<(String, Json)> = Vec::new();
                let mut i: usize = 0;
                while i < fields.len()
                    invariant
                        i <= fields@.len(),
                        *self == Json::Object(*fields),
                        fields_view(out@) == fields_view(fields@.take(i as int)),
                    decreases fields.len() - i,
                {
                    proof {
                        assert(decreases_to!(*self => self->Object_0));
                        assert(decreases_to!(self->Object_0 => self->Object_0@));
                        assert(decreases_to!(self->Object_0@ => self->Object_0@[i as int]));
                        assert(decreases_to!(self->Object_0@[i as int] => self->Object_0@[i as int].1));
                    }
                    let value = fields[i].1.duplicate();
                    let field = (fields[i].0.clone(), value);
                    proof {
                        lemma_fields_view_push(out@, field);
                        lemma_fields_view_push(fields@.take(i as int), fields@[i as int]);
                        assert(fields@.take(i as int).push(fields@[i as int]) =~= fields@.take(i + 1));
                    }
                    out.push(field);
                    i += 1;
                }
                assert(fields@.take(fields@.len() as int) =~= fields@);
                Json::Object(out)
            },
        }
    }
}

/// The value of the first field named `key`; null when there is none.
pub open spec fn field_value(fields: Seq<(Seq<char>, JsonV)>, key: Seq<char>) -> JsonV
    decreases fields.len(),
{
    if fields.len() == 0 {
        JsonV::Null
    } else if fields[0].0 == key {
        fields[0].1
    } else {
        field_value(fields.drop_first(), key)
    }
}

/// What indexing a document by a key gives: the field's value in an object
/// that has the field, null otherwise.
pub open spec fn get_v(v: JsonV, key: Seq<char>) -> JsonV {
    match v {
        JsonV::Object(fields) => field_value(fields, key),
        _ => JsonV::Null,
    }
}

/// The last `limit` items of an array (all of them when it is shorter); an
/// empty array for anything else.
pub open spec fn recent_v(v: JsonV, limit: nat) -> JsonV {
    match v {
        JsonV::Array(items) => JsonV::Array(
            if items.len() > limit {
                items.subrange(items.len() - limit, items.len() as int)
            } else {
                items
            },
        ),
        _ => JsonV::Array(Seq::empty()),
    }
}

impl Json {
    /// The value under `key`, as indexing by a key gives it.
    pub fn get(&self, key: &str) -> (r: Json)
        ensures
            r@ == get_v(self@, key@),
    {
        match self {
            Json::Object(fields) => {
                let ghost fv = fields_view(fields@);
                proof {
                    lemma_fields_view(fields@);
                    assert(fv.skip(0) =~= fv);
                }
                let mut i: usize = 0;
                while i < fields.len()
                    invariant
                        i <= fields@.len(),
                        *self == Json::Object(*fields),
                        fv == fields_view(fields@),
                        fv.len() == fields@.len(),
                        forall|j: int| 0 <= j < fields@.len() ==> #[trigger] fv[j] == (fields@[j].0@, json_view(fields@[j].1)),
                        field_value(fv, key@) == field_value(fv.skip(i as int), key@),
                    decreases fields.len() - i,
                {
                    assert(fv.skip(i as int)[0] == fv[i as int]);
                    if str_eq(fields[i].0.as_str(), key) {
                        return fields[i].1.duplicate();
                    }
                    assert(fv.skip(i as int).drop_first() =~= fv.skip(i + 1));
                    i += 1;
                }
                Json::Null
            },
            _ => Json::Null,
        }
    }
}

/// The last `limit` items of an array value, as a new array.
pub fn recent_items(value: &Json, limit: usize) -> (r: Json)
    ensures
        r@ == recent_v(value@, limit as nat),
{
    match value {
        Json::Array(items) => {
            let start: usize = if items.len() > limit {
                items.len() - limit
            } else {
                0
            };
            let ghost want = items@.subrange(start as int, items@.len() as int);
            let mut out: Vec<Json> = Vec::new();
            let mut i: usize = start;
            proof {
                lemma_items_view(items@);
                assert(items_view(out@) =~= items_view(items@).subrange(start as int, start as int));
            }
            while i < items.len()
                invariant
                    start <= i <= items@.len(),
                    *value == Json::Array(*items),
                    items_view(items@).len() == items@.len(),
                    forall|j: int| 0 <= j < items@.len() ==> #[trigger] items_view(items@)[j] == json_view(items@[j]),
                    items_view(out@) == items_view(items@).subrange(start as int, i as int),
                decreases items.len() - i,
            {
                let item = items[i].duplicate();
                proof {
                    lemma_items_view_push(out@, item);
                    assert(items_view(items@).subrange(start as int, i as int).push(json_view(items@[i as int]))
                        =~= items_view(items@).subrange(start as int, i + 1));
                }
                out.push(item);
                i += 1;
            }
            assert(items_view(items@).subrange(start as int, items@.len() as int) =~= (if items@.len() > limit {
                items_view(items@).subrange(items@.len() - limit, items@.len() as int)
            } else {
                items_view(items@)
            }));
            Json::Array(out)
        },
        _ => Json::Array(Vec::new()),
    }
}

/// Appends the field `key` with the value `value`.
fn push_field(fields: &mut Vec<(String, Json)>, key: &str, value: Json)
    ensures
        fields_view(final(fields)@) == fields_view(old(fields)@).push((key@, value@)),
{
    let field = (key.to_string(), value);
    proof {
        lemma_fields_view_push(fields@, field);
    }
    fields.push(field);
}

/// Appends the field `key` with the value that `from` has under the same key.
fn keep_field(fields: &mut Vec<(String, Json)>, from: &Json, key: &str)
    ensures
        fields_view(final(fields)@) == fields_view(old(fields)@).push((key@, get_v(from@, key@))),
{
    let value = from.get(key);
    push_field(fields, key, value);
}

/// The field `key` as it stands in `v`.
pub open spec fn kept(v: JsonV, key: Seq<char>) -> (Seq<char>, JsonV) {
    (key, get_v(v, key))
}

/// The parts of a world state that a tool hands back.
pub open spec fn compact_world_state_v(s: JsonV) -> JsonV {
    JsonV::Object(
        seq![
            kept(s, "tick"@),
            kept(s, "alive"@),
            kept(s, "outcome"@),
            kept(s, "stats"@),
            kept(s, "resources"@),
            kept(s, "environment"@),
            kept(s, "memory"@),
            kept(s, "personality"@),
        ],
    )
}

/// The parts of a pending decision that a tool hands back; null stays null.
pub open spec fn compact_pending_v(p: JsonV) -> JsonV {
    if p is Null {
        JsonV::Null
    } else {
        JsonV::Object(
            seq![
                kept(p, "id"@),
                kept(p, "tick"@),
                kept(p, "scenario_id"@),
                kept(p, "event"@),
                kept(p, "actions"@),
                ("state"@, compact_world_state_v(get_v(p, "state"@))),
            ],
        )
    }
}

/// The parts of a session snapshot that a tool hands back: the run's
/// identity and clock, the compact state and pending decision, the last
/// five logs and decisions, and the counts.
pub open spec fn compact_snapshot_v(s: JsonV) -> JsonV {
    JsonV::Object(
        seq![
            kept(s, "run_id"@),
            kept(s, "scenario_id"@),
            kept(s, "scenario_version"@),
            kept(s, "config_hash"@),
            kept(s, "active_locale"@),
            kept(s, "tick"@),
            kept(s, "day"@),
            kept(s, "paused"@),
            kept(s, "outcome"@),
            kept(s, "agent_connection"@),
            ("state"@, compact_world_state_v(get_v(s, "state"@))),
            ("pending_decision"@, compact_pending_v(get_v(s, "pending_decision"@))),
            ("recent_logs"@, recent_v(get_v(s, "logs"@), 5)),
            ("recent_decisions"@, recent_v(get_v(s, "decisions"@), 5)),
            kept(s, "counts"@),
        ],
    )
}

/// The resolution of one reported event, with its tick, event and decision.
pub open spec fn resolution_entry_v(e: JsonV) -> JsonV {
    let payload = get_v(e, "payload"@);
    let resolution = get_v(payload, "resolution"@);
    JsonV::Object(
        seq![
            ("tick"@, get_v(e, "tick"@)),
            ("event"@, get_v(payload, "event"@)),
            ("decision"@, get_v(payload, "decision"@)),
            ("success"@, get_v(resolution, "success"@)),
            ("summary"@, get_v(resolution, "summary"@)),
            ("changes"@, get_v(resolution, "changes"@)),
        ],
    )
}

/// Whether a reported event carries a resolution.
pub open spec fn has_resolution(e: JsonV) -> bool {
    !(get_v(get_v(e, "payload"@), "resolution"@) is Null)
}

/// The resolutions among reported events, in order.
pub open spec fn resolutions_of(events: Seq<JsonV>) -> Seq<JsonV>
    decreases events.len(),
{
    if events.len() == 0 {
        Seq::empty()
    } else {
        let before = resolutions_of(events.drop_last());
        if has_resolution(events.last()) {
            before.push(resolution_entry_v(events.last()))
        } else {
            before
        }
    }
}

/// The resolutions of an events array; none for anything else.
pub open spec fn resolutions_v(events: JsonV) -> Seq<JsonV> {
    match events {
        JsonV::Array(items) => resolutions_of(items),
        _ => Seq::empty(),
    }
}

/// How many items an array holds; zero for anything else.
pub open spec fn array_len_v(v: JsonV) -> nat {
    match v {
        JsonV::Array(items) => items.len(),
        _ => 0,
    }
}

/// The parts of a decision report that a tool hands back: the decisions,
/// the resolutions, the last five logs, whether a snapshot was saved and how
/// many presentation events there were.
pub open spec fn compact_report_v(r: JsonV) -> JsonV {
    JsonV::Object(
        seq![
            kept(r, "decisions"@),
            ("resolutions"@, JsonV::Array(resolutions_v(get_v(r, "events"@)))),
            ("recent_logs"@, recent_v(get_v(r, "logs"@), 5)),
            kept(r, "snapshot_saved"@),
            ("ui_event_count"@, JsonV::Number(decimal(array_len_v(get_v(r, "ui_events"@))))),
        ],
    )
}

/// A field that no entry is named after reads as null.
pub proof fn lemma_field_absent(fields: Seq<(Seq<char>, JsonV)>, key: Seq<char>)
    requires
        forall|i: int| 0 <= i < fields.len() ==> #[trigger] fields[i].0 != key,
    ensures
        field_value(fields, key) == JsonV::Null,
    decreases fields.len(),
{
    if fields.len() > 0 {
        assert(fields[0].0 != key);
        assert forall|i: int| 0 <= i < fields.drop_first().len() implies #[trigger] fields.drop_first()[i].0 != key by {
            assert(fields.drop_first()[i] == fields[i + 1]);
        }
        lemma_field_absent(fields.drop_first(), key);
    }
}

/// The first entry named after a field gives its value.
pub proof fn lemma_field_at(fields: Seq<(Seq<char>, JsonV)>, key: Seq<char>, i: int)
    requires
        0 <= i < fields.len(),
        fields[i].0 == key,
        forall|j: int| 0 <= j < i ==> #[trigger] fields[j].0 != key,
    ensures
        field_value(fields, key) == fields[i].1,
    decreases i,
{
    if i > 0 {
        assert(fields[0].0 != key);
        assert forall|j: int| 0 <= j < i - 1 implies #[trigger] fields.drop_first()[j].0 != key by {
            assert(fields.drop_first()[j] == fields[j + 1]);
        }
        lemma_field_at(fields.drop_first(), key, i - 1);
    }
}

/// A compact snapshot carries no presentation events and no full log or
/// decision history, and its recent logs hold at most five entries.
pub proof fn lemma_compact_snapshot_omits_history(s: JsonV)
    ensures
        get_v(compact_snapshot_v(s), "ui_events"@) == JsonV::Null,
        get_v(compact_snapshot_v(s), "logs"@) == JsonV::Null,
        get_v(compact_snapshot_v(s), "decisions"@) == JsonV::Null,
        get_v(compact_snapshot_v(s), "recent_logs"@) matches JsonV::Array(items) && items.len() <= 5,
{
    let fields = compact_snapshot_v(s)->Object_0;
    reveal_strlit("ui_events");
    reveal_strlit("logs");
    reveal_strlit("decisions");
    reveal_strlit("run_id");
    reveal_strlit("scenario_id");
    reveal_strlit("scenario_version");
    reveal_strlit("config_hash");
    reveal_strlit("active_locale");
    reveal_strlit("tick");
    reveal_strlit("day");
    reveal_strlit("paused");
    reveal_strlit("outcome");
    reveal_strlit("agent_connection");
    reveal_strlit("state");
    reveal_strlit("pending_decision");
    reveal_strlit("recent_logs");
    reveal_strlit("recent_decisions");
    reveal_strlit("counts");
    assert forall|i: int| 0 <= i < fields.len() implies #[trigger] fields[i].0 != "ui_events"@ by {
        assert(fields[i].0.len() != "ui_events"@.len());
    }
    lemma_field_absent(fields, "ui_events"@);
    assert forall|i: int| 0 <= i < fields.len() implies #[trigger] fields[i].0 != "decisions"@ by {
        assert(fields[i].0.len() != "decisions"@.len());
    }
    lemma_field_absent(fields, "decisions"@);
    assert forall|i: int| 0 <= i < fields.len() implies #[trigger] fields[i].0 != "logs"@ by {
        if fields[i].0.len() == 4 {
            assert(fields[i].0[0] != "logs"@[0]);
        }
    }
    lemma_field_absent(fields, "logs"@);
    assert forall|j: int| 0 <= j < 12 implies #[trigger] fields[j].0 != "recent_logs"@ by {
        if fields[j].0.len() == 11 {
            assert(fields[j].0[0] != "recent_logs"@[0]);
        }
    }
    lemma_field_at(fields, "recent_logs"@, 12);
}

/// The compact form of a world state.
pub fn compact_world_state(state: &Json) -> (r: Json)
    ensures
        r@ == compact_world_state_v(state@),
{
    let mut f: Vec<(String, Json)> = Vec::new();
    assert(fields_view(f@) == Seq::<(Seq<char>, JsonV)>::empty());
    keep_field(&mut f, state, "tick");
    keep_field(&mut f, state, "alive");
    keep_field(&mut f, state, "outcome");
    keep_field(&mut f, state, "stats");
    keep_field(&mut f, state, "resources");
    keep_field(&mut f, state, "environment");
    keep_field(&mut f, state, "memory");
    keep_field(&mut f, state, "personality");
    assert(fields_view(f@) =~= compact_world_state_v(state@)->Object_0);
    Json::Object(f)
}

/// The compact form of a pending decision.
pub fn compact_pending_decision(pending: &Json) -> (r: Json)
    ensures
        r@ == compact_pending_v(pending@),
{
    if let Json::Null = pending {
        return Json::Null;
    }
    let mut f: Vec<(String, Json)> = Vec::new();
    assert(fields_view(f@) == Seq::<(Seq<char>, JsonV)>::empty());
    keep_field(&mut f, pending, "id");
    keep_field(&mut f, pending, "tick");
    keep_field(&mut f, pending, "scenario_id");
    keep_field(&mut f, pending, "event");
    keep_field(&mut f, pending, "actions");
    let state = compact_world_state(&pending.get("state"));
    push_field(&mut f, "state", state);
    assert(fields_view(f@) =~= compact_pending_v(pending@)->Object_0);
    Json::Object(f)
}

/// The compact form of a session snapshot.
pub fn compact_snapshot(snapshot: &Json) -> (r: Json)
    ensures
        r@ == compact_snapshot_v(snapshot@),
{
    let mut f: Vec<(String, Json)> = Vec::new();
    assert(fields_view(f@) == Seq::<(Seq<char>, JsonV)>::empty());
    keep_field(&mut f, snapshot, "run_id");
    keep_field(&mut f, snapshot, "scenario_id");
    keep_field(&mut f, snapshot, "scenario_version");
    keep_field(&mut f, snapshot, "config_hash");
    keep_field(&mut f, snapshot, "active_locale");
    keep_field(&mut f, snapshot, "tick");
    keep_field(&mut f, snapshot, "day");
    keep_field(&mut f, snapshot, "paused");
    keep_field(&mut f, snapshot, "outcome");
    keep_field(&mut f, snapshot, "agent_connection");
    let state = compact_world_state(&snapshot.get("state"));
    push_field(&mut f, "state", state);
    let pending = compact_pending_decision(&snapshot.get("pending_decision"));
    push_field(&mut f, "pending_decision", pending);
    let logs = recent_items(&snapshot.get("logs"), 5);
    push_field(&mut f, "recent_logs", logs);
    let decisions = recent_items(&snapshot.get("decisions"), 5);
    push_field(&mut f, "recent_decisions", decisions);
    keep_field(&mut f, snapshot, "counts");
    assert(fields_view(f@) =~= compact_snapshot_v(snapshot@)->Object_0);
    Json::Object(f)
}

/// The resolution entry of one reported event.
fn resolution_entry(event: &Json) -> (r: Json)
    ensures
        r@ == resolution_entry_v(event@),
{
    let payload = event.get("payload");
    let resolution = payload.get("resolution");
    let mut f: Vec<(String, Json)> = Vec::new();
    assert(fields_view(f@) == Seq::<(Seq<char>, JsonV)>::empty());
    keep_field(&mut f, event, "tick");
    keep_field(&mut f, &payload, "event");
    keep_field(&mut f, &payload, "decision");
    keep_field(&mut f, &resolution, "success");
    keep_field(&mut f, &resolution, "summary");
    keep_field(&mut f, &resolution, "changes");
    assert(fields_view(f@) =~= resolution_entry_v(event@)->Object_0);
    Json::Object(f)
}

/// The resolutions among the reported events.
fn resolutions(events: &Json) -> (r: Vec<Json>)
    ensures
        items_view(r@) == resolutions_v(events@),
{
    let mut out: Vec<Json> = Vec::new();
    match events {
        Json::Array(items) => {
            let ghost iv = items_view(items@);
            proof {
                lemma_items_view(items@);
                assert(iv.take(0) =~= Seq::<JsonV>::empty());
            }
            let mut i: usize = 0;
            while i < items.len()
                invariant
                    i <= items@.len(),
                    iv == items_view(items@),
                    iv.len() == items@.len(),
                    forall|j: int| 0 <= j < items@.len() ==> #[trigger] iv[j] == json_view(items@[j]),
                    items_view(out@) == resolutions_of(iv.take(i as int)),
                decreases items.len() - i,
            {
                let payload = items[i].get("payload");
                let resolution = payload.get("resolution");
                proof {
                    assert(iv.take(i + 1).drop_last() =~= iv.take(i as int));
                    assert(iv.take(i + 1).last() == json_view(items@[i as int]));
                }
                if let Json::Null = resolution {
                } else {
                    let entry = resolution_entry(&items[i]);
                    proof {
                        lemma_items_view_push(out@, entry);
                    }
                    out.push(entry);
                }
                i += 1;
            }
            assert(iv.take(items@.len() as int) =~= iv);
        },
        _ => {},
    }
    out
}

/// The compact form of a decision report.
pub fn compact_report(report: &Json) -> (r: Json)
    ensures
        r@ == compact_report_v(report@),
{
    let mut f: Vec<(String, Json)> = Vec::new();
    assert(fields_view(f@) == Seq::<(Seq<char>, JsonV)>::empty());
    keep_field(&mut f, report, "decisions");
    let found = resolutions(&report.get("events"));
    push_field(&mut f, "resolutions", Json::Array(found));
    let logs = recent_items(&report.get("logs"), 5);
    push_field(&mut f, "recent_logs", logs);
    keep_field(&mut f, report, "snapshot_saved");
    let ui_events = report.get("ui_events");
    let count: usize = match &ui_events {
        Json::Array(items) => {
            proof {
                lemma_items_view(items@);
            }
            items.len()
        },
        _ => 0,
    };
    push_field(&mut f, "ui_event_count", Json::Number(decimal_string(count as u64)));
    assert(fields_view(f@) =~= compact_report_v(report@)->Object_0);
    Json::Object(f)
}

/// The compact form of a tool's output: a snapshot for the tools that
/// answer with one, the pending decision or report beside the compact
/// snapshot for the two that answer with those, the output itself for any
/// other tool.
pub open spec fn compact_tool_output_v(tool: Seq<char>, v: JsonV) -> JsonV {
    match tool_method_named(tool) {
        Some(DaemonMethod::GetPendingDecision) => JsonV::Object(
            seq![
                ("pending_decision"@, compact_pending_v(get_v(v, "pending_decision"@))),
                ("state"@, compact_snapshot_v(get_v(v, "state"@))),
            ],
        ),
        Some(DaemonMethod::SubmitDecision) => JsonV::Object(
            seq![
                ("report"@, compact_report_v(get_v(v, "report"@))),
                ("state"@, compact_snapshot_v(get_v(v, "state"@))),
            ],
        ),
        Some(_) => compact_snapshot_v(v),
        None => v,
    }
}

/// The compact form of what the tool `tool_name` returned.
pub fn compact_tool_output(tool_name: &str, value: Json) -> (r: Json)
    ensures
        r@ == compact_tool_output_v(tool_name@, value@),
{
    match DaemonMethod::for_tool(tool_name) {
        Ok(DaemonMethod::GetPendingDecision) => {
            let mut f: Vec<(String, Json)> = Vec::new();
            assert(fields_view(f@) == Seq::<(Seq<char>, JsonV)>::empty());
            let pending = compact_pending_decision(&value.get("pending_decision"));
            push_field(&mut f, "pending_decision", pending);
            let state = compact_snapshot(&value.get("state"));
            push_field(&mut f, "state", state);
            assert(fields_view(f@) =~= compact_tool_output_v(tool_name@, value@)->Object_0);
            Json::Object(f)
        },
        Ok(DaemonMethod::SubmitDecision) => {
            let mut f: Vec<(String, Json)> = Vec::new();
            assert(fields_view(f@) == Seq::<(Seq<char>, JsonV)>::empty());
            let report = compact_report(&value.get("report"));
            push_field(&mut f, "report", report);
            let state = compact_snapshot(&value.get("state"));
            push_field(&mut f, "state", state);
            assert(fields_view(f@) =~= compact_tool_output_v(tool_name@, value@)->Object_0);
            Json::Object(f)
        },
        Ok(_) => compact_snapshot(&value),
        Err(_) => value,
    }
}

/// A string value.
fn text(s: &str) -> (r: Json)
    ensures
        r@ == JsonV::Str(s@),
{
    Json::Str(s.to_string())
}

/// An object of the given fields.
fn object(fields: Vec<(String, Json)>) -> (r: Json)
    ensures
        r@ == JsonV::Object(fields_view(fields@)),
{
    Json::Object(fields)
}

/// An object with one field.
fn object1(k0: &str, v0: Json) -> (r: Json)
    ensures
        r@ == JsonV::Object(seq![(k0@, v0@)]),
{
    let mut f: Vec<(String, Json)> = Vec::new();
    assert(fields_view(f@) == Seq::<(Seq<char>, JsonV)>::empty());
    push_field(&mut f, k0, v0);
    assert(fields_view(f@) =~= seq![(k0@, v0@)]);
    Json::Object(f)
}

/// An object with two fields.
fn object2(k0: &str, v0: Json, k1: &str, v1: Json) -> (r: Json)
    ensures
        r@ == JsonV::Object(seq![(k0@, v0@), (k1@, v1@)]),
{
    let mut f: Vec<(String, Json)> = Vec::new();
    assert(fields_view(f@) == Seq::<(Seq<char>, JsonV)>::empty());
    push_field(&mut f, k0, v0);
    push_field(&mut f, k1, v1);
    assert(fields_view(f@) =~= seq![(k0@, v0@), (k1@, v1@)]);
    Json::Object(f)
}

/// An object with three fields.
fn object3(k0: &str, v0: Json, k1: &str, v1: Json, k2: &str, v2: Json) -> (r: Json)
    ensures
        r@ == JsonV::Object(seq![(k0@, v0@), (k1@, v1@), (k2@, v2@)]),
{
    let mut f: Vec<(String, Json)> = Vec::new();
    assert(fields_view(f@) == Seq::<(Seq<char>, JsonV)>::empty());
    push_field(&mut f, k0, v0);
    push_field(&mut f, k1, v1);
    push_field(&mut f, k2, v2);
    assert(fields_view(f@) =~= seq![(k0@, v0@), (k1@, v1@), (k2@, v2@)]);
    Json::Object(f)
}

/// A schema entry of the given type.
pub open spec fn typed_v(kind: Seq<char>) -> JsonV {
    JsonV::Object(seq![("type"@, JsonV::Str(kind))])
}

/// A schema entry of the given type with a default value.
pub open spec fn typed_default_v(kind: Seq<char>, default: JsonV) -> JsonV {
    JsonV::Object(seq![("type"@, JsonV::Str(kind)), ("default"@, default)])
}

/// The schema of an object of arguments with the given properties.
pub open spec fn object_schema_v(properties: Seq<(Seq<char>, JsonV)>) -> JsonV {
    JsonV::Object(seq![("type"@, JsonV::Str("object"@)), ("properties"@, JsonV::Object(properties))])
}

/// A tool's entry: its name, what it does and the schema of its arguments.
pub open spec fn tool_v(name: Seq<char>, description: Seq<char>, schema: JsonV) -> JsonV {
    JsonV::Object(
        seq![
            ("name"@, JsonV::Str(name)),
            ("description"@, JsonV::Str(description)),
            ("inputSchema"@, schema),
        ],
    )
}

/// The arguments of `waves_start_run`: the scenario (`sea_survival` by
/// default), the locale (`zh-CN`), the seed (42), and optionally the store
/// path and the scenarios directory.
pub open spec fn start_run_properties() -> Seq<(Seq<char>, JsonV)> {
    seq![
        ("scenario"@, typed_default_v("string"@, JsonV::Str("sea_survival"@))),
        ("locale"@, typed_default_v("string"@, JsonV::Str("zh-CN"@))),
        ("seed"@, typed_default_v("integer"@, JsonV::Number("42"@))),
        ("db_path"@, typed_v("string"@)),
        ("scenarios_dir"@, typed_v("string"@)),
    ]
}

/// The arguments of `waves_step`: the number of ticks, at least 1, 1 by
/// default.
pub open spec fn step_properties() -> Seq<(Seq<char>, JsonV)> {
    seq![
        (
            "ticks"@,
            JsonV::Object(
                seq![
                    ("type"@, JsonV::Str("integer"@)),
                    ("minimum"@, JsonV::Number("1"@)),
                    ("default"@, JsonV::Number("1"@)),
                ],
            ),
        ),
    ]
}

/// The arguments of `waves_submit_decision`: the decision, the action, the
/// reason (in the run's language) and the risk attitude.
pub open spec fn submit_properties() -> Seq<(Seq<char>, JsonV)> {
    seq![
        ("decision_id"@, typed_v("string"@)),
        ("action_id"@, typed_v("string"@)),
        (
            "reason"@,
            JsonV::Object(
                seq![
                    ("type"@, JsonV::Str("string"@)),
                    (
                        "description"@,
                        JsonV::Str("Use the current run's active_locale language when possible."@),
                    ),
                ],
            ),
        ),
        ("risk_attitude"@, typed_v("string"@)),
    ]
}

/// The schema of `waves_submit_decision`, which requires the decision id,
/// the action and a reason.
pub open spec fn submit_schema_v() -> JsonV {
    JsonV::Object(
        seq![
            ("type"@, JsonV::Str("object"@)),
            (
                "required"@,
                JsonV::Array(
                    seq![JsonV::Str("decision_id"@), JsonV::Str("action_id"@), JsonV::Str("reason"@)],
                ),
            ),
            ("properties"@, JsonV::Object(submit_properties())),
        ],
    )
}

/// The tool list, in order, with each tool's description and schema.
pub open spec fn tools_v() -> Seq<JsonV> {
    seq![
        tool_v(
            "waves_start_run"@,
            "Start a new Waves run controlled by the external agent."@,
            object_schema_v(start_run_properties()),
        ),
        tool_v(
            "waves_get_state"@,
            "Get the current run state, recent logs, recent decisions, and pending decision if any."@,
            object_schema_v(Seq::empty()),
        ),
        tool_v(
            "waves_step"@,
            "Advance the run by ticks. Stops early if a pending decision appears."@,
            object_schema_v(step_properties()),
        ),
        tool_v(
            "waves_get_pending_decision"@,
            "Get the current pending decision with event, state snapshot, and available actions."@,
            object_schema_v(Seq::empty()),
        ),
        tool_v(
            "waves_submit_decision"@,
            "Submit the external agent's action for the current pending decision."@,
            submit_schema_v(),
        ),
        tool_v("waves_pause"@, "Pause the active run."@, object_schema_v(Seq::empty())),
        tool_v("waves_resume"@, "Resume the active run."@, object_schema_v(Seq::empty())),
    ]
}

/// A schema entry of the given type.
fn typed(kind: &str) -> (r: Json)
    ensures
        r@ == typed_v(kind@),
{
    object1("type", text(kind))
}

/// A schema entry of the given type with a default value.
fn typed_default(kind: &str, default: Json) -> (r: Json)
    ensures
        r@ == typed_default_v(kind@, default@),
{
    object2("type", text(kind), "default", default)
}

/// The schema of an object of arguments with the given properties.
fn object_schema(properties: Vec<(String, Json)>) -> (r: Json)
    ensures
        r@ == object_schema_v(fields_view(properties@)),
{
    object2("type", text("object"), "properties", object(properties))
}

/// The schema of a tool that takes no arguments.
fn no_arguments() -> (r: Json)
    ensures
        r@ == object_schema_v(Seq::empty()),
{
    let r = object_schema(Vec::new());
    assert(fields_view(Seq::<(String, Json)>::empty()) == Seq::<(Seq<char>, JsonV)>::empty());
    r
}

/// A tool's entry.
fn tool(name: &str, description: &str, schema: Json) -> (r: Json)
    ensures
        r@ == tool_v(name@, description@, schema@),
{
    object3("name", text(name), "description", text(description), "inputSchema", schema)
}

/// What the tool list offers, in order.
pub open spec fn tool_names() -> Seq<Seq<char>> {
    seq![
        "waves_start_run"@,
        "waves_get_state"@,
        "waves_step"@,
        "waves_get_pending_decision"@,
        "waves_submit_decision"@,
        "waves_pause"@,
        "waves_resume"@,
    ]
}

/// The listed tools carry the listed names, in order.
pub proof fn lemma_tools_are_named()
    ensures
        tools_v().len() == tool_names().len(),
        forall|i: int| 0 <= i < tools_v().len() ==> (#[trigger] tools_v()[i])->Object_0[0] == (
            "name"@,
            JsonV::Str(tool_names()[i]),
        ),
{
}

/// The tools offered to the agent, each with its description and the schema
/// of its arguments.
pub fn tools() -> (r: Vec<Json>)
    ensures
        items_view(r@) == tools_v(),
{
    let mut start_props: Vec<(String, Json)> = Vec::new();
    assert(fields_view(start_props@) == Seq::<(Seq<char>, JsonV)>::empty());
    push_field(&mut start_props, "scenario", typed_default("string", text("sea_survival")));
    push_field(&mut start_props, "locale", typed_default("string", text("zh-CN")));
    push_field(&mut start_props, "seed", typed_default("integer", Json::Number("42".to_string())));
    push_field(&mut start_props, "db_path", typed("string"));
    push_field(&mut start_props, "scenarios_dir", typed("string"));
    assert(fields_view(start_props@) =~= start_run_properties());
    let t0 = tool(
        "waves_start_run",
        "Start a new Waves run controlled by the external agent.",
        object_schema(start_props),
    );

    let t1 = tool(
        "waves_get_state",
        "Get the current run state, recent logs, recent decisions, and pending decision if any.",
        no_arguments(),
    );

    let ticks = object3(
        "type",
        text("integer"),
        "minimum",
        Json::Number("1".to_string()),
        "default",
        Json::Number("1".to_string()),
    );
    let mut step_props: Vec<(String, Json)> = Vec::new();
    assert(fields_view(step_props@) == Seq::<(Seq<char>, JsonV)>::empty());
    push_field(&mut step_props, "ticks", ticks);
    assert(fields_view(step_props@) =~= step_properties());
    let t2 = tool(
        "waves_step",
        "Advance the run by ticks. Stops early if a pending decision appears.",
        object_schema(step_props),
    );

    let t3 = tool(
        "waves_get_pending_decision",
        "Get the current pending decision with event, state snapshot, and available actions.",
        no_arguments(),
    );

    let mut required: Vec<Json> = Vec::new();
    required.push(text("decision_id"));
    required.push(text("action_id"));
    required.push(text("reason"));
    proof {
        lemma_items_view(required@);
        assert(items_view(required@) =~= seq![
            JsonV::Str("decision_id"@),
            JsonV::Str("action_id"@),
            JsonV::Str("reason"@),
        ]);
    }
    let mut submit_props: Vec<(String, Json)> = Vec::new();
    assert(fields_view(submit_props@) == Seq::<(Seq<char>, JsonV)>::empty());
    push_field(&mut submit_props, "decision_id", typed("string"));
    push_field(&mut submit_props, "action_id", typed("string"));
    push_field(
        &mut submit_props,
        "reason",
        object2(
            "type",
            text("string"),
            "description",
            text("Use the current run's active_locale language when possible."),
        ),
    );
    push_field(&mut submit_props, "risk_attitude", typed("string"));
    assert(fields_view(submit_props@) =~= submit_properties());
    let submit_schema = object3(
        "type",
        text("object"),
        "required",
        Json::Array(required),
        "properties",
        object(submit_props),
    );
    let t4 = tool(
        "waves_submit_decision",
        "Submit the external agent's action for the current pending decision.",
        submit_schema,
    );

    let t5 = tool("waves_pause", "Pause the active run.", no_arguments());
    let t6 = tool("waves_resume", "Resume the active run.", no_arguments());
    let ghost views = seq![t0@, t1@, t2@, t3@, t4@, t5@, t6@];
    let mut out: Vec<Json> = Vec::new();
    out.push(t0);
    out.push(t1);
    out.push(t2);
    out.push(t3);
    out.push(t4);
    out.push(t5);
    out.push(t6);
    proof {
        lemma_items_view(out@);
        assert(items_view(out@) =~= views);
        assert(views =~= tools_v());
    }
    out
}

/// Every tool on the list stands for a daemon method.
pub proof fn lemma_listed_tools_have_methods(i: int)
    requires
        0 <= i < tool_names().len(),
    ensures
        tool_method_named(tool_names()[i]) is Some,
{
    reveal_strlit("waves_start_run");
    reveal_strlit("waves_get_state");
    reveal_strlit("waves_step");
    reveal_strlit("waves_get_pending_decision");
    reveal_strlit("waves_submit_decision");
    reveal_strlit("waves_pause");
    reveal_strlit("waves_resume");
}

/// Every tool on the list is served by the daemon method of the same name:
/// the tool's name is `waves_` followed by the method's name.
pub proof fn lemma_tools_serve_their_methods(i: int)
    requires
        0 <= i < tool_names().len(),
    ensures
        tool_method_named(tool_names()[i]) matches Some(m) && tool_names()[i] == "waves_"@ + method_name(m),
{
    reveal_strlit("waves_");
    reveal_strlit("waves_start_run");
    reveal_strlit("waves_get_state");
    reveal_strlit("waves_step");
    reveal_strlit("waves_get_pending_decision");
    reveal_strlit("waves_submit_decision");
    reveal_strlit("waves_pause");
    reveal_strlit("waves_resume");
    reveal_strlit("start_run");
    reveal_strlit("get_state");
    reveal_strlit("step");
    reveal_strlit("get_pending_decision");
    reveal_strlit("submit_decision");
    reveal_strlit("pause");
    reveal_strlit("resume");
    let t = tool_names()[i];
    let m = tool_method_named(t)->0;
    assert(t =~= "waves_"@ + method_name(m));
}

/// Only the listed tools stand for a daemon method; any other name is an
/// unknown tool.
pub proof fn lemma_only_listed_tools_have_methods(tool: Seq<char>)
    ensures
        tool_method_named(tool) is Some ==> tool_names().contains(tool),
{
    if tool_method_named(tool) is Some {
        let names = tool_names();
        if tool == "waves_start_run"@ {
            assert(names[0] == tool);
        } else if tool == "waves_get_state"@ {
            assert(names[1] == tool);
        } else if tool == "waves_step"@ {
            assert(names[2] == tool);
        } else if tool == "waves_get_pending_decision"@ {
            assert(names[3] == tool);
        } else if tool == "waves_submit_decision"@ {
            assert(names[4] == tool);
        } else if tool == "waves_pause"@ {
            assert(names[5] == tool);
        } else {
            assert(names[6] == tool);
        }
    }
}

/// A request method of the agent protocol.
#[derive(Debug, Clone, Copy, PartialEq, Eq, Structural)]
pub enum McpMethod {
    Initialize,
    ToolsList,
    ToolsCall,
}

/// The protocol method a name stands for.
pub open spec fn mcp_method_named(name: Seq<char>) -> Option<McpMethod> {
    if name == "initialize"@ {
        Some(McpMethod::Initialize)
    } else if name == "tools/list"@ {
        Some(McpMethod::ToolsList)
    } else if name == "tools/call"@ {
        Some(McpMethod::ToolsCall)
    } else {
        None
    }
}

impl McpMethod {
    /// The method named `method`, or the error message for an unknown one.
    pub fn parse(method: &str) -> (r: Result<McpMethod, String>)
        ensures
            match r {
                Ok(m) => mcp_method_named(method@) == Some(m),
                Err(e) => mcp_method_named(method@) is None && e@ == "unknown method "@ + method@,
            },
    {
        if str_eq(method, "initialize") {
            Ok(McpMethod::Initialize)
        } else if str_eq(method, "tools/list") {
            Ok(McpMethod::ToolsList)
        } else if str_eq(method, "tools/call") {
            Ok(McpMethod::ToolsCall)
        } else {
            let mut e = "unknown method ".to_string();
            push_str(&mut e, method);
            Err(e)
        }
    }
}

/// The answer to `initialize`: the protocol version, the tools capability
/// and who serves it.
pub open spec fn initialize_result_v(version: Seq<char>) -> JsonV {
    JsonV::Object(
        seq![
            ("protocolVersion"@, JsonV::Str("2024-11-05"@)),
            ("capabilities"@, JsonV::Object(seq![("tools"@, JsonV::Object(Seq::empty()))])),
            (
                "serverInfo"@,
                JsonV::Object(seq![("name"@, JsonV::Str("waves"@)), ("version"@, JsonV::Str(version))]),
            ),
        ],
    )
}

/// The answer to `initialize` for the server at `version`.
pub fn initialize_result(version: &str) -> (r: Json)
    ensures
        r@ == initialize_result_v(version@),
{
    let capabilities = object1("tools", object(Vec::new()));
    let server = object2("name", text("waves"), "version", text(version));
    object3("protocolVersion", text("2024-11-05"), "capabilities", capabilities, "serverInfo", server)
}

/// The answer to `tools/list`: the tool list under `tools`.
pub fn tools_list_result() -> (r: Json)
    ensures
        r@ == JsonV::Object(seq![("tools"@, JsonV::Array(tools_v()))]),
{
    let list = tools();
    object1("tools", Json::Array(list))
}

/// The answer to a tool call: the output as one text part, and whether the
/// call failed.
pub open spec fn tool_result_v(text: Seq<char>, is_error: bool) -> JsonV {
    JsonV::Object(
        seq![
            (
                "content"@,
                JsonV::Array(
                    seq![JsonV::Object(seq![("type"@, JsonV::Str("text"@)), ("text"@, JsonV::Str(text))])],
                ),
            ),
            ("isError"@, JsonV::Bool(is_error)),
        ],
    )
}

/// The answer to a tool call whose output reads `output`.
pub fn tool_result(output: &str, is_error: bool) -> (r: Json)
    ensures
        r@ == tool_result_v(output@, is_error),
{
    let part = object2("type", text("text"), "text", text(output));
    let mut parts: Vec<Json> = Vec::new();
    parts.push(part);
    proof {
        lemma_items_view(parts@);
        assert(items_view(parts@) =~= seq![part@]);
    }
    object2("content", Json::Array(parts), "isError", Json::Bool(is_error))
}

/// The output of a tool call that failed with `message`.
pub fn tool_error(message: &str) -> (r: Json)
    ensures
        r@ == JsonV::Object(seq![("error"@, JsonV::Str(message@))]),
{
    object1("error", text(message))
}

/// A signed integer in decimal.
pub open spec fn signed_decimal(n: int) -> Seq<char> {
    if n < 0 {
        seq!['-'] + decimal((-n) as nat)
    } else {
        decimal(n as nat)
    }
}

/// The reply carrying `result` for the request `id`.
pub fn rpc_result(id: Json, result: Json) -> (r: Json)
    ensures
        r@ == JsonV::Object(seq![("jsonrpc"@, JsonV::Str("2.0"@)), ("id"@, id@), ("result"@, result@)]),
{
    object3("jsonrpc", text("2.0"), "id", id, "result", result)
}

/// The reply carrying the error `code` with `message` for the request `id`.
pub fn rpc_error(id: Json, code: i64, message: &str) -> (r: Json)
    ensures
        r@ == JsonV::Object(
            seq![
                ("jsonrpc"@, JsonV::Str("2.0"@)),
                ("id"@, id@),
                (
                    "error"@,
                    JsonV::Object(
                        seq![("code"@, JsonV::Number(signed_decimal(code as int))), ("message"@, JsonV::Str(message@))],
                    ),
                ),
            ],
        ),
{
    let mut digits = String::new();
    if code < 0 {
        digits = "-".to_string();
        let magnitude: u64 = if code == i64::MIN {
            9223372036854775808u64
        } else {
            (0 - code) as u64
        };
        push_decimal(&mut digits, magnitude);
        proof {
            reveal_strlit("-");
            assert(digits@ =~= signed_decimal(code as int));
        }
    } else {
        push_decimal(&mut digits, code as u64);
        assert(digits@ =~= decimal(code as nat));
    }
    let error = object2("code", Json::Number(digits), "message", text(message));
    object3("jsonrpc", text("2.0"), "id", id, "error", error)
}

/// The code of a line that is not a request.
pub const PARSE_ERROR: i64 = -32700;

/// The code of a request that failed.
pub const INTERNAL_ERROR: i64 = -32603;

/// The reply to a line that could not be read as a request.
pub fn parse_error_reply(detail: &str) -> (r: Json)
    ensures
        r@ == JsonV::Object(
            seq![
                ("jsonrpc"@, JsonV::Str("2.0"@)),
                ("id"@, JsonV::Null),
                (
                    "error"@,
                    JsonV::Object(
                        seq![
                            ("code"@, JsonV::Number(signed_decimal(PARSE_ERROR as int))),
                            ("message"@, JsonV::Str("parse error: "@ + detail@)),
                        ],
                    ),
                ),
            ],
        ),
{
    let mut message = "parse error: ".to_string();
    push_str(&mut message, detail);
    rpc_error(Json::Null, PARSE_ERROR, message.as_str())
}

} // verus!

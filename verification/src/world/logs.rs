//! The run log lines written when a decision is resolved or the run is
//! controlled, each made of localised templates.

use crate::i18n::catalog::{filled, var_views};
use crate::i18n::Catalog;
use crate::text::str_eq;
use crate::world::types::{AiDecision, DecisionSource, LogEntry, RiskLevel, WorldEvent};
use vstd::prelude::*;

verus! {

/// The name key of `action_id` among `(id, name key)` pairs: the first pair
/// with that id.
pub open spec fn name_key_of(actions: Seq<(String, String)>, action_id: Seq<char>) -> Option<Seq<char>>
    decreases actions.len(),
{
    if actions.len() == 0 {
        None
    } else if actions[0].0@ == action_id {
        Some(actions[0].1@)
    } else {
        name_key_of(actions.drop_first(), action_id)
    }
}

/// The shown name of an action: its localised name when the table has the
/// action, else its id.
pub open spec fn action_name_of(c: crate::i18n::CatalogView, actions: Seq<(String, String)>, action_id: Seq<char>) -> Seq<char> {
    match name_key_of(actions, action_id) {
        Some(key) => c.text(key),
        None => action_id,
    }
}

/// The shown name of an action, from the scenario's `(id, name key)` pairs.
pub fn action_name(catalog: &Catalog, actions: &Vec<(String, String)>, action_id: &str) -> (s: String)
    ensures
        s@ == action_name_of(catalog@, actions@, action_id@),
{
    let mut i: usize = 0;
    assert(actions@.skip(0) =~= actions@);
    while i < actions.len()
        invariant
            i <= actions@.len(),
            name_key_of(actions@, action_id@) == name_key_of(actions@.skip(i as int), action_id@),
        decreases actions.len() - i,
    {
        assert(actions@.skip(i as int)[0] == actions@[i as int]);
        if str_eq(actions[i].0.as_str(), action_id) {
            return catalog.text(actions[i].1.as_str());
        }
        assert(actions@.skip(i as int).drop_first() =~= actions@.skip(i + 1));
        i += 1;
    }
    action_id.to_string()
}

/// What a log line says.
pub open spec fn log_is(l: LogEntry, tick: u64, level: Seq<char>, title: Seq<char>, body: Seq<char>, source: Option<Seq<char>>) -> bool {
    &&& l.tick == tick
    &&& l.level@ == level
    &&& l.title@ == title
    &&& l.body@ == body
    &&& match (l.source_event_id, source) {
        (Some(a), Some(b)) => a@ == b,
        (None, None) => true,
        _ => false,
    }
}

/// The log lines of a resolved decision: for a fallback decision first a
/// warning naming the fallback action, then the event with who chose what
/// and why, then the action's result, a warning when the risk is high.
pub open spec fn decision_log_lines(
    c: crate::i18n::CatalogView,
    actions: Seq<(String, String)>,
    tick: u64,
    risk: RiskLevel,
    event: WorldEvent,
    decision: AiDecision,
    summary: Seq<char>,
    pending_id: Seq<char>,
    logs: Seq<LogEntry>,
) -> bool {
    let name = action_name_of(c, actions, decision.choice@);
    let k: int = if decision.source == DecisionSource::Fallback { 1 } else { 0 };
    &&& logs.len() == 2 + k
    &&& decision.source == DecisionSource::Fallback ==> log_is(
        logs[0],
        tick,
        "warning"@,
        c.text("source.fallback"@),
        filled(c.text("log.fallback"@), seq![("action"@, name)]),
        Some(pending_id),
    )
    &&& log_is(
        logs[k],
        tick,
        event.severity@,
        c.text(event.title_key@),
        filled(
            c.text("log.decision"@),
            seq![("actor"@, c.text("source.agent"@)), ("action"@, name), ("reason"@, decision.reason@)],
        ),
        Some(event.id@),
    )
    &&& log_is(
        logs[k + 1],
        tick,
        if risk == RiskLevel::High {
            "warning"@
        } else {
            "notice"@
        },
        name,
        filled(c.text("log.result"@), seq![("action"@, name), ("summary"@, summary)]),
        Some(event.id@),
    )
}

/// The log lines of a resolved decision (see [`decision_log_lines`]).
pub fn decision_logs(
    catalog: &Catalog,
    actions: &Vec<(String, String)>,
    tick: u64,
    risk: RiskLevel,
    event: &WorldEvent,
    decision: &AiDecision,
    summary: &str,
    pending_id: &str,
) -> (logs: Vec<LogEntry>)
    ensures
        decision_log_lines(catalog@, actions@, tick, risk, *event, *decision, summary@, pending_id@, logs@),
{
    let name = action_name(catalog, actions, decision.choice.as_str());
    let mut logs: Vec<LogEntry> = Vec::new();
    if decision.source == DecisionSource::Fallback {
        let vars = [("action", name.clone())];
        let body = catalog.format("log.fallback", &vars);
        assert(var_views(vars@) =~= seq![("action"@, name@)]);
        logs.push(LogEntry {
            tick,
            level: "warning".to_string(),
            title: catalog.text("source.fallback"),
            body,
            source_event_id: Some(pending_id.to_string()),
        });
    }
    let vars = [
        ("actor", catalog.text("source.agent")),
        ("action", name.clone()),
        ("reason", decision.reason.clone()),
    ];
    let body = catalog.format("log.decision", &vars);
    proof {
        assert(var_views(vars@) =~= seq![
            ("actor"@, catalog@.text("source.agent"@)),
            ("action"@, name@),
            ("reason"@, decision.reason@),
        ]);
    }
    logs.push(LogEntry {
        tick,
        level: event.severity.clone(),
        title: catalog.text(event.title_key.as_str()),
        body,
        source_event_id: Some(event.id.clone()),
    });
    let vars = [("action", name.clone()), ("summary", summary.to_string())];
    let body = catalog.format("log.result", &vars);
    assert(var_views(vars@) =~= seq![("action"@, name@), ("summary"@, summary@)]);
    logs.push(LogEntry {
        tick,
        level: if risk == RiskLevel::High {
            "warning".to_string()
        } else {
            "notice".to_string()
        },
        title: name,
        body,
        source_event_id: Some(event.id.clone()),
    });
    logs
}

/// The log line of a control action (pause or resume) by the observer.
pub fn intervention_log(tick: u64, target: &str, message: &str) -> (l: LogEntry)
    ensures
        log_is(l, tick, "notice"@, target@, message@, None),
{
    LogEntry {
        tick,
        level: "notice".to_string(),
        title: target.to_string(),
        body: message.to_string(),
        source_event_id: None,
    }
}

/// The message key for the run's pause state after a toggle.
pub fn pause_message_key(paused: bool) -> (k: &'static str)
    ensures
        k@ == if paused {
            "control.paused"@
        } else {
            "control.resumed"@
        },
{
    if paused {
        "control.paused"
    } else {
        "control.resumed"
    }
}

} // verus!

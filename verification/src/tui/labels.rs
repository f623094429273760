//! The observer's localised labels: event kinds, metrics, actions, decision
//! sources and risk levels, each looked up in the catalog by key.

use crate::i18n::Catalog;
use crate::text::{has_prefix, last_word, last_word_of, push_str, starts_with, str_eq};
use crate::tui::ui_events::UiEventKind;
use crate::world::DecisionSource;
use vstd::prelude::*;

verus! {

/// The locale key of an event kind's label.
pub open spec fn kind_label_key(kind: UiEventKind) -> Seq<char> {
    match kind {
        UiEventKind::ValueDelta => "ui.kind.value_delta"@,
        UiEventKind::Risk => "ui.kind.risk"@,
        UiEventKind::Decision => "ui.kind.decision"@,
        UiEventKind::Fallback => "ui.kind.fallback"@,
        UiEventKind::Log => "ui.kind.log"@,
        UiEventKind::WorldEvent => "ui.kind.world_event"@,
        UiEventKind::Control => "ui.kind.control"@,
    }
}

/// The label of an event kind.
pub fn ui_event_kind_label(catalog: &Catalog, kind: &UiEventKind) -> (s: String)
    ensures
        s@ == catalog@.text(kind_label_key(*kind)),
{
    let key = match kind {
        UiEventKind::ValueDelta => "ui.kind.value_delta",
        UiEventKind::Risk => "ui.kind.risk",
        UiEventKind::Decision => "ui.kind.decision",
        UiEventKind::Fallback => "ui.kind.fallback",
        UiEventKind::Log => "ui.kind.log",
        UiEventKind::WorldEvent => "ui.kind.world_event",
        UiEventKind::Control => "ui.kind.control",
    };
    catalog.text(key)
}

/// The locale key of a metric's label; an unknown metric is its own key.
pub open spec fn metric_key(target: Seq<char>) -> Seq<char> {
    if target == "hp"@ {
        "stat.hp"@
    } else if target == "hunger"@ {
        "stat.hunger"@
    } else if target == "thirst"@ {
        "stat.thirst"@
    } else if target == "energy"@ {
        "stat.energy"@
    } else if target == "morale"@ {
        "stat.morale"@
    } else if target == "raft"@ {
        "stat.raft"@
    } else if target == "food"@ {
        "resource.food"@
    } else if target == "water"@ {
        "resource.water"@
    } else if target == "wood"@ {
        "resource.wood"@
    } else if target == "fiber"@ {
        "resource.fiber"@
    } else if target == "tool"@ {
        "resource.tool"@
    } else if target == "distance_to_land"@ {
        "nav.target"@
    } else {
        target
    }
}

/// The label of a changed metric (a stat, a resource, or the distance to
/// land).
pub fn metric_label(catalog: &Catalog, target: &str) -> (s: String)
    ensures
        s@ == catalog@.text(metric_key(target@)),
{
    let key = if str_eq(target, "hp") {
        "stat.hp"
    } else if str_eq(target, "hunger") {
        "stat.hunger"
    } else if str_eq(target, "thirst") {
        "stat.thirst"
    } else if str_eq(target, "energy") {
        "stat.energy"
    } else if str_eq(target, "morale") {
        "stat.morale"
    } else if str_eq(target, "raft") {
        "stat.raft"
    } else if str_eq(target, "food") {
        "resource.food"
    } else if str_eq(target, "water") {
        "resource.water"
    } else if str_eq(target, "wood") {
        "resource.wood"
    } else if str_eq(target, "fiber") {
        "resource.fiber"
    } else if str_eq(target, "tool") {
        "resource.tool"
    } else if str_eq(target, "distance_to_land") {
        "nav.target"
    } else {
        target
    };
    catalog.text(key)
}

/// The stats whose changes the observer labels.
pub open spec fn stat_metrics() -> Seq<Seq<char>> {
    seq!["hp"@, "hunger"@, "thirst"@, "energy"@, "morale"@, "raft"@]
}

/// The resources whose changes the observer labels.
pub open spec fn resource_metrics() -> Seq<Seq<char>> {
    seq!["food"@, "water"@, "wood"@, "fiber"@, "tool"@]
}

/// A stat is labelled by `stat.` and its own name, a resource by
/// `resource.` and its own name, and the distance to land by `nav.target`.
pub proof fn lemma_metric_keys_follow_names()
    ensures
        forall|i: int|
            0 <= i < stat_metrics().len() ==> metric_key(#[trigger] stat_metrics()[i]) == "stat."@
                + stat_metrics()[i],
        forall|i: int|
            0 <= i < resource_metrics().len() ==> metric_key(#[trigger] resource_metrics()[i])
                == "resource."@ + resource_metrics()[i],
        metric_key("distance_to_land"@) == "nav.target"@,
{
    reveal_strlit("hp");
    reveal_strlit("hunger");
    reveal_strlit("thirst");
    reveal_strlit("energy");
    reveal_strlit("morale");
    reveal_strlit("raft");
    reveal_strlit("food");
    reveal_strlit("water");
    reveal_strlit("wood");
    reveal_strlit("fiber");
    reveal_strlit("tool");
    reveal_strlit("distance_to_land");
    reveal_strlit("stat.");
    reveal_strlit("resource.");
    reveal_strlit("stat.hp");
    reveal_strlit("stat.hunger");
    reveal_strlit("stat.thirst");
    reveal_strlit("stat.energy");
    reveal_strlit("stat.morale");
    reveal_strlit("stat.raft");
    reveal_strlit("resource.food");
    reveal_strlit("resource.water");
    reveal_strlit("resource.wood");
    reveal_strlit("resource.fiber");
    reveal_strlit("resource.tool");
    assert forall|i: int| 0 <= i < stat_metrics().len() implies metric_key(#[trigger] stat_metrics()[i])
        == "stat."@ + stat_metrics()[i] by {
        let t = stat_metrics()[i];
        assert(metric_key(t) =~= "stat."@ + t);
    }
    assert forall|i: int| 0 <= i < resource_metrics().len() implies metric_key(
        #[trigger] resource_metrics()[i],
    ) == "resource."@ + resource_metrics()[i] by {
        let t = resource_metrics()[i];
        assert(t[0] != "raft"@[0]);
        assert((i == 2 || i == 4) ==> t[0] != "food"@[0]);
        assert(i == 3 ==> t[0] != "water"@[0]);
        assert(i == 4 ==> t[0] != "wood"@[0]);
        assert(metric_key(t) =~= "resource."@ + t);
    }
}

/// Any other metric is labelled by its own name, used as the key.
pub proof fn lemma_other_metric_keys_are_names(target: Seq<char>)
    requires
        !stat_metrics().contains(target),
        !resource_metrics().contains(target),
        target != "distance_to_land"@,
    ensures
        metric_key(target) == target,
{
    let st = stat_metrics();
    let rs = resource_metrics();
    assert(st[0] != target && st[1] != target && st[2] != target);
    assert(st[3] != target && st[4] != target && st[5] != target);
    assert(rs[0] != target && rs[1] != target && rs[2] != target);
    assert(rs[3] != target && rs[4] != target);
}

/// The locale key of an action's name: the id itself when it already is a
/// key, else the id under `action.`.
pub open spec fn action_key(action_id: Seq<char>) -> Seq<char> {
    if has_prefix(action_id, "action."@) {
        action_id
    } else {
        "action."@ + action_id
    }
}

/// The label of an action: its localised name, or its id when no locale
/// names it.
pub open spec fn action_label_of(c: crate::i18n::CatalogView, action_id: Seq<char>) -> Seq<char> {
    let key = action_key(action_id);
    if c.text(key) == key {
        action_id
    } else {
        c.text(key)
    }
}

/// The label of an action.
pub fn action_label(catalog: &Catalog, action_id: &str) -> (s: String)
    ensures
        s@ == action_label_of(catalog@, action_id@),
{
    let key = if starts_with(action_id, "action.") {
        action_id.to_string()
    } else {
        let mut k = "action.".to_string();
        push_str(&mut k, action_id);
        k
    };
    let label = catalog.text(key.as_str());
    if str_eq(label.as_str(), key.as_str()) {
        action_id.to_string()
    } else {
        label
    }
}

/// The label of who made a decision.
pub fn decision_source_label(catalog: &Catalog, source: &DecisionSource) -> (s: String)
    ensures
        s@ == catalog@.text(
            match source {
                DecisionSource::Agent => "source.agent"@,
                DecisionSource::Fallback => "source.fallback"@,
            },
        ),
{
    match source {
        DecisionSource::Agent => catalog.text("source.agent"),
        DecisionSource::Fallback => catalog.text("source.fallback"),
    }
}

/// The risk key that an old-style risk message ends with.
pub open spec fn legacy_key(message: Seq<char>) -> Option<Seq<char>> {
    match last_word(message) {
        Some(w) => if w == "low"@ {
            Some("risk.low"@)
        } else if w == "medium"@ {
            Some("risk.medium"@)
        } else if w == "high"@ {
            Some("risk.high"@)
        } else if w == "critical"@ {
            Some("risk.critical"@)
        } else {
            None
        },
        None => None,
    }
}

/// The risk key named by the last word of an old-style risk message.
pub fn legacy_risk_key(message: &str) -> (r: Option<&'static str>)
    ensures
        match r {
            Some(k) => legacy_key(message@) == Some(k@),
            None => legacy_key(message@) is None,
        },
{
    match last_word_of(message) {
        Some(w) => if str_eq(w.as_str(), "low") {
            Some("risk.low")
        } else if str_eq(w.as_str(), "medium") {
            Some("risk.medium")
        } else if str_eq(w.as_str(), "high") {
            Some("risk.high")
        } else if str_eq(w.as_str(), "critical") {
            Some("risk.critical")
        } else {
            None
        },
        None => None,
    }
}

/// The locale key of a risk event's label: its target when that is a risk
/// key, else the key its message ends with, else medium.
pub open spec fn risk_event_key(target: Seq<char>, message: Seq<char>) -> Seq<char> {
    if has_prefix(target, "risk."@) {
        target
    } else {
        match legacy_key(message) {
            Some(k) => k,
            None => "risk.medium"@,
        }
    }
}

/// The label of a risk event with the given target and message.
pub fn risk_label(catalog: &Catalog, target: &str, message: &str) -> (s: String)
    ensures
        s@ == catalog@.text(risk_event_key(target@, message@)),
{
    if starts_with(target, "risk.") {
        catalog.text(target)
    } else {
        match legacy_risk_key(message) {
            Some(k) => catalog.text(k),
            None => catalog.text("risk.medium"),
        }
    }
}

} // verus!

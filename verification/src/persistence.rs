//! What a persisted run looks like when read back, and its replay report.

use crate::text::{decimal, push_decimal, push_str};
use vstd::prelude::*;

verus! {

/// A persisted run.
#[derive(Debug, Clone, PartialEq, Eq)]
pub struct RunRecord {
    pub id: String,
    pub scenario_id: String,
    pub scenario_version: String,
    pub started_at: String,
    pub ended_at: Option<String>,
    pub status: String,
    pub seed: String,
    pub model: String,
}

/// How many items of each kind a persisted run holds.
#[derive(Debug, Clone, Copy, Default, PartialEq, Eq)]
pub struct RunCounts {
    pub domain_events: u64,
    pub decisions: u64,
    pub logs: u64,
    pub snapshots: u64,
    pub ui_events: u64,
}

/// The replay report of a run whose latest snapshot, if any, is at
/// `snapshot.0` with outcome `snapshot.1`.
pub open spec fn replay_report(run: RunRecord, snapshot: Option<(u64, Option<String>)>, counts: RunCounts) -> Seq<Seq<char>> {
    seq![
        "run_id: "@ + run.id@,
        "scenario: "@ + run.scenario_id@ + " "@ + run.scenario_version@,
        "status: "@ + run.status@,
        "seed: "@ + run.seed@,
        "model: "@ + run.model@,
        "snapshot_tick: "@ + match snapshot {
            Some((tick, _)) => decimal(tick as nat),
            None => "none"@,
        },
        "outcome: "@ + match snapshot {
            Some((_, Some(outcome))) => outcome@,
            _ => "running"@,
        },
        "counts: domain_events="@ + decimal(counts.domain_events as nat) + " decisions="@ + decimal(
            counts.decisions as nat,
        ) + " logs="@ + decimal(counts.logs as nat) + " snapshots="@ + decimal(
            counts.snapshots as nat,
        ) + " ui_events="@ + decimal(counts.ui_events as nat),
    ]
}

fn push_count(s: &mut String, label: &str, n: u64)
    ensures
        final(s)@ == old(s)@ + label@ + decimal(n as nat),
{
    push_str(s, label);
    push_decimal(s, n);
}

/// The replay report, one line per aspect.
pub fn replay_lines(run: &RunRecord, snapshot: Option<(u64, Option<String>)>, counts: &RunCounts) -> (v: Vec<String>)
    ensures
        v@.map_values(|s: String| s@) == replay_report(*run, snapshot, *counts),
{
    let mut v: Vec<String> = Vec::new();
    let mut l = "run_id: ".to_string();
    push_str(&mut l, run.id.as_str());
    v.push(l);
    let mut l = "scenario: ".to_string();
    push_str(&mut l, run.scenario_id.as_str());
    push_str(&mut l, " ");
    push_str(&mut l, run.scenario_version.as_str());
    v.push(l);
    let mut l = "status: ".to_string();
    push_str(&mut l, run.status.as_str());
    v.push(l);
    let mut l = "seed: ".to_string();
    push_str(&mut l, run.seed.as_str());
    v.push(l);
    let mut l = "model: ".to_string();
    push_str(&mut l, run.model.as_str());
    v.push(l);
    let mut l = "snapshot_tick: ".to_string();
    match &snapshot {
        Some((tick, _)) => push_decimal(&mut l, *tick),
        None => push_str(&mut l, "none"),
    }
    v.push(l);
    let mut l = "outcome: ".to_string();
    match &snapshot {
        Some((_, Some(outcome))) => push_str(&mut l, outcome.as_str()),
        _ => push_str(&mut l, "running"),
    }
    v.push(l);
    let mut l = String::new();
    push_count(&mut l, "counts: domain_events=", counts.domain_events);
    push_count(&mut l, " decisions=", counts.decisions);
    push_count(&mut l, " logs=", counts.logs);
    push_count(&mut l, " snapshots=", counts.snapshots);
    push_count(&mut l, " ui_events=", counts.ui_events);
    v.push(l);
    assert(v@.map_values(|s: String| s@) =~= replay_report(*run, snapshot, *counts));
    v
}

} // verus!

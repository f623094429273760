use waves::daemon::{
    reply_result, socket_plan, AgentConnectionStatus, DaemonMethod, SocketPlan, StartRunArgs,
    StepArgs,
};
use waves::world::{
    pending_decision_id, push_capped, ActionOption, DecisionRejection, DecisionSlot,
    DecisionSource, ExternalDecisionInput, SessionOptions,
};
use waves::scenario::{scenario_entry, ScenarioEntry};

fn option(id: &str) -> ActionOption {
    ActionOption {
        id: id.to_string(),
        name_key: format!("action.{id}"),
        risk: "low".to_string(),
        resolver_id: format!("{id}_basic"),
    }
}

fn input(decision: &str, action: &str, reason: &str) -> ExternalDecisionInput {
    ExternalDecisionInput {
        decision_id: decision.to_string(),
        action_id: action.to_string(),
        reason: reason.to_string(),
        risk_attitude: Some("balanced".to_string()),
    }
}

fn open_slot() -> DecisionSlot<u32> {
    let mut slot = DecisionSlot::new();
    slot.open(
        pending_decision_id(4, "rain"),
        vec![option("collect_rain"), option("rest")],
        7,
    );
    slot
}

#[test]
fn decision_ids_name_tick_and_event() {
    assert_eq!(pending_decision_id(4, "rain"), "tick-4-rain");
    assert_eq!(pending_decision_id(120, "storm"), "tick-120-storm");
}

#[test]
fn runtime_rejects_invalid_external_decision_without_mutation() {
    let mut slot = open_slot();
    let error = slot
        .submit(false, input("tick-4-rain", "missing_action", "try something impossible"))
        .expect_err("unavailable action");
    assert_eq!(error, DecisionRejection::UnavailableAction("missing_action".to_string()));
    assert_eq!(error.message(), "action \"missing_action\" is not available");
    assert!(slot.is_open());
    assert_eq!(slot.payload(), Some(&7));

    assert_eq!(
        slot.submit(false, input("tick-8-rain", "rest", "why")).unwrap_err(),
        DecisionRejection::StaleDecision("tick-8-rain".to_string())
    );
    assert_eq!(
        slot.submit(false, input("tick-4-rain", "rest", "  ")).unwrap_err(),
        DecisionRejection::MissingReason
    );
    assert_eq!(
        slot.submit(true, input("tick-4-rain", "rest", "why")).unwrap_err(),
        DecisionRejection::RunFinished
    );
    assert!(slot.is_open());
}

#[test]
fn runtime_accepts_valid_external_decision() {
    let mut slot = open_slot();
    let (payload, decision) = slot
        .submit(false, input("tick-4-rain", "rest", "  tired  "))
        .expect("valid decision should resolve");
    assert_eq!(payload, 7);
    assert_eq!(decision.choice, "rest");
    assert_eq!(decision.reason, "tired");
    assert_eq!(decision.risk_attitude, "balanced");
    assert_eq!(decision.source, DecisionSource::Agent);
    assert!(!slot.is_open());
    assert_eq!(
        slot.submit(false, input("tick-4-rain", "rest", "again")).unwrap_err(),
        DecisionRejection::NoPendingDecision
    );
}

#[test]
fn blank_risk_attitude_defaults_to_agent() {
    let mut slot = open_slot();
    let mut submitted = input("tick-4-rain", "rest", "ok");
    submitted.risk_attitude = Some("   ".to_string());
    let (_, decision) = slot.submit(false, submitted).expect("valid");
    assert_eq!(decision.risk_attitude, "agent");
}

#[test]
fn histories_keep_their_newest_entries() {
    let mut logs: Vec<u32> = Vec::new();
    for i in 0..5 {
        push_capped(&mut logs, i, 3);
    }
    assert_eq!(logs, vec![2, 3, 4]);
}

#[test]
fn session_defaults() {
    let options = SessionOptions::default();
    assert_eq!(options.seed, 42);
    assert_eq!(options.active_locale, "zh-CN");
    assert_eq!(options.db_path, None);
    assert_eq!(options.model, "external-agent");
}

#[test]
fn daemon_methods_and_arguments() {
    assert_eq!(DaemonMethod::parse("submit_decision"), Ok(DaemonMethod::SubmitDecision));
    assert_eq!(
        DaemonMethod::parse("dance"),
        Err("unknown daemon method dance".to_string())
    );
    assert_eq!(DaemonMethod::for_tool("waves_step"), Ok(DaemonMethod::Step));
    assert_eq!(DaemonMethod::Step.name(), "step");
    assert_eq!(StepArgs { ticks: Some(0) }.tick_count(), 1);
    assert_eq!(StepArgs { ticks: None }.tick_count(), 1);
    assert_eq!(StepArgs { ticks: Some(5) }.tick_count(), 5);
    let settings = StartRunArgs {
        scenario: None,
        locale: None,
        seed: None,
        db_path: None,
        scenarios_dir: None,
    }
    .settings();
    assert_eq!(settings.scenario, "sea_survival");
    assert_eq!(settings.locale, "zh-CN");
    assert_eq!(settings.seed, 42);
    assert!(!AgentConnectionStatus::default().seen);
}

#[test]
fn scenario_entries() {
    assert_eq!(scenario_entry("sea_survival"), Ok(ScenarioEntry::SeaSurvival));
    assert_eq!(scenario_entry("desert_outpost"), Ok(ScenarioEntry::DesertOutpost));
    assert_eq!(
        scenario_entry("moon"),
        Err("unsupported scenario entry \"moon\"".to_string())
    );
}

#[test]
fn daemon_replies_become_results() {
    assert_eq!(reply_result(true, Some(3), None), Ok(3));
    assert_eq!(
        reply_result::<u32>(false, Some(3), Some("boom".to_string())),
        Err("boom".to_string())
    );
    assert_eq!(
        reply_result::<u32>(false, None, None),
        Err("daemon request failed".to_string())
    );
    assert_eq!(
        reply_result::<u32>(true, None, None),
        Err("daemon response missing result".to_string())
    );
}

#[test]
fn socket_plan_refuses_live_sockets_and_clears_stale_ones() {
    assert_eq!(socket_plan(false, false), SocketPlan::Bind);
    assert_eq!(socket_plan(true, true), SocketPlan::AlreadyServing);
    assert_eq!(socket_plan(true, false), SocketPlan::RemoveStale);
}

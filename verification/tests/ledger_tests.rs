use waves::daemon::GetStateArgs;
use waves::world::{
    intervention_log, pause_message_key, DecisionRecord, DecisionSource, LogEntry, RunLedger,
    LOG_CAP, UI_EVENT_CAP,
};

fn log(tick: u64) -> LogEntry {
    LogEntry {
        tick,
        level: "notice".to_string(),
        title: "t".to_string(),
        body: format!("line {tick}"),
        source_event_id: None,
    }
}

#[test]
fn ledger_keeps_only_newest_logs_and_ui_events() {
    let mut ledger: RunLedger<u32, u64> = RunLedger::new();
    for tick in 0..150u64 {
        ledger.record_log(log(tick));
        ledger.record_ui_event(tick);
    }
    assert_eq!(LOG_CAP, 100);
    assert_eq!(UI_EVENT_CAP, 120);
    assert_eq!(ledger.logs().len(), 100);
    assert_eq!(ledger.logs()[0].tick, 50);
    assert_eq!(ledger.logs()[99].tick, 149);
    assert_eq!(ledger.ui_events().len(), 120);
    assert_eq!(ledger.ui_events()[0], 30);
    assert_eq!(*ledger.ui_events().last().unwrap(), 149);
}

#[test]
fn ledger_keeps_every_domain_event_and_decision() {
    let mut ledger: RunLedger<u32, u64> = RunLedger::new();
    for i in 0..130u32 {
        ledger.record_domain_event(i);
        ledger.record_decision(DecisionRecord {
            tick: i as u64,
            event_id: "rain".to_string(),
            action_id: "rest".to_string(),
            reason: "r".to_string(),
            risk_attitude: "agent".to_string(),
            source: DecisionSource::Agent,
            parse_status: "ok".to_string(),
            raw_output: None,
            error: None,
        });
    }
    assert_eq!(ledger.domain_events().len(), 130);
    assert_eq!(ledger.decisions().len(), 130);
    assert_eq!(ledger.decisions()[129].tick, 129);
    assert!(ledger.logs().is_empty());
}

#[test]
fn ledger_pause_toggles_and_frame_advances() {
    let mut ledger: RunLedger<u32, u64> = RunLedger::new();
    assert!(!ledger.paused());
    assert_eq!(ledger.frame(), 0);
    assert!(ledger.toggle_pause());
    assert!(ledger.paused());
    assert!(!ledger.toggle_pause());
    assert!(!ledger.paused());
    ledger.advance_frame();
    ledger.advance_frame();
    assert_eq!(ledger.frame(), 2);
}

#[test]
fn daemon_get_state_advances_presentation_frame_only_when_requested() {
    let mut ledger: RunLedger<u32, u64> = RunLedger::new();
    let mut frames = Vec::new();
    for advance_frame in [None, None, Some(true)] {
        if (GetStateArgs { advance_frame }).advances_frame() {
            ledger.advance_frame();
        }
        frames.push(ledger.frame());
    }
    assert_eq!(frames, vec![0, 0, 1]);
    assert!(!(GetStateArgs { advance_frame: Some(false) }).advances_frame());
}

#[test]
fn runtime_pause_control_does_not_create_decision() {
    let mut ledger: RunLedger<u32, u64> = RunLedger::new();
    let paused = ledger.toggle_pause();
    ledger.record_log(intervention_log(0, "pause", "已暂停"));
    assert!(paused);
    assert!(ledger.paused());
    assert_eq!(ledger.decisions().len(), 0);
    assert_eq!(ledger.logs().len(), 1);
    assert_eq!(pause_message_key(paused), "control.paused");
}

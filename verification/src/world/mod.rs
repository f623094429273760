mod clock;
mod conditions;
mod ledger;
mod logs;
mod session;
mod types;

pub use session::{
    capped, decision_from_input, scripted_decision, scripted_input, is_event_tick, may_advance, pending_decision_id, push_capped,
    snapshot_due, DecisionRejection, DecisionSlot, PendingChoice,
    SessionOptions,
};
pub use types::{
    ActionOption, AiDecision, DecisionRecord, DecisionSource, ExternalDecisionInput, LogEntry,
    Memory, RiskLevel, SeaCondition, Weather, WorldEvent,
};
pub use logs::{action_name, decision_logs, intervention_log, pause_message_key};
pub use clock::{advance_clock, event_ready};
pub use conditions::{conditions_after, event_conditions};
pub use ledger::{RunLedger, LOG_CAP, UI_EVENT_CAP};

use vstd::prelude::*;

verus! {

/// The weather over the sea.
#[derive(Debug, Clone, Copy, PartialEq, Eq, Structural)]
pub enum Weather {
    Clear,
    Cloudy,
    Rain,
    Heat,
    Storm,
}

impl Weather {
    /// Locale key under which this weather is described.
    pub fn key(self) -> (k: &'static str)
        ensures
            k@ == match self {
                Weather::Clear => "weather.clear"@,
                Weather::Cloudy => "weather.cloudy"@,
                Weather::Rain => "weather.rain"@,
                Weather::Heat => "weather.heat"@,
                Weather::Storm => "weather.storm"@,
            },
    {
        match self {
            Weather::Clear => "weather.clear",
            Weather::Cloudy => "weather.cloudy",
            Weather::Rain => "weather.rain",
            Weather::Heat => "weather.heat",
            Weather::Storm => "weather.storm",
        }
    }
}

} // verus!

verus! {

/// The state of the sea around the raft.
#[derive(Debug, Clone, Copy, PartialEq, Eq, Structural)]
pub enum SeaCondition {
    Calm,
    Moderate,
    Rough,
}

impl SeaCondition {
    /// Locale key under which this sea condition is described.
    pub fn key(self) -> (k: &'static str)
        ensures
            k@ == match self {
                SeaCondition::Calm => "sea.calm"@,
                SeaCondition::Moderate => "sea.moderate"@,
                SeaCondition::Rough => "sea.rough"@,
            },
    {
        match self {
            SeaCondition::Calm => "sea.calm",
            SeaCondition::Moderate => "sea.moderate",
            SeaCondition::Rough => "sea.rough",
        }
    }
}

/// How dangerous the current situation is, from least to most.
#[derive(Debug, Clone, Copy, PartialEq, Eq, Structural)]
pub enum RiskLevel {
    Low,
    Medium,
    High,
    Critical,
}

impl RiskLevel {
    /// Locale key under which this risk level is described.
    pub fn key(self) -> (k: &'static str)
        ensures
            k@ == match self {
                RiskLevel::Low => "risk.low"@,
                RiskLevel::Medium => "risk.medium"@,
                RiskLevel::High => "risk.high"@,
                RiskLevel::Critical => "risk.critical"@,
            },
    {
        match self {
            RiskLevel::Low => "risk.low",
            RiskLevel::Medium => "risk.medium",
            RiskLevel::High => "risk.high",
            RiskLevel::Critical => "risk.critical",
        }
    }
}

/// What the survivor is aiming for, worried about, and recently went through.
#[derive(Debug, Clone, PartialEq, Eq)]
pub struct Memory {
    pub goal_key: String,
    pub concern_key: String,
    pub recent: Vec<String>,
}

/// An event drawn from the scenario's event table.
#[derive(Debug, Clone, PartialEq, Eq)]
pub struct WorldEvent {
    pub id: String,
    pub title_key: String,
    pub severity: String,
    pub resolver_id: String,
}

/// One action that the agent may choose at a pending decision.
#[derive(Debug, Clone, PartialEq, Eq)]
pub struct ActionOption {
    pub id: String,
    pub name_key: String,
    pub risk: String,
    pub resolver_id: String,
}

/// A decision as submitted by the external agent.
#[derive(Debug, Clone, PartialEq, Eq)]
pub struct ExternalDecisionInput {
    pub decision_id: String,
    pub action_id: String,
    pub reason: String,
    pub risk_attitude: Option<String>,
}

/// Who made a decision.
#[derive(Debug, Clone, Copy, PartialEq, Eq, Structural)]
pub enum DecisionSource {
    Fallback,
    Agent,
}

impl DecisionSource {
    /// The lower-case name under which the source is recorded.
    pub fn as_str(&self) -> (s: &'static str)
        ensures
            s@ == match self {
                DecisionSource::Fallback => "fallback"@,
                DecisionSource::Agent => "agent"@,
            },
    {
        match self {
            DecisionSource::Fallback => "fallback",
            DecisionSource::Agent => "agent",
        }
    }
}

/// A decision that the runtime will resolve.
#[derive(Debug, Clone, PartialEq, Eq)]
pub struct AiDecision {
    pub choice: String,
    pub reason: String,
    pub risk_attitude: String,
    pub source: DecisionSource,
    pub raw_output: Option<String>,
}

/// The record of one resolved decision.
#[derive(Debug, Clone, PartialEq, Eq)]
pub struct DecisionRecord {
    pub tick: u64,
    pub event_id: String,
    pub action_id: String,
    pub reason: String,
    pub risk_attitude: String,
    pub source: DecisionSource,
    pub parse_status: String,
    pub raw_output: Option<String>,
    pub error: Option<String>,
}

/// One line of the run log.
#[derive(Debug, Clone, PartialEq, Eq)]
pub struct LogEntry {
    pub tick: u64,
    pub level: String,
    pub title: String,
    pub body: String,
    pub source_event_id: Option<String>,
}

} // verus!

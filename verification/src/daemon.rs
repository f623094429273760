//! The daemon's request vocabulary: the methods it serves, their arguments
//! with their defaults, the session counts and the agent's connection
//! status it reports.

use crate::text::{push_str, str_eq};
use vstd::prelude::*;

verus! {

/// How many items a session holds.
#[derive(Debug, Clone, PartialEq, Eq)]
pub struct SessionCounts {
    pub domain_events: usize,
    pub decisions: usize,
    pub logs: usize,
    pub ui_events: usize,
}

/// Whether an agent has been seen, its last tool, and how long ago.
#[derive(Debug, Clone, PartialEq, Eq)]
pub struct AgentConnectionStatus {
    pub seen: bool,
    pub last_tool: Option<String>,
    pub last_active_secs_ago: Option<u64>,
}

impl AgentConnectionStatus {
    /// No agent seen yet.
    pub fn unseen() -> (s: Self)
        ensures
            !s.seen,
            s.last_tool is None,
            s.last_active_secs_ago is None,
    {
        AgentConnectionStatus { seen: false, last_tool: None, last_active_secs_ago: None }
    }

    /// The status for the agent's last activity, given as its tool and the
    /// seconds since; unseen when there was none.
    pub fn from_activity(activity: Option<(String, u64)>) -> (s: Self)
        ensures
            match activity {
                Some((tool, secs)) => s.seen && s.last_tool == Some(tool)
                    && s.last_active_secs_ago == Some(secs),
                None => !s.seen && s.last_tool is None && s.last_active_secs_ago is None,
            },
    {
        match activity {
            Some((tool, secs)) => AgentConnectionStatus {
                seen: true,
                last_tool: Some(tool),
                last_active_secs_ago: Some(secs),
            },
            None => Self::unseen(),
        }
    }
}

impl Default for AgentConnectionStatus {
    fn default() -> (s: Self)
        ensures
            !s.seen,
            s.last_tool is None,
            s.last_active_secs_ago is None,
    {
        Self::unseen()
    }
}

/// Arguments of `start_run`; each one left out takes its default.
#[derive(Debug, Clone, PartialEq, Eq)]
pub struct StartRunArgs {
    pub scenario: Option<String>,
    pub locale: Option<String>,
    pub seed: Option<u64>,
    pub db_path: Option<String>,
    pub scenarios_dir: Option<String>,
}

/// The run that `start_run` starts.
pub struct RunSettings {
    pub scenario: String,
    pub locale: String,
    pub seed: u64,
}

impl StartRunArgs {
    /// The scenario, locale and seed of the run: `sea_survival`, `zh-CN`
    /// and 42 unless given.
    pub fn settings(&self) -> (s: RunSettings)
        ensures
            s.scenario@ == match self.scenario {
                Some(x) => x@,
                None => "sea_survival"@,
            },
            s.locale@ == match self.locale {
                Some(x) => x@,
                None => "zh-CN"@,
            },
            s.seed == match self.seed {
                Some(x) => x,
                None => 42,
            },
    {
        RunSettings {
            scenario: match &self.scenario {
                Some(x) => x.clone(),
                None => "sea_survival".to_string(),
            },
            locale: match &self.locale {
                Some(x) => x.clone(),
                None => "zh-CN".to_string(),
            },
            seed: match self.seed {
                Some(x) => x,
                None => 42,
            },
        }
    }
}

/// Arguments of `step`.
#[derive(Debug, Clone, PartialEq, Eq)]
pub struct StepArgs {
    pub ticks: Option<u64>,
}

impl StepArgs {
    /// How many ticks to run: as given, one when not given, at least one.
    pub fn tick_count(&self) -> (n: u64)
        ensures
            n == match self.ticks {
                Some(t) => if t == 0 {
                    1
                } else {
                    t
                },
                None => 1,
            },
            n >= 1,
    {
        match self.ticks {
            Some(t) => if t == 0 {
                1
            } else {
                t
            },
            None => 1,
        }
    }
}

/// Arguments of `get_state`.
#[derive(Debug, Clone, PartialEq, Eq)]
pub struct GetStateArgs {
    pub advance_frame: Option<bool>,
}

impl GetStateArgs {
    /// Whether to advance the presentation frame: only when asked.
    pub fn advances_frame(&self) -> (b: bool)
        ensures
            b == (self.advance_frame == Some(true)),
    {
        match self.advance_frame {
            Some(b) => b,
            None => false,
        }
    }
}

/// Arguments of `record_agent_activity`.
#[derive(Debug, Clone, PartialEq, Eq)]
pub struct RecordAgentActivityArgs {
    pub tool: Option<String>,
}

impl RecordAgentActivityArgs {
    /// The tool recorded: as given, `unknown` otherwise.
    pub fn tool_name(&self) -> (s: String)
        ensures
            s@ == match self.tool {
                Some(t) => t@,
                None => "unknown"@,
            },
    {
        match &self.tool {
            Some(t) => t.clone(),
            None => "unknown".to_string(),
        }
    }
}

/// A method that the daemon serves.
#[derive(Debug, Clone, Copy, PartialEq, Eq, Structural)]
pub enum DaemonMethod {
    StartRun,
    GetState,
    Step,
    GetPendingDecision,
    SubmitDecision,
    Pause,
    Resume,
    RecordAgentActivity,
}

/// The method a name stands for.
pub open spec fn method_named(name: Seq<char>) -> Option<DaemonMethod> {
    if name == "start_run"@ {
        Some(DaemonMethod::StartRun)
    } else if name == "get_state"@ {
        Some(DaemonMethod::GetState)
    } else if name == "step"@ {
        Some(DaemonMethod::Step)
    } else if name == "get_pending_decision"@ {
        Some(DaemonMethod::GetPendingDecision)
    } else if name == "submit_decision"@ {
        Some(DaemonMethod::SubmitDecision)
    } else if name == "pause"@ {
        Some(DaemonMethod::Pause)
    } else if name == "resume"@ {
        Some(DaemonMethod::Resume)
    } else if name == "record_agent_activity"@ {
        Some(DaemonMethod::RecordAgentActivity)
    } else {
        None
    }
}

impl DaemonMethod {
    /// The method named `name`, or the error message for an unknown one.
    pub fn parse(name: &str) -> (r: Result<DaemonMethod, String>)
        ensures
            match r {
                Ok(m) => method_named(name@) == Some(m),
                Err(e) => method_named(name@) is None && e@ == "unknown daemon method "@ + name@,
            },
    {
        if str_eq(name, "start_run") {
            Ok(DaemonMethod::StartRun)
        } else if str_eq(name, "get_state") {
            Ok(DaemonMethod::GetState)
        } else if str_eq(name, "step") {
            Ok(DaemonMethod::Step)
        } else if str_eq(name, "get_pending_decision") {
            Ok(DaemonMethod::GetPendingDecision)
        } else if str_eq(name, "submit_decision") {
            Ok(DaemonMethod::SubmitDecision)
        } else if str_eq(name, "pause") {
            Ok(DaemonMethod::Pause)
        } else if str_eq(name, "resume") {
            Ok(DaemonMethod::Resume)
        } else if str_eq(name, "record_agent_activity") {
            Ok(DaemonMethod::RecordAgentActivity)
        } else {
            let mut e = "unknown daemon method ".to_string();
            push_str(&mut e, name);
            Err(e)
        }
    }
}

/// Whether `pause` or `resume` has to toggle the run: only when it is not
/// already in the wanted state.
pub fn needs_toggle(paused: bool, want_paused: bool) -> (b: bool)
    ensures
        b == (paused != want_paused),
{
    paused != want_paused
}

/// The daemon method behind an agent tool name.
pub open spec fn tool_method_named(tool: Seq<char>) -> Option<DaemonMethod> {
    if tool == "waves_start_run"@ {
        Some(DaemonMethod::StartRun)
    } else if tool == "waves_get_state"@ {
        Some(DaemonMethod::GetState)
    } else if tool == "waves_step"@ {
        Some(DaemonMethod::Step)
    } else if tool == "waves_get_pending_decision"@ {
        Some(DaemonMethod::GetPendingDecision)
    } else if tool == "waves_submit_decision"@ {
        Some(DaemonMethod::SubmitDecision)
    } else if tool == "waves_pause"@ {
        Some(DaemonMethod::Pause)
    } else if tool == "waves_resume"@ {
        Some(DaemonMethod::Resume)
    } else {
        None
    }
}

/// The method name that a daemon method is served under.
pub open spec fn method_name(m: DaemonMethod) -> Seq<char> {
    match m {
        DaemonMethod::StartRun => "start_run"@,
        DaemonMethod::GetState => "get_state"@,
        DaemonMethod::Step => "step"@,
        DaemonMethod::GetPendingDecision => "get_pending_decision"@,
        DaemonMethod::SubmitDecision => "submit_decision"@,
        DaemonMethod::Pause => "pause"@,
        DaemonMethod::Resume => "resume"@,
        DaemonMethod::RecordAgentActivity => "record_agent_activity"@,
    }
}

impl DaemonMethod {
    /// The name the method is served under.
    pub fn name(&self) -> (s: &'static str)
        ensures
            s@ == method_name(*self),
    {
        match self {
            DaemonMethod::StartRun => "start_run",
            DaemonMethod::GetState => "get_state",
            DaemonMethod::Step => "step",
            DaemonMethod::GetPendingDecision => "get_pending_decision",
            DaemonMethod::SubmitDecision => "submit_decision",
            DaemonMethod::Pause => "pause",
            DaemonMethod::Resume => "resume",
            DaemonMethod::RecordAgentActivity => "record_agent_activity",
        }
    }

    /// The daemon method behind an agent tool, or the error message for an
    /// unknown tool.
    pub fn for_tool(tool: &str) -> (r: Result<DaemonMethod, String>)
        ensures
            match r {
                Ok(m) => tool_method_named(tool@) == Some(m),
                Err(e) => tool_method_named(tool@) is None && e@ == "unknown tool "@ + tool@,
            },
    {
        if str_eq(tool, "waves_start_run") {
            Ok(DaemonMethod::StartRun)
        } else if str_eq(tool, "waves_get_state") {
            Ok(DaemonMethod::GetState)
        } else if str_eq(tool, "waves_step") {
            Ok(DaemonMethod::Step)
        } else if str_eq(tool, "waves_get_pending_decision") {
            Ok(DaemonMethod::GetPendingDecision)
        } else if str_eq(tool, "waves_submit_decision") {
            Ok(DaemonMethod::SubmitDecision)
        } else if str_eq(tool, "waves_pause") {
            Ok(DaemonMethod::Pause)
        } else if str_eq(tool, "waves_resume") {
            Ok(DaemonMethod::Resume)
        } else {
            let mut e = "unknown tool ".to_string();
            push_str(&mut e, tool);
            Err(e)
        }
    }
}

/// Every method parses back from its own name.
pub proof fn lemma_method_name_round_trip(m: DaemonMethod)
    ensures
        method_named(method_name(m)) == Some(m),
{
    reveal_strlit("start_run");
    reveal_strlit("get_state");
    reveal_strlit("step");
    reveal_strlit("get_pending_decision");
    reveal_strlit("submit_decision");
    reveal_strlit("pause");
    reveal_strlit("resume");
    reveal_strlit("record_agent_activity");
    match m {
        DaemonMethod::GetState => {
            assert("get_state"@[0] != "start_run"@[0]);
        },
        DaemonMethod::Step => {
            assert("step"@.len() != "start_run"@.len());
            assert("step"@[0] != "get_state"@[0]);
        },
        DaemonMethod::GetPendingDecision => {
            assert("get_pending_decision"@[0] != "start_run"@[0]);
            assert("get_pending_decision"@.len() != "get_state"@.len());
            assert("get_pending_decision"@[0] != "step"@[0]);
        },
        DaemonMethod::SubmitDecision => {
            assert("submit_decision"@[1] != "start_run"@[1]);
            assert("submit_decision"@[0] != "get_state"@[0]);
            assert("submit_decision"@.len() != "step"@.len());
            assert("submit_decision"@[0] != "get_pending_decision"@[0]);
        },
        DaemonMethod::Pause => {
            assert("pause"@[0] != "start_run"@[0]);
            assert("pause"@[0] != "get_state"@[0]);
            assert("pause"@[0] != "step"@[0]);
            assert("pause"@[0] != "get_pending_decision"@[0]);
            assert("pause"@[0] != "submit_decision"@[0]);
        },
        DaemonMethod::Resume => {
            assert("resume"@[0] != "start_run"@[0]);
            assert("resume"@[0] != "get_state"@[0]);
            assert("resume"@[0] != "step"@[0]);
            assert("resume"@[0] != "get_pending_decision"@[0]);
            assert("resume"@[0] != "submit_decision"@[0]);
            assert("resume"@[0] != "pause"@[0]);
        },
        DaemonMethod::RecordAgentActivity => {
            assert("record_agent_activity"@[0] != "start_run"@[0]);
            assert("record_agent_activity"@[0] != "get_state"@[0]);
            assert("record_agent_activity"@[0] != "step"@[0]);
            assert("record_agent_activity"@[0] != "get_pending_decision"@[0]);
            assert("record_agent_activity"@[0] != "submit_decision"@[0]);
            assert("record_agent_activity"@[0] != "pause"@[0]);
            assert("record_agent_activity"@.len() != "resume"@.len());
        },
        DaemonMethod::StartRun => {},
    }
}

/// What a daemon reply gives its caller: the result of a successful reply,
/// the reply's error otherwise (`daemon request failed` when it names
/// none), and an error when a successful reply carries no result.
pub open spec fn reply_outcome<T>(ok: bool, result: Option<T>, error: Option<String>) -> Result<T, Seq<char>> {
    if !ok {
        Err(
            match error {
                Some(e) => e@,
                None => "daemon request failed"@,
            },
        )
    } else {
        match result {
            Some(r) => Ok(r),
            None => Err("daemon response missing result"@),
        }
    }
}

/// The caller's result for a daemon reply.
pub fn reply_result<T>(ok: bool, result: Option<T>, error: Option<String>) -> (r: Result<T, String>)
    ensures
        match r {
            Ok(v) => reply_outcome(ok, result, error) == Ok::<T, Seq<char>>(v),
            Err(e) => reply_outcome(ok, result, error) == Err::<T, Seq<char>>(e@),
        },
{
    if !ok {
        return Err(
            match error {
                Some(e) => e,
                None => "daemon request failed".to_string(),
            },
        );
    }
    match result {
        Some(r) => Ok(r),
        None => Err("daemon response missing result".to_string()),
    }
}

/// What to do with the socket path before listening on it.
#[derive(Debug, Clone, Copy, PartialEq, Eq, Structural)]
pub enum SocketPlan {
    /// Nothing is there: bind it.
    Bind,
    /// A daemon already answers there: refuse to start.
    AlreadyServing,
    /// A stale socket file is there: remove it, then bind.
    RemoveStale,
}

/// The plan for a socket path that is `present` and, if so, is or is not
/// `answering` connections.
pub fn socket_plan(present: bool, answering: bool) -> (p: SocketPlan)
    ensures
        p == if !present {
            SocketPlan::Bind
        } else if answering {
            SocketPlan::AlreadyServing
        } else {
            SocketPlan::RemoveStale
        },
{
    if !present {
        SocketPlan::Bind
    } else if answering {
        SocketPlan::AlreadyServing
    } else {
        SocketPlan::RemoveStale
    }
}

} // verus!

//! The decision protocol of a run: one pending decision at a time, opened
//! when an event needs an action and closed only by a valid submission; and
//! the small rules around it (when the clock may advance, which ticks draw
//! events, how bounded histories are kept).

use crate::text::{
    blank, is_blank, push_decimal, push_str, quote_debug, str_eq, trim, trimmed, decimal,
    debug_quoted,
};
use crate::i18n::Catalog;
use crate::world::types::{ActionOption, AiDecision, DecisionSource, ExternalDecisionInput};
use vstd::prelude::*;

verus! {

/// How a run is set up.
#[derive(Debug, Clone, PartialEq, Eq)]
pub struct SessionOptions {
    pub seed: u64,
    pub active_locale: String,
    /// Where the run is persisted, if anywhere.
    pub db_path: Option<String>,
    pub model: String,
}

impl SessionOptions {
    /// Seed 42, Chinese text, no persistence, an external agent.
    pub fn default_options() -> (o: Self)
        ensures
            o.seed == 42,
            o.active_locale@ == "zh-CN"@,
            o.db_path is None,
            o.model@ == "external-agent"@,
    {
        SessionOptions {
            seed: 42,
            active_locale: "zh-CN".to_string(),
            db_path: None,
            model: "external-agent".to_string(),
        }
    }
}

impl Default for SessionOptions {
    fn default() -> (o: Self)
        ensures
            o.seed == 42,
            o.active_locale@ == "zh-CN"@,
            o.db_path is None,
            o.model@ == "external-agent"@,
    {
        Self::default_options()
    }
}

/// The id of the decision opened at `tick` for the event `event_id`:
/// `tick-{tick}-{event_id}`.
pub open spec fn decision_id(tick: u64, event_id: Seq<char>) -> Seq<char> {
    "tick-"@ + decimal(tick as nat) + "-"@ + event_id
}

/// The id of the decision opened at `tick` for `event_id`.
pub fn pending_decision_id(tick: u64, event_id: &str) -> (s: String)
    ensures
        s@ == decision_id(tick, event_id@),
{
    let mut s = "tick-".to_string();
    push_decimal(&mut s, tick);
    push_str(&mut s, "-");
    push_str(&mut s, event_id);
    s
}

/// Why a submitted decision was refused.
#[derive(Debug, Clone, PartialEq, Eq)]
pub enum DecisionRejection {
    /// The run has an outcome already.
    RunFinished,
    /// No decision is waiting.
    NoPendingDecision,
    /// The submission names another decision than the waiting one.
    StaleDecision(String),
    /// The reason is empty or white space.
    MissingReason,
    /// The action is not among the waiting decision's actions.
    UnavailableAction(String),
}

/// The message of a refusal.
pub open spec fn rejection_message(r: DecisionRejection) -> Seq<char> {
    match r {
        DecisionRejection::RunFinished => "run already finished"@,
        DecisionRejection::NoPendingDecision => "no pending decision"@,
        DecisionRejection::StaleDecision(id) => "stale decision id "@ + id@,
        DecisionRejection::MissingReason => "decision reason is required"@,
        DecisionRejection::UnavailableAction(action) => "action "@ + debug_quoted(action@)
            + " is not available"@,
    }
}

impl DecisionRejection {
    /// The message reported for the refusal.
    pub fn message(&self) -> (s: String)
        ensures
            s@ == rejection_message(*self),
    {
        match self {
            DecisionRejection::RunFinished => "run already finished".to_string(),
            DecisionRejection::NoPendingDecision => "no pending decision".to_string(),
            DecisionRejection::StaleDecision(id) => {
                let mut s = "stale decision id ".to_string();
                push_str(&mut s, id.as_str());
                s
            },
            DecisionRejection::MissingReason => "decision reason is required".to_string(),
            DecisionRejection::UnavailableAction(action) => {
                let mut s = "action ".to_string();
                let q = quote_debug(action.as_str());
                push_str(&mut s, q.as_str());
                push_str(&mut s, " is not available");
                s
            },
        }
    }
}

/// The ids of a list of actions.
pub open spec fn action_ids(actions: Seq<ActionOption>) -> Seq<Seq<char>> {
    actions.map_values(|a: ActionOption| a.id@)
}

/// A decision waiting for the agent: its id, the actions it offers, and
/// what the runtime keeps with it.
pub struct PendingChoice<P> {
    pub id: String,
    pub actions: Vec<ActionOption>,
    pub payload: P,
}

/// The verdict on a submission: the first check that fails, in the order
/// finished run, no waiting decision, stale id, blank reason, unavailable
/// action; `None` when it is accepted.
pub open spec fn refusal<P>(finished: bool, pending: Option<PendingChoice<P>>, input: ExternalDecisionInput) -> Option<DecisionRejection> {
    if finished {
        Some(DecisionRejection::RunFinished)
    } else if pending is None {
        Some(DecisionRejection::NoPendingDecision)
    } else if pending->0.id@ != input.decision_id@ {
        Some(DecisionRejection::StaleDecision(input.decision_id))
    } else if is_blank(input.reason@) {
        Some(DecisionRejection::MissingReason)
    } else if !action_ids(pending->0.actions@).contains(input.action_id@) {
        Some(DecisionRejection::UnavailableAction(input.action_id))
    } else {
        None
    }
}

/// The decision that an accepted submission becomes: the chosen action,
/// the trimmed reason, the stated risk attitude or `agent` when it is
/// missing or blank, made by the agent.
pub open spec fn accepted_decision(input: ExternalDecisionInput, d: AiDecision) -> bool {
    &&& d.choice@ == input.action_id@
    &&& d.reason@ == trimmed(input.reason@)
    &&& d.risk_attitude@ == match input.risk_attitude {
        Some(a) => if is_blank(a@) {
            "agent"@
        } else {
            a@
        },
        None => "agent"@,
    }
    &&& d.source == DecisionSource::Agent
    &&& d.raw_output is None
}

/// An accepted submission always chooses one of the waiting decision's
/// actions, names the waiting decision, and gives a reason.
pub proof fn lemma_accepted_is_available<P>(finished: bool, pending: Option<PendingChoice<P>>, input: ExternalDecisionInput)
    requires
        refusal(finished, pending, input) is None,
    ensures
        !finished,
        pending is Some,
        pending->0.id@ == input.decision_id@,
        !is_blank(input.reason@),
        action_ids(pending->0.actions@).contains(input.action_id@),
{
}

/// A decision is resolved at most once: after an accepted submission the
/// slot is empty, and any further submission to a running game is refused
/// because no decision is waiting.
pub proof fn lemma_decision_resolved_once<P>(input: ExternalDecisionInput)
    ensures
        refusal::<P>(false, None, input) == Some(DecisionRejection::NoPendingDecision),
{
}

fn has_action(actions: &Vec<ActionOption>, id: &str) -> (b: bool)
    ensures
        b == action_ids(actions@).contains(id@),
{
    let mut i: usize = 0;
    while i < actions.len()
        invariant
            i <= actions@.len(),
            forall|j: int| 0 <= j < i ==> actions@[j].id@ != id@,
        decreases actions.len() - i,
    {
        if str_eq(actions[i].id.as_str(), id) {
            assert(action_ids(actions@)[i as int] == id@);
            return true;
        }
        i += 1;
    }
    assert forall|j: int| 0 <= j < action_ids(actions@).len() implies action_ids(actions@)[j] != id@ by {
        assert(action_ids(actions@)[j] == actions@[j].id@);
    }
    false
}

/// The decision made of an accepted submission.
pub fn decision_from_input(input: ExternalDecisionInput) -> (d: AiDecision)
    ensures
        accepted_decision(input, d),
{
    let reason = trim(input.reason.as_str());
    let risk_attitude = match input.risk_attitude {
        Some(a) => if blank(a.as_str()) {
            "agent".to_string()
        } else {
            a
        },
        None => "agent".to_string(),
    };
    AiDecision {
        choice: input.action_id,
        reason,
        risk_attitude,
        source: DecisionSource::Agent,
        raw_output: None,
    }
}

/// The slot that holds the one decision a run is waiting for.
pub struct DecisionSlot<P> {
    current: Option<PendingChoice<P>>,
}

impl<P> DecisionSlot<P> {
    /// The waiting decision, if any.
    pub closed spec fn pending(&self) -> Option<PendingChoice<P>> {
        self.current
    }

    /// A slot with nothing waiting.
    pub fn new() -> (s: Self)
        ensures
            s.pending() is None,
    {
        DecisionSlot { current: None }
    }

    /// Whether a decision is waiting.
    pub fn is_open(&self) -> (b: bool)
        ensures
            b == self.pending() is Some,
    {
        self.current.is_some()
    }

    /// What the runtime keeps with the waiting decision.
    pub fn payload(&self) -> (p: Option<&P>)
        ensures
            match p {
                Some(x) => self.pending() is Some && *x == self.pending()->0.payload,
                None => self.pending() is None,
            },
    {
        match &self.current {
            Some(c) => Some(&c.payload),
            None => None,
        }
    }

    /// The actions the waiting decision offers.
    pub fn actions(&self) -> (a: Option<&Vec<ActionOption>>)
        ensures
            match a {
                Some(x) => self.pending() is Some && x@ == self.pending()->0.actions@,
                None => self.pending() is None,
            },
    {
        match &self.current {
            Some(c) => Some(&c.actions),
            None => None,
        }
    }

    /// Opens a decision, replacing any that was waiting.
    pub fn open(&mut self, id: String, actions: Vec<ActionOption>, payload: P)
        ensures
            final(self).pending() == Some(PendingChoice { id, actions, payload }),
    {
        self.current = Some(PendingChoice { id, actions, payload });
    }

    /// Checks a submission against the waiting decision. An accepted one
    /// closes the decision and gives back what was kept with it together
    /// with the decision to resolve; a refused one leaves the slot as it
    /// was.
    pub fn submit(&mut self, finished: bool, input: ExternalDecisionInput) -> (r: Result<(P, AiDecision), DecisionRejection>)
        ensures
            match r {
                Ok((payload, d)) => {
                    &&& refusal(finished, old(self).pending(), input) is None
                    &&& payload == old(self).pending()->0.payload
                    &&& accepted_decision(input, d)
                    &&& final(self).pending() is None
                },
                Err(e) => {
                    &&& refusal(finished, old(self).pending(), input) == Some(e)
                    &&& final(self).pending() == old(self).pending()
                },
            },
    {
        if finished {
            return Err(DecisionRejection::RunFinished);
        }
        match &self.current {
            None => {
                return Err(DecisionRejection::NoPendingDecision);
            },
            Some(c) => {
                if !str_eq(c.id.as_str(), input.decision_id.as_str()) {
                    return Err(DecisionRejection::StaleDecision(input.decision_id));
                }
                if blank(input.reason.as_str()) {
                    return Err(DecisionRejection::MissingReason);
                }
                if !has_action(&c.actions, input.action_id.as_str()) {
                    return Err(DecisionRejection::UnavailableAction(input.action_id));
                }
            },
        }
        let taken = self.current.take();
        match taken {
            Some(c) => Ok((c.payload, decision_from_input(input))),
            None => Err(DecisionRejection::NoPendingDecision),
        }
    }
}


/// Whether the run clock may advance: the run is not paused, has no
/// outcome, and no decision is waiting.
pub fn may_advance(paused: bool, finished: bool, pending_open: bool) -> (b: bool)
    ensures
        b == (!paused && !finished && !pending_open),
{
    !paused && !finished && !pending_open
}

/// Whether `tick` draws a world event: every `interval`-th tick.
pub fn is_event_tick(tick: u64, interval: u64) -> (b: bool)
    requires
        interval > 0,
    ensures
        b == (tick % interval == 0),
{
    tick % interval == 0
}

/// Whether a snapshot is due after `tick`: every `interval`-th tick and
/// whenever the run has ended.
pub fn snapshot_due(tick: u64, interval: u64, finished: bool) -> (b: bool)
    requires
        interval > 0,
    ensures
        b == (tick % interval == 0 || finished),
{
    tick % interval == 0 || finished
}

/// `history` with `item` appended, keeping only the newest `cap` entries
/// when it grows past `cap`.
pub open spec fn capped<T>(history: Seq<T>, item: T, cap: nat) -> Seq<T> {
    let grown = history.push(item);
    if grown.len() > cap {
        grown.drop_first()
    } else {
        grown
    }
}

/// Appends `item`, dropping the oldest entry when the history grows past
/// `cap`.
pub fn push_capped<T>(history: &mut Vec<T>, item: T, cap: usize)
    ensures
        final(history)@ == capped(old(history)@, item, cap as nat),
{
    history.push(item);
    if history.len() > cap {
        history.remove(0);
        assert(final(history)@ =~= old(history)@.push(item).drop_first());
    }
}

/// A capped history never holds more than its cap, keeps its newest entries
/// in order, and ends with the newest item.
pub proof fn lemma_capped_history<T>(history: Seq<T>, item: T, cap: nat)
    requires
        history.len() <= cap,
        cap > 0,
    ensures
        capped(history, item, cap).len() <= cap,
        capped(history, item, cap).last() == item,
        capped(history, item, cap) == history.push(item).skip(history.len() + 1 - capped(history, item, cap).len()),
{
    assert(history.push(item).skip(0) =~= history.push(item));
    assert(history.push(item).drop_first() =~= history.push(item).skip(1));
}

/// The submission of the scripted agent: the first offered action, with
/// the localised first-available reason and the risk attitude `scripted`.
pub open spec fn scripted_input(c: crate::i18n::CatalogView, decision_id: Seq<char>, actions: Seq<ActionOption>, input: ExternalDecisionInput) -> bool {
    &&& actions.len() > 0
    &&& input.decision_id@ == decision_id
    &&& input.action_id@ == actions[0].id@
    &&& input.reason@ == c.text("scripted.reason.first_available"@)
    &&& input.risk_attitude matches Some(a) && a@ == "scripted"@
}

/// What the scripted agent submits for the decision `decision_id` offering
/// `actions`, or the error when it offers none.
pub fn scripted_decision(catalog: &Catalog, decision_id: &str, actions: &Vec<ActionOption>) -> (r: Result<ExternalDecisionInput, String>)
    ensures
        match r {
            Ok(input) => scripted_input(catalog@, decision_id@, actions@, input),
            Err(e) => actions@.len() == 0 && e@ == "pending decision has no available actions"@,
        },
{
    if actions.len() == 0 {
        return Err("pending decision has no available actions".to_string());
    }
    Ok(ExternalDecisionInput {
        decision_id: decision_id.to_string(),
        action_id: actions[0].id.clone(),
        reason: catalog.text("scripted.reason.first_available"),
        risk_attitude: Some("scripted".to_string()),
    })
}

/// The scripted agent's submission for the waiting decision is accepted
/// whenever the run is still going and its reason text is not blank.
pub proof fn lemma_scripted_decision_accepted<P>(
    c: crate::i18n::CatalogView,
    pending: PendingChoice<P>,
    input: ExternalDecisionInput,
)
    requires
        scripted_input(c, pending.id@, pending.actions@, input),
        !is_blank(c.text("scripted.reason.first_available"@)),
    ensures
        refusal(false, Some(pending), input) is None,
{
    assert(action_ids(pending.actions@)[0] == input.action_id@);
}

} // verus!

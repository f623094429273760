//! The bookkeeping of a run: its histories of domain events, decisions,
//! logs and presentation events, whether it is paused, and the observer's
//! presentation frame. The log and presentation histories keep only their
//! newest entries.

use crate::world::session::{capped, push_capped};
use crate::world::types::{DecisionRecord, LogEntry};
use vstd::prelude::*;

verus! {

/// How many log lines a run keeps.
pub const LOG_CAP: usize = 100;

/// How many presentation events a run keeps.
pub const UI_EVENT_CAP: usize = 120;

/// The histories of a run (domain events of type `D`, presentation events
/// of type `U`), its pause flag and its presentation frame.
pub struct RunLedger<D, U> {
    domain_events: Vec<D>,
    decisions: Vec<DecisionRecord>,
    logs: Vec<LogEntry>,
    ui_events: Vec<U>,
    paused: bool,
    frame: u64,
}

impl<D, U> RunLedger<D, U> {
    /// The capped histories stay within their caps.
    #[verifier::type_invariant]
    spec fn within_caps(self) -> bool {
        &&& self.logs@.len() <= LOG_CAP
        &&& self.ui_events@.len() <= UI_EVENT_CAP
    }

    /// The domain events recorded so far.
    pub closed spec fn domain_events_v(self) -> Seq<D> {
        self.domain_events@
    }

    /// The decisions recorded so far.
    pub closed spec fn decisions_v(self) -> Seq<DecisionRecord> {
        self.decisions@
    }

    /// The newest log lines.
    pub closed spec fn logs_v(self) -> Seq<LogEntry> {
        self.logs@
    }

    /// The newest presentation events.
    pub closed spec fn ui_events_v(self) -> Seq<U> {
        self.ui_events@
    }

    /// Whether the run is paused.
    pub closed spec fn paused_v(self) -> bool {
        self.paused
    }

    /// The presentation frame.
    pub closed spec fn frame_v(self) -> u64 {
        self.frame
    }

    /// An empty ledger of a running run at frame 0.
    pub fn new() -> (l: Self)
        ensures
            l.domain_events_v().len() == 0,
            l.decisions_v().len() == 0,
            l.logs_v().len() == 0,
            l.ui_events_v().len() == 0,
            !l.paused_v(),
            l.frame_v() == 0,
    {
        RunLedger {
            domain_events: Vec::new(),
            decisions: Vec::new(),
            logs: Vec::new(),
            ui_events: Vec::new(),
            paused: false,
            frame: 0,
        }
    }

    /// The domain events recorded so far, oldest first.
    pub fn domain_events(&self) -> (r: &Vec<D>)
        ensures
            r@ == self.domain_events_v(),
    {
        &self.domain_events
    }

    /// The decisions recorded so far, oldest first.
    pub fn decisions(&self) -> (r: &Vec<DecisionRecord>)
        ensures
            r@ == self.decisions_v(),
    {
        &self.decisions
    }

    /// The newest log lines, oldest first; never more than [`LOG_CAP`].
    pub fn logs(&self) -> (r: &Vec<LogEntry>)
        ensures
            r@ == self.logs_v(),
            r@.len() <= LOG_CAP,
    {
        proof {
            use_type_invariant(self);
        }
        &self.logs
    }

    /// The newest presentation events, oldest first; never more than
    /// [`UI_EVENT_CAP`].
    pub fn ui_events(&self) -> (r: &Vec<U>)
        ensures
            r@ == self.ui_events_v(),
            r@.len() <= UI_EVENT_CAP,
    {
        proof {
            use_type_invariant(self);
        }
        &self.ui_events
    }

    /// Whether the run is paused.
    pub fn paused(&self) -> (b: bool)
        ensures
            b == self.paused_v(),
    {
        self.paused
    }

    /// The presentation frame.
    pub fn frame(&self) -> (f: u64)
        ensures
            f == self.frame_v(),
    {
        self.frame
    }

    /// Appends a domain event.
    pub fn record_domain_event(&mut self, event: D)
        ensures
            final(self).domain_events_v() == old(self).domain_events_v().push(event),
            final(self).decisions_v() == old(self).decisions_v(),
            final(self).logs_v() == old(self).logs_v(),
            final(self).ui_events_v() == old(self).ui_events_v(),
            final(self).paused_v() == old(self).paused_v(),
            final(self).frame_v() == old(self).frame_v(),
    {
        proof {
            use_type_invariant(&*self);
        }
        let mut events: Vec<D> = Vec::new();
        std::mem::swap(&mut events, &mut self.domain_events);
        events.push(event);
        self.domain_events = events;
    }

    /// Appends a decision.
    pub fn record_decision(&mut self, decision: DecisionRecord)
        ensures
            final(self).domain_events_v() == old(self).domain_events_v(),
            final(self).decisions_v() == old(self).decisions_v().push(decision),
            final(self).logs_v() == old(self).logs_v(),
            final(self).ui_events_v() == old(self).ui_events_v(),
            final(self).paused_v() == old(self).paused_v(),
            final(self).frame_v() == old(self).frame_v(),
    {
        proof {
            use_type_invariant(&*self);
        }
        let mut decisions: Vec<DecisionRecord> = Vec::new();
        std::mem::swap(&mut decisions, &mut self.decisions);
        decisions.push(decision);
        self.decisions = decisions;
    }

    /// Appends a log line, dropping the oldest past [`LOG_CAP`].
    pub fn record_log(&mut self, log: LogEntry)
        ensures
            final(self).domain_events_v() == old(self).domain_events_v(),
            final(self).decisions_v() == old(self).decisions_v(),
            final(self).logs_v() == capped(old(self).logs_v(), log, LOG_CAP as nat),
            final(self).ui_events_v() == old(self).ui_events_v(),
            final(self).paused_v() == old(self).paused_v(),
            final(self).frame_v() == old(self).frame_v(),
    {
        proof {
            use_type_invariant(&*self);
        }
        let mut logs: Vec<LogEntry> = Vec::new();
        std::mem::swap(&mut logs, &mut self.logs);
        push_capped(&mut logs, log, LOG_CAP);
        self.logs = logs;
    }

    /// Appends a presentation event, dropping the oldest past
    /// [`UI_EVENT_CAP`].
    pub fn record_ui_event(&mut self, event: U)
        ensures
            final(self).domain_events_v() == old(self).domain_events_v(),
            final(self).decisions_v() == old(self).decisions_v(),
            final(self).logs_v() == old(self).logs_v(),
            final(self).ui_events_v() == capped(old(self).ui_events_v(), event, UI_EVENT_CAP as nat),
            final(self).paused_v() == old(self).paused_v(),
            final(self).frame_v() == old(self).frame_v(),
    {
        proof {
            use_type_invariant(&*self);
        }
        let mut events: Vec<U> = Vec::new();
        std::mem::swap(&mut events, &mut self.ui_events);
        push_capped(&mut events, event, UI_EVENT_CAP);
        self.ui_events = events;
    }

    /// Pauses a running run or resumes a paused one; returns whether it is
    /// paused now.
    pub fn toggle_pause(&mut self) -> (now_paused: bool)
        ensures
            now_paused == !old(self).paused_v(),
            final(self).paused_v() == now_paused,
            final(self).domain_events_v() == old(self).domain_events_v(),
            final(self).decisions_v() == old(self).decisions_v(),
            final(self).logs_v() == old(self).logs_v(),
            final(self).ui_events_v() == old(self).ui_events_v(),
            final(self).frame_v() == old(self).frame_v(),
    {
        proof {
            use_type_invariant(&*self);
        }
        self.paused = !self.paused;
        self.paused
    }

    /// Moves the presentation on by one frame (it stops at the largest
    /// frame).
    pub fn advance_frame(&mut self)
        ensures
            final(self).frame_v() == if old(self).frame_v() < u64::MAX {
                (old(self).frame_v() + 1) as u64
            } else {
                u64::MAX
            },
            final(self).domain_events_v() == old(self).domain_events_v(),
            final(self).decisions_v() == old(self).decisions_v(),
            final(self).logs_v() == old(self).logs_v(),
            final(self).ui_events_v() == old(self).ui_events_v(),
            final(self).paused_v() == old(self).paused_v(),
    {
        proof {
            use_type_invariant(&*self);
        }
        self.frame = self.frame.saturating_add(1);
    }
}

} // verus!

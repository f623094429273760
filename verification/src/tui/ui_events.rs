//! The vocabulary of observer-facing UI events and the rules that give each
//! event its priority, lifetime, motion and visibility.

use crate::world::{DecisionSource, RiskLevel};
use vstd::prelude::*;

verus! {

/// What a UI event reports.
#[derive(Debug, Clone, Copy, PartialEq, Eq, Structural)]
pub enum UiEventKind {
    ValueDelta,
    Risk,
    Decision,
    Fallback,
    Log,
    WorldEvent,
    Control,
}

impl UiEventKind {
    /// The snake-case name under which the kind is stored.
    pub fn as_str(&self) -> (s: &'static str)
        ensures
            s@ == match self {
                UiEventKind::ValueDelta => "value_delta"@,
                UiEventKind::Risk => "risk"@,
                UiEventKind::Decision => "decision"@,
                UiEventKind::Fallback => "fallback"@,
                UiEventKind::Log => "log"@,
                UiEventKind::WorldEvent => "world_event"@,
                UiEventKind::Control => "control"@,
            },
    {
        match self {
            UiEventKind::ValueDelta => "value_delta",
            UiEventKind::Risk => "risk",
            UiEventKind::Decision => "decision",
            UiEventKind::Fallback => "fallback",
            UiEventKind::Log => "log",
            UiEventKind::WorldEvent => "world_event",
            UiEventKind::Control => "control",
        }
    }
}

/// How urgent a UI event is, from least to most.
#[derive(Debug, Clone, Copy, PartialEq, Eq, PartialOrd, Ord, Structural)]
pub enum UiPriority {
    Low,
    Normal,
    High,
    Critical,
}

/// How a UI event is animated.
#[derive(Debug, Clone, Copy, PartialEq, Eq, Structural)]
pub enum UiMotion {
    Still,
    Fade,
    Pulse,
    Rise,
    Sink,
    Slide,
}

/// Whether a UI event expires.
#[derive(Debug, Clone, Copy, PartialEq, Eq, Structural)]
pub enum UiVisibility {
    Timed,
    Persistent,
}

/// The sign of the change that a value-delta event reports (`Zero` also when
/// there is no change attached).
#[derive(Debug, Clone, Copy, PartialEq, Eq, Structural)]
pub enum DeltaSign {
    Negative,
    Zero,
    Positive,
}

/// The lifetime in frames of an event of `kind` and `priority`.
pub open spec fn ttl_frames(kind: UiEventKind, priority: UiPriority) -> u64 {
    let base: u64 = match kind {
        UiEventKind::ValueDelta => 24,
        UiEventKind::Risk => 30,
        UiEventKind::Decision => 18,
        UiEventKind::Fallback => 36,
        UiEventKind::Log => 18,
        UiEventKind::WorldEvent => 30,
        UiEventKind::Control => 20,
    };
    let extra: u64 = match priority {
        UiPriority::Low => 0,
        UiPriority::Normal => 4,
        UiPriority::High => 10,
        UiPriority::Critical => 18,
    };
    (base + extra) as u64
}

/// How many frames an event of `kind` and `priority` stays visible: a base
/// per kind, lengthened by its priority.
pub fn default_ttl_frames(kind: &UiEventKind, priority: &UiPriority) -> (t: u64)
    ensures
        t == ttl_frames(*kind, *priority),
{
    let base: u64 = match kind {
        UiEventKind::ValueDelta => 24,
        UiEventKind::Risk => 30,
        UiEventKind::Decision => 18,
        UiEventKind::Fallback => 36,
        UiEventKind::Log => 18,
        UiEventKind::WorldEvent => 30,
        UiEventKind::Control => 20,
    };
    base + match priority {
        UiPriority::Low => 0,
        UiPriority::Normal => 4,
        UiPriority::High => 10,
        UiPriority::Critical => 18,
    }
}

/// A more urgent event lives longer than a less urgent one of the same kind.
pub proof fn lemma_ttl_grows_with_priority(kind: UiEventKind, a: UiPriority, b: UiPriority)
    requires
        priority_rank(a) < priority_rank(b),
    ensures
        ttl_frames(kind, a) < ttl_frames(kind, b),
{
}

/// The position of a priority in the order Low < Normal < High < Critical.
pub open spec fn priority_rank(p: UiPriority) -> int {
    match p {
        UiPriority::Low => 0,
        UiPriority::Normal => 1,
        UiPriority::High => 2,
        UiPriority::Critical => 3,
    }
}

/// The motion of an event of `kind` whose change has sign `delta`.
pub open spec fn motion_for(kind: UiEventKind, delta: DeltaSign) -> UiMotion {
    match kind {
        UiEventKind::ValueDelta => match delta {
            DeltaSign::Positive => UiMotion::Rise,
            DeltaSign::Negative => UiMotion::Sink,
            DeltaSign::Zero => UiMotion::Fade,
        },
        UiEventKind::Risk | UiEventKind::Fallback => UiMotion::Pulse,
        UiEventKind::WorldEvent | UiEventKind::Decision | UiEventKind::Control => UiMotion::Slide,
        UiEventKind::Log => UiMotion::Fade,
    }
}

/// Gains rise, losses sink, alerts pulse, announcements slide, the rest
/// fades.
pub fn default_motion(kind: &UiEventKind, delta: DeltaSign) -> (m: UiMotion)
    ensures
        m == motion_for(*kind, delta),
{
    match kind {
        UiEventKind::ValueDelta => match delta {
            DeltaSign::Positive => UiMotion::Rise,
            DeltaSign::Negative => UiMotion::Sink,
            DeltaSign::Zero => UiMotion::Fade,
        },
        UiEventKind::Risk | UiEventKind::Fallback => UiMotion::Pulse,
        UiEventKind::WorldEvent | UiEventKind::Decision | UiEventKind::Control => UiMotion::Slide,
        UiEventKind::Log => UiMotion::Fade,
    }
}

/// The priority of a risk event: the risk level itself.
pub fn risk_priority(risk: RiskLevel) -> (p: UiPriority)
    ensures
        p == match risk {
            RiskLevel::Low => UiPriority::Low,
            RiskLevel::Medium => UiPriority::Normal,
            RiskLevel::High => UiPriority::High,
            RiskLevel::Critical => UiPriority::Critical,
        },
{
    match risk {
        RiskLevel::Low => UiPriority::Low,
        RiskLevel::Medium => UiPriority::Normal,
        RiskLevel::High => UiPriority::High,
        RiskLevel::Critical => UiPriority::Critical,
    }
}

/// The priority of a log event by the log's level.
pub open spec fn level_priority(level: Seq<char>) -> UiPriority {
    if level == "danger"@ || level == "critical"@ {
        UiPriority::Critical
    } else if level == "warning"@ {
        UiPriority::High
    } else if level == "notice"@ {
        UiPriority::Normal
    } else {
        UiPriority::Low
    }
}

/// Danger and critical logs are critical, warnings high, notices normal,
/// anything else low.
pub fn log_priority(level: &str) -> (p: UiPriority)
    ensures
        p == level_priority(level@),
{
    if crate::text::str_eq(level, "danger") || crate::text::str_eq(level, "critical") {
        UiPriority::Critical
    } else if crate::text::str_eq(level, "warning") {
        UiPriority::High
    } else if crate::text::str_eq(level, "notice") {
        UiPriority::Normal
    } else {
        UiPriority::Low
    }
}

/// The kind and priority of a decision event: a fallback decision is an
/// alert, an agent's decision is news.
pub fn decision_kind(source: &DecisionSource) -> (r: (UiEventKind, UiPriority))
    ensures
        r == match source {
            DecisionSource::Fallback => (UiEventKind::Fallback, UiPriority::High),
            DecisionSource::Agent => (UiEventKind::Decision, UiPriority::Normal),
        },
{
    match source {
        DecisionSource::Fallback => (UiEventKind::Fallback, UiPriority::High),
        DecisionSource::Agent => (UiEventKind::Decision, UiPriority::Normal),
    }
}

/// Frames since an event was created (0 for a frame before it).
pub fn event_age(created_frame: u64, current_frame: u64) -> (a: u64)
    ensures
        a == if current_frame >= created_frame { current_frame - created_frame } else { 0 },
{
    current_frame.saturating_sub(created_frame)
}

/// Whether an event is still shown at `current_frame`: persistent events
/// always, timed ones until their age passes their lifetime.
pub open spec fn visible_at(visibility: UiVisibility, created_frame: u64, ttl_frames: u64, current_frame: u64) -> bool {
    visibility == UiVisibility::Persistent || (if current_frame >= created_frame {
        current_frame - created_frame
    } else {
        0
    }) <= ttl_frames
}

/// Whether an event is still shown at `current_frame`.
pub fn event_visible(visibility: UiVisibility, created_frame: u64, ttl_frames: u64, current_frame: u64) -> (b: bool)
    ensures
        b == visible_at(visibility, created_frame, ttl_frames, current_frame),
{
    visibility == UiVisibility::Persistent || event_age(created_frame, current_frame) <= ttl_frames
}

/// A timed event, once expired, stays expired.
pub proof fn lemma_expired_stays_expired(created_frame: u64, ttl_frames: u64, f1: u64, f2: u64)
    requires
        f1 <= f2,
        !visible_at(UiVisibility::Timed, created_frame, ttl_frames, f1),
    ensures
        !visible_at(UiVisibility::Timed, created_frame, ttl_frames, f2),
{
}

} // verus!

//! Semantic style roles of the observer and the rules that map priorities
//! and risk levels onto them.

use crate::tui::ui_events::UiPriority;
use crate::world::RiskLevel;
use vstd::prelude::*;

verus! {

/// A semantic role that the observer renders in one colour and weight.
#[derive(Debug, Clone, Copy, PartialEq, Eq, Structural)]
pub enum StyleRole {
    Title,
    Text,
    Muted,
    Positive,
    Negative,
    Warning,
    Critical,
    Recovery,
}

/// The observer's theme.
pub struct Theme;

impl Theme {
    /// Low is muted, normal is text, high is a warning, critical is critical.
    pub fn role_for_priority(priority: &UiPriority) -> (r: StyleRole)
        ensures
            r == match priority {
                UiPriority::Low => StyleRole::Muted,
                UiPriority::Normal => StyleRole::Text,
                UiPriority::High => StyleRole::Warning,
                UiPriority::Critical => StyleRole::Critical,
            },
    {
        match priority {
            UiPriority::Low => StyleRole::Muted,
            UiPriority::Normal => StyleRole::Text,
            UiPriority::High => StyleRole::Warning,
            UiPriority::Critical => StyleRole::Critical,
        }
    }

    /// Low risk reads as recovery, medium as a warning, high and critical as
    /// critical.
    pub fn role_for_risk(risk: RiskLevel) -> (r: StyleRole)
        ensures
            r == match risk {
                RiskLevel::Low => StyleRole::Recovery,
                RiskLevel::Medium => StyleRole::Warning,
                RiskLevel::High | RiskLevel::Critical => StyleRole::Critical,
            },
    {
        match risk {
            RiskLevel::Low => StyleRole::Recovery,
            RiskLevel::Medium => StyleRole::Warning,
            RiskLevel::High | RiskLevel::Critical => StyleRole::Critical,
        }
    }

    /// Whether a role is drawn in bold (titles and critical text).
    pub fn is_bold(role: StyleRole) -> (b: bool)
        ensures
            b == (role == StyleRole::Title || role == StyleRole::Critical),
    {
        match role {
            StyleRole::Title | StyleRole::Critical => true,
            _ => false,
        }
    }
}

} // verus!

use waves::tui::{StyleRole, Theme, UiPriority};
use waves::world::RiskLevel;

#[test]
fn theme_maps_risk_to_semantic_roles() {
    assert_eq!(Theme::role_for_risk(RiskLevel::Low), StyleRole::Recovery);
    assert_eq!(Theme::role_for_risk(RiskLevel::Medium), StyleRole::Warning);
    assert_eq!(Theme::role_for_risk(RiskLevel::High), StyleRole::Critical);
}

#[test]
fn theme_maps_priority_to_semantic_roles() {
    assert_eq!(Theme::role_for_priority(&UiPriority::Low), StyleRole::Muted);
    assert_eq!(Theme::role_for_priority(&UiPriority::Normal), StyleRole::Text);
    assert_eq!(Theme::role_for_priority(&UiPriority::High), StyleRole::Warning);
    assert_eq!(Theme::role_for_priority(&UiPriority::Critical), StyleRole::Critical);
    assert!(Theme::is_bold(StyleRole::Title));
    assert!(!Theme::is_bold(StyleRole::Muted));
}

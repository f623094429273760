use waves::tui::labels::{action_label, legacy_risk_key, metric_label, risk_label};
use waves::tui::ui_events::{
    decision_kind, default_motion, default_ttl_frames, event_age, event_visible, log_priority,
    risk_priority,
};
use waves::tui::{DeltaSign, UiEventKind, UiMotion, UiPriority, UiVisibility};
use waves::config::{locales_by_name, LocaleTable};
use waves::i18n::Catalog;
use waves::world::{DecisionSource, RiskLevel};

#[test]
fn ui_event_timing_expires_deterministically() {
    let priority = risk_priority(RiskLevel::Critical);
    let ttl = default_ttl_frames(&UiEventKind::Risk, &priority);
    assert!(ttl > 30);
    assert!(event_visible(UiVisibility::Timed, 100, ttl, 100));
    assert!(event_visible(UiVisibility::Timed, 100, ttl, 100 + ttl));
    assert!(!event_visible(UiVisibility::Timed, 100, ttl, 100 + ttl + 1));
    assert!(event_visible(UiVisibility::Persistent, 100, ttl, 100 + ttl + 1));
    let normal = default_ttl_frames(&UiEventKind::Control, &UiPriority::Normal);
    assert!(ttl > normal);
    assert_eq!(event_age(100, 90), 0);
    assert_eq!(event_age(100, 130), 30);
}

#[test]
fn risk_level_has_a_locale_key_and_priority() {
    assert_eq!(RiskLevel::High.key(), "risk.high");
    assert_eq!(risk_priority(RiskLevel::High), UiPriority::High);
}

#[test]
fn ttl_frames_by_kind_and_priority() {
    assert_eq!(default_ttl_frames(&UiEventKind::ValueDelta, &UiPriority::Low), 24);
    assert_eq!(default_ttl_frames(&UiEventKind::Fallback, &UiPriority::Critical), 54);
    assert_eq!(default_ttl_frames(&UiEventKind::Decision, &UiPriority::Normal), 22);
}

#[test]
fn motion_follows_kind_and_sign() {
    assert_eq!(default_motion(&UiEventKind::ValueDelta, DeltaSign::Positive), UiMotion::Rise);
    assert_eq!(default_motion(&UiEventKind::ValueDelta, DeltaSign::Negative), UiMotion::Sink);
    assert_eq!(default_motion(&UiEventKind::ValueDelta, DeltaSign::Zero), UiMotion::Fade);
    assert_eq!(default_motion(&UiEventKind::Risk, DeltaSign::Zero), UiMotion::Pulse);
    assert_eq!(default_motion(&UiEventKind::Control, DeltaSign::Zero), UiMotion::Slide);
    assert_eq!(default_motion(&UiEventKind::Log, DeltaSign::Positive), UiMotion::Fade);
}

#[test]
fn log_levels_map_to_priorities() {
    assert_eq!(log_priority("danger"), UiPriority::Critical);
    assert_eq!(log_priority("critical"), UiPriority::Critical);
    assert_eq!(log_priority("warning"), UiPriority::High);
    assert_eq!(log_priority("notice"), UiPriority::Normal);
    assert_eq!(log_priority("info"), UiPriority::Low);
    assert_eq!(
        decision_kind(&DecisionSource::Fallback),
        (UiEventKind::Fallback, UiPriority::High)
    );
    assert_eq!(UiEventKind::WorldEvent.as_str(), "world_event");
}

fn catalog() -> Catalog {
    let table = LocaleTable::from_entries(
        "zh-CN".to_string(),
        vec![
            ("action.fish".to_string(), "捕鱼".to_string()),
            ("stat.hp".to_string(), "生命".to_string()),
            ("nav.target".to_string(), "陆地".to_string()),
            ("risk.high".to_string(), "高".to_string()),
            ("risk.medium".to_string(), "中".to_string()),
        ],
    );
    Catalog::new("zh-CN".to_string(), "zh-CN".to_string(), locales_by_name(vec![table]))
}

#[test]
fn labels_use_locale_keys() {
    let c = catalog();
    assert_eq!(action_label(&c, "fish"), "捕鱼");
    assert_eq!(action_label(&c, "action.fish"), "捕鱼");
    assert_eq!(action_label(&c, "swim"), "swim");
    assert_eq!(metric_label(&c, "hp"), "生命");
    assert_eq!(metric_label(&c, "distance_to_land"), "陆地");
    assert_eq!(metric_label(&c, "mystery"), "mystery");
    assert_eq!(risk_label(&c, "risk.high", ""), "高");
    assert_eq!(risk_label(&c, "risk", "risk changed to high"), "高");
    assert_eq!(risk_label(&c, "risk", "unknown"), "中");
    assert_eq!(legacy_risk_key("now  critical \n"), Some("risk.critical"));
    assert_eq!(legacy_risk_key("   "), None);
}

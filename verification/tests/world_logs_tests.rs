use waves::config::{locales_by_name, LocaleTable};
use waves::i18n::Catalog;
use waves::world::{
    action_name, advance_clock, decision_logs, event_conditions, event_ready, intervention_log,
    pause_message_key, pending_decision_id, scripted_decision, ActionOption, AiDecision,
    DecisionSlot, DecisionSource, RiskLevel, SeaCondition, Weather, WorldEvent,
};

fn s(x: &str) -> String {
    x.to_string()
}

fn zh_catalog() -> Catalog {
    let table = LocaleTable::from_entries(
        s("zh-CN"),
        vec![
            (s("source.agent"), s("智能体")),
            (s("source.fallback"), s("兜底")),
            (s("action.fish"), s("捕鱼")),
            (s("event.rain.title"), s("下雨")),
            (s("log.decision"), s("{actor} 选择 {action}：{reason}")),
            (s("log.result"), s("{action}：{summary}")),
            (s("log.fallback"), s("改用 {action}")),
            (s("control.paused"), s("已暂停")),
            (s("scripted.reason.first_available"), s("本地脚本选择第一个可用行动。")),
        ],
    );
    Catalog::new(s("zh-CN"), s("zh-CN"), locales_by_name(vec![table]))
}

fn rain() -> WorldEvent {
    WorldEvent {
        id: s("rain"),
        title_key: s("event.rain.title"),
        severity: s("notice"),
        resolver_id: s("rain_basic"),
    }
}

fn decision(source: DecisionSource) -> AiDecision {
    AiDecision {
        choice: s("fish"),
        reason: s("测试原因"),
        risk_attitude: s("balanced"),
        source,
        raw_output: None,
    }
}

#[test]
fn runtime_decision_log_actor_uses_active_locale() {
    let catalog = zh_catalog();
    let actions = vec![(s("fish"), s("action.fish"))];
    let logs = decision_logs(
        &catalog,
        &actions,
        12,
        RiskLevel::Medium,
        &rain(),
        &decision(DecisionSource::Agent),
        "食物 +0.75",
        "tick-12-rain",
    );
    assert_eq!(logs.len(), 2);
    assert!(logs[0].body.contains("智能体 选择"));
    assert!(!logs[0].body.contains("Agent"));
    assert_eq!(logs[0].body, "智能体 选择 捕鱼：测试原因");
    assert_eq!(logs[0].title, "下雨");
    assert_eq!(logs[0].level, "notice");
    assert_eq!(logs[0].source_event_id.as_deref(), Some("rain"));
    assert_eq!(logs[1].title, "捕鱼");
    assert_eq!(logs[1].body, "捕鱼：食物 +0.75");
    assert_eq!(logs[1].level, "notice");
    assert_eq!(logs[1].tick, 12);
}

#[test]
fn fallback_decision_logs_warn_first_and_high_risk_warns() {
    let catalog = zh_catalog();
    let actions = vec![(s("fish"), s("action.fish"))];
    let logs = decision_logs(
        &catalog,
        &actions,
        8,
        RiskLevel::High,
        &rain(),
        &decision(DecisionSource::Fallback),
        "无",
        "tick-8-rain",
    );
    assert_eq!(logs.len(), 3);
    assert_eq!(logs[0].level, "warning");
    assert_eq!(logs[0].title, "兜底");
    assert_eq!(logs[0].body, "改用 捕鱼");
    assert_eq!(logs[0].source_event_id.as_deref(), Some("tick-8-rain"));
    assert_eq!(logs[2].level, "warning");
}

#[test]
fn action_name_uses_table_then_id() {
    let catalog = zh_catalog();
    let actions = vec![(s("fish"), s("action.fish")), (s("rest"), s("action.rest"))];
    assert_eq!(action_name(&catalog, &actions, "fish"), "捕鱼");
    assert_eq!(action_name(&catalog, &actions, "rest"), "action.rest");
    assert_eq!(action_name(&catalog, &actions, "swim"), "swim");
}

#[test]
fn intervention_and_pause_messages() {
    let log = intervention_log(3, "pause", "已暂停");
    assert_eq!(log.level, "notice");
    assert_eq!(log.title, "pause");
    assert_eq!(log.body, "已暂停");
    assert_eq!(log.source_event_id, None);
    assert_eq!(pause_message_key(true), "control.paused");
    assert_eq!(pause_message_key(false), "control.resumed");
    assert_eq!(zh_catalog().text(pause_message_key(true)), "已暂停");
}

#[test]
fn clock_rolls_over_days() {
    assert_eq!(advance_clock(1, 0, 30), (1, 30));
    assert_eq!(advance_clock(1, 1410, 30), (2, 0));
    assert_eq!(advance_clock(1, 1430, 30), (2, 20));
    assert_eq!(advance_clock(3, 100, 3000), (5, 220));
    assert_eq!(advance_clock(1, 0, 0), (1, 0));
}

#[test]
fn events_wait_for_their_cooldown() {
    assert!(event_ready(10, None, 10));
    assert!(!event_ready(9, None, 10));
    assert!(event_ready(20, Some(12), 8));
    assert!(!event_ready(19, Some(12), 8));
    assert!(!event_ready(5, Some(12), 1));
    assert!(event_ready(5, Some(12), 0));
}

#[test]
fn world_events_change_weather_sea_and_risk() {
    let start = (Weather::Cloudy, SeaCondition::Moderate, RiskLevel::Medium);
    assert_eq!(
        event_conditions("rain", start.0, SeaCondition::Rough, start.2),
        (Weather::Rain, SeaCondition::Moderate, RiskLevel::Medium)
    );
    assert_eq!(
        event_conditions("heat", start.0, start.1, start.2),
        (Weather::Heat, SeaCondition::Moderate, RiskLevel::Medium)
    );
    assert_eq!(
        event_conditions("storm", Weather::Clear, SeaCondition::Calm, RiskLevel::Low),
        (Weather::Storm, SeaCondition::Rough, RiskLevel::High)
    );
    assert_eq!(
        event_conditions("fish_shoal", start.0, SeaCondition::Rough, start.2),
        (Weather::Cloudy, SeaCondition::Calm, RiskLevel::Medium)
    );
    assert_eq!(event_conditions("hull_damage", start.0, start.1, start.2), start);
}

fn option(id: &str) -> ActionOption {
    ActionOption {
        id: s(id),
        name_key: format!("action.{id}"),
        risk: s("low"),
        resolver_id: format!("{id}_basic"),
    }
}

#[test]
fn scripted_decision_reason_uses_active_locale() {
    let catalog = zh_catalog();
    let actions = vec![option("collect_rain"), option("rest")];
    let id = pending_decision_id(4, "rain");
    let input = scripted_decision(&catalog, &id, &actions).expect("an action is offered");
    assert_eq!(input.decision_id, "tick-4-rain");
    assert_eq!(input.action_id, "collect_rain");
    assert_eq!(input.reason, "本地脚本选择第一个可用行动。");
    assert_eq!(input.risk_attitude.as_deref(), Some("scripted"));

    let mut slot = DecisionSlot::new();
    slot.open(id.clone(), actions, ());
    let (_, decision) = slot.submit(false, input).expect("scripted decision is accepted");
    assert_eq!(decision.choice, "collect_rain");
    assert!(!slot.is_open());

    assert_eq!(
        scripted_decision(&catalog, &id, &Vec::new()).unwrap_err(),
        "pending decision has no available actions"
    );
}

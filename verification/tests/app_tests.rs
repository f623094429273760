use std::path::Path;
use std::sync::mpsc;
use std::time::{Duration, Instant};
use waves::app::{
    absolute_socket_path, play_connection_hint, startup_result, wait_for_daemon_start,
    ConfigInspection, StartupStatus,
};

#[test]
fn play_connection_hint_uses_absolute_socket_path() {
    let socket = absolute_socket_path("data/waves.sock").expect("socket path should resolve");
    let hint = play_connection_hint(&socket);

    assert!(Path::new(&hint).is_absolute());
    assert!(hint.ends_with("data/waves.sock"));
}

#[test]
fn wait_for_daemon_start_returns_reported_error_without_timeout() {
    let (startup_tx, startup_rx) = mpsc::channel();
    startup_tx
        .send(Err("scenario load failed".to_string()))
        .expect("startup status should send");

    let started = Instant::now();
    let error = wait_for_daemon_start(&startup_rx, "/tmp/waves-test.sock", 10)
        .expect_err("startup error should be returned");

    assert!(started.elapsed() < Duration::from_secs(1));
    assert!(error.contains("scenario load failed"));
}

#[test]
fn wait_for_daemon_start_accepts_reported_success() {
    let (startup_tx, startup_rx) = mpsc::channel();
    startup_tx.send(Ok(())).expect("startup status should send");
    assert_eq!(wait_for_daemon_start(&startup_rx, "/tmp/waves-test.sock", 10), Ok(()));
}

#[test]
fn wait_for_daemon_start_reports_disconnected_daemon() {
    let (startup_tx, startup_rx) = mpsc::channel::<Result<(), String>>();
    drop(startup_tx);
    let error = wait_for_daemon_start(&startup_rx, "/tmp/w.sock", 10).expect_err("no report");
    assert_eq!(
        error,
        "daemon exited before reporting startup status (socket: /tmp/w.sock)"
    );
}

#[test]
fn startup_result_messages() {
    assert_eq!(startup_result(StartupStatus::Started, 10, "/s"), Ok(()));
    assert_eq!(
        startup_result(StartupStatus::Failed("boom".to_string()), 10, "/s"),
        Err("daemon failed to start: boom".to_string())
    );
    assert_eq!(
        startup_result(StartupStatus::TimedOut, 10, "/tmp/a.sock"),
        Err("daemon did not start within 10 seconds (socket: /tmp/a.sock)".to_string())
    );
}

fn sample_inspection() -> ConfigInspection {
    ConfigInspection {
        scenario_id: "sea_survival".to_string(),
        version: "0.1.0".to_string(),
        default_locale: "zh-CN".to_string(),
        config_hash: "5315bd56ec223102".to_string(),
        stats: 6,
        resources: 5,
        actions: 9,
        enabled_actions: 9,
        events: 8,
        panels: 8,
        prompts: 1,
        balance_keys: 66,
        locales: vec![("en-US".to_string(), 80), ("zh-CN".to_string(), 80)],
        registered_action_resolvers: 9,
        registered_event_resolvers: 8,
    }
}

#[test]
fn inspect_config_summarizes_loaded_tables() {
    let inspection = sample_inspection();
    let lines = inspection.lines();

    assert!(lines.iter().any(|line| line == "scenario: sea_survival"));
    assert!(lines.iter().any(|line| line == "version: 0.1.0"));
    assert!(lines.iter().any(|line| line.contains("actions=9")));
    assert!(lines.iter().any(|line| line.contains("enabled_actions=9")));
    assert!(lines.iter().any(|line| line.contains("locales: en-US=")));
}

#[test]
fn inspection_lines_match_documented_report() {
    let lines = sample_inspection().lines();
    assert_eq!(
        lines,
        vec![
            "scenario: sea_survival",
            "version: 0.1.0",
            "default_locale: zh-CN",
            "config_hash: 5315bd56ec223102",
            "tables: stats=6 resources=5 actions=9 enabled_actions=9 events=8 panels=8 prompts=1 balance_keys=66",
            "locales: en-US=80 zh-CN=80",
            "resolvers: actions=9 events=8",
        ]
    );
}

use waves::mcp::{
    compact_tool_output, initialize_result, parse_error_reply, recent_items, rpc_error, rpc_result,
    tool_error, tool_result, tools, tools_list_result, Json, McpMethod, INTERNAL_ERROR,
};

fn to_json(v: &serde_json::Value) -> Json {
    match v {
        serde_json::Value::Null => Json::Null,
        serde_json::Value::Bool(b) => Json::Bool(*b),
        serde_json::Value::Number(n) => Json::Number(n.to_string()),
        serde_json::Value::String(s) => Json::Str(s.clone()),
        serde_json::Value::Array(items) => Json::Array(items.iter().map(to_json).collect()),
        serde_json::Value::Object(map) => {
            Json::Object(map.iter().map(|(k, v)| (k.clone(), to_json(v))).collect())
        }
    }
}

fn parse(text: &str) -> Json {
    to_json(&serde_json::from_str::<serde_json::Value>(text).expect("test json should parse"))
}

fn number(j: &Json) -> f64 {
    match j {
        Json::Number(n) => n.parse().expect("number text"),
        other => panic!("not a number: {other:?}"),
    }
}

fn text_of(j: &Json) -> String {
    match j {
        Json::Str(s) => s.clone(),
        other => panic!("not a string: {other:?}"),
    }
}

#[test]
fn compact_state_omits_full_history_but_keeps_recent_context() {
    let snapshot = parse(
        r#"{
            "run_id": "run-1",
            "scenario_id": "sea_survival",
            "scenario_version": "0.1.0",
            "config_hash": "hash",
            "active_locale": "zh-CN",
            "tick": 12,
            "day": 1,
            "paused": false,
            "outcome": null,
            "state": {
                "tick": 12,
                "alive": true,
                "outcome": null,
                "stats": { "hunger": 50.0 },
                "resources": { "food": 1.0 },
                "environment": { "risk": "Low" },
                "memory": { "recent": [] },
                "personality": { "risk_bias": 0.0 }
            },
            "pending_decision": {
                "id": "tick-12-rain",
                "tick": 12,
                "scenario_id": "sea_survival",
                "event": { "id": "rain" },
                "actions": [{ "id": "collect_rain" }],
                "state": {
                    "tick": 12,
                    "alive": true,
                    "outcome": null,
                    "stats": { "thirst": 70.0 },
                    "resources": { "water": 1.0 },
                    "environment": { "risk": "Medium" },
                    "memory": { "recent": [] },
                    "personality": { "risk_bias": 0.0 }
                }
            },
            "logs": [1, 2, 3, 4, 5, 6],
            "decisions": [1, 2, 3, 4, 5, 6],
            "ui_events": [1, 2, 3],
            "counts": { "ui_events": 3 }
        }"#,
    );

    let compact = compact_tool_output("waves_get_state", snapshot);

    assert_eq!(compact.get("ui_events"), Json::Null);
    assert_eq!(compact.get("recent_logs"), parse("[2, 3, 4, 5, 6]"));
    assert_eq!(compact.get("recent_decisions"), parse("[2, 3, 4, 5, 6]"));
    assert_eq!(
        number(&compact.get("pending_decision").get("state").get("stats").get("thirst")),
        70.0
    );
    assert_eq!(
        compact.get("pending_decision").get("state").get("ui_events"),
        Json::Null
    );
}

#[test]
fn compact_submit_response_keeps_resolution_summary() {
    let submit = parse(
        r#"{
            "report": {
                "decisions": [{ "action_id": "eat_food" }],
                "events": [{
                    "tick": 4,
                    "payload": {
                        "event": { "id": "heat" },
                        "decision": { "choice": "eat_food" },
                        "resolution": {
                            "success": true,
                            "summary": "饥饿 -16",
                            "changes": [{ "target": "hunger", "delta": -16.0 }]
                        }
                    }
                }],
                "logs": [1, 2, 3, 4, 5, 6],
                "snapshot_saved": false,
                "ui_events": [1, 2, 3, 4]
            },
            "state": {
                "run_id": "run-1",
                "scenario_id": "sea_survival",
                "scenario_version": "0.1.0",
                "config_hash": "hash",
                "active_locale": "zh-CN",
                "tick": 4,
                "day": 1,
                "paused": false,
                "outcome": null,
                "state": {
                    "tick": 4,
                    "alive": true,
                    "outcome": null,
                    "stats": { "hunger": 30.0 },
                    "resources": { "food": 1.0 },
                    "environment": { "risk": "Low" },
                    "memory": { "recent": [] },
                    "personality": { "risk_bias": 0.0 }
                },
                "pending_decision": null,
                "logs": [],
                "decisions": [],
                "counts": {}
            }
        }"#,
    );

    let compact = compact_tool_output("waves_submit_decision", submit);

    assert_eq!(compact.get("report").get("recent_logs"), parse("[2, 3, 4, 5, 6]"));
    assert_eq!(number(&compact.get("report").get("ui_event_count")), 4.0);
    let resolutions = compact.get("report").get("resolutions");
    match &resolutions {
        Json::Array(items) => {
            assert_eq!(items.len(), 1);
            assert_eq!(text_of(&items[0].get("summary")), "饥饿 -16");
            assert_eq!(number(&items[0].get("tick")), 4.0);
        }
        other => panic!("resolutions should be an array: {other:?}"),
    }
    assert_eq!(compact.get("state").get("ui_events"), Json::Null);
}

#[test]
fn compact_report_skips_events_without_resolution() {
    let report = parse(
        r#"{ "report": { "events": [
            { "tick": 1, "payload": { "event": { "id": "a" } } },
            { "tick": 2, "payload": { "resolution": { "success": false, "summary": "s" } } },
            "not an event"
        ] }, "state": null }"#,
    );
    let compact = compact_tool_output("waves_submit_decision", report);
    match compact.get("report").get("resolutions") {
        Json::Array(items) => {
            assert_eq!(items.len(), 1);
            assert_eq!(number(&items[0].get("tick")), 2.0);
            assert_eq!(items[0].get("success"), Json::Bool(false));
            assert_eq!(items[0].get("changes"), Json::Null);
        }
        other => panic!("resolutions should be an array: {other:?}"),
    }
    assert_eq!(number(&compact.get("report").get("ui_event_count")), 0.0);
}

#[test]
fn compact_pending_keeps_null_and_unknown_tool_keeps_output() {
    let value = parse(r#"{ "pending_decision": null, "state": {} }"#);
    let compact = compact_tool_output("waves_get_pending_decision", value);
    assert_eq!(compact.get("pending_decision"), Json::Null);
    let raw = parse(r#"{ "x": [1, 2, 3] }"#);
    assert_eq!(compact_tool_output("other_tool", parse(r#"{ "x": [1, 2, 3] }"#)), raw);
}

#[test]
fn recent_items_keeps_the_tail_or_gives_empty_array() {
    assert_eq!(recent_items(&parse("[1, 2, 3]"), 5), parse("[1, 2, 3]"));
    assert_eq!(recent_items(&parse("[1, 2, 3, 4]"), 2), parse("[3, 4]"));
    assert_eq!(recent_items(&parse("[1, 2]"), 0), parse("[]"));
    assert_eq!(recent_items(&parse(r#"{"a": 1}"#), 3), parse("[]"));
    assert_eq!(recent_items(&Json::Null, 3), parse("[]"));
}

#[test]
fn get_reads_fields_and_gives_null_otherwise() {
    let v = parse(r#"{ "a": 1, "b": "x" }"#);
    assert_eq!(text_of(&v.get("b")), "x");
    assert_eq!(v.get("c"), Json::Null);
    assert_eq!(parse("[1]").get("a"), Json::Null);
    assert_eq!(v.duplicate(), v);
}

#[test]
fn tools_list_names_every_tool_with_a_schema() {
    let list = tools();
    let names: Vec<String> = list.iter().map(|t| text_of(&t.get("name"))).collect();
    assert_eq!(
        names,
        vec![
            "waves_start_run",
            "waves_get_state",
            "waves_step",
            "waves_get_pending_decision",
            "waves_submit_decision",
            "waves_pause",
            "waves_resume",
        ]
    );
    assert_eq!(
        list[4].get("inputSchema").get("required"),
        parse(r#"["decision_id", "action_id", "reason"]"#)
    );
    assert_eq!(
        number(&list[0].get("inputSchema").get("properties").get("seed").get("default")),
        42.0
    );
    assert_eq!(
        number(&list[2].get("inputSchema").get("properties").get("ticks").get("minimum")),
        1.0
    );
    let submit = list[4].get("inputSchema").get("properties");
    assert_eq!(submit.get("risk_attitude").get("type"), parse(r#""string""#));
    assert_eq!(
        text_of(&submit.get("reason").get("description")),
        "Use the current run's active_locale language when possible."
    );
    assert_eq!(
        list[0].get("inputSchema").get("properties").get("scenario").get("default"),
        parse(r#""sea_survival""#)
    );
    match tools_list_result().get("tools") {
        Json::Array(items) => assert_eq!(items.len(), 7),
        other => panic!("tools should be an array: {other:?}"),
    }
}

#[test]
fn protocol_replies_have_their_envelopes() {
    let init = initialize_result("0.1.0");
    assert_eq!(text_of(&init.get("protocolVersion")), "2024-11-05");
    assert_eq!(text_of(&init.get("serverInfo").get("name")), "waves");
    assert_eq!(text_of(&init.get("serverInfo").get("version")), "0.1.0");
    assert_eq!(init.get("capabilities").get("tools"), parse("{}"));

    let ok = rpc_result(Json::Number("7".to_string()), Json::Bool(true));
    assert_eq!(text_of(&ok.get("jsonrpc")), "2.0");
    assert_eq!(number(&ok.get("id")), 7.0);
    assert_eq!(ok.get("result"), Json::Bool(true));

    let failed = rpc_error(Json::Str("a".to_string()), INTERNAL_ERROR, "boom");
    assert_eq!(failed.get("error").get("code"), Json::Number("-32603".to_string()));
    assert_eq!(text_of(&failed.get("error").get("message")), "boom");

    let parse_failed = parse_error_reply("eof");
    assert_eq!(parse_failed.get("id"), Json::Null);
    assert_eq!(parse_failed.get("error").get("code"), Json::Number("-32700".to_string()));
    assert_eq!(text_of(&parse_failed.get("error").get("message")), "parse error: eof");

    let reply = tool_result("{}", true);
    assert_eq!(reply.get("isError"), Json::Bool(true));
    match reply.get("content") {
        Json::Array(parts) => {
            assert_eq!(text_of(&parts[0].get("type")), "text");
            assert_eq!(text_of(&parts[0].get("text")), "{}");
        }
        other => panic!("content should be an array: {other:?}"),
    }
    assert_eq!(text_of(&tool_error("bad").get("error")), "bad");
}

#[test]
fn protocol_methods_parse_by_name() {
    assert_eq!(McpMethod::parse("initialize"), Ok(McpMethod::Initialize));
    assert_eq!(McpMethod::parse("tools/list"), Ok(McpMethod::ToolsList));
    assert_eq!(McpMethod::parse("tools/call"), Ok(McpMethod::ToolsCall));
    assert_eq!(McpMethod::parse("ping"), Err("unknown method ping".to_string()));
}

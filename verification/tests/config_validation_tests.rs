use waves::app::{inspect_config_facts, locale_sizes};
use waves::config::{
    csv_header,
    locales_by_name, normalize_locale_key, read_locale_csv_text, registered_action_resolvers,
    registered_event_resolvers, stable_config_hash_from_texts, validate_config, ActionFacts,
    ConfigFacts, EventFacts, LocaleTable, Manifest, PanelRow, PromptRow, ResourceFacts, StatFacts,
    TableHeaders, TablePaths, declared_names_of, placeholder_names_of,
};
use waves::i18n::Catalog;

fn s(x: &str) -> String {
    x.to_string()
}

fn manifest() -> Manifest {
    Manifest {
        id: s("sea_survival"),
        version: s("0.1.0"),
        default_locale: s("zh-CN"),
        entry: s("sea_survival"),
        tables: TablePaths {
            stats: s("tables/stats.csv"),
            resources: s("tables/resources.csv"),
            actions: s("tables/actions.csv"),
            events: s("tables/events.csv"),
            event_weights: None,
            balance: s("tables/balance.csv"),
            panels: s("tables/panels.csv"),
            prompts: None,
        },
        locales: vec![(s("zh_CN"), s("locales/zh-CN.csv"))],
    }
}

fn zh_table() -> LocaleTable {
    LocaleTable::from_entries(
        s("zh-CN"),
        vec![
            (s("action.fish"), s("捕鱼")),
            (s("action.rest"), s("休息")),
            (s("action.eat_food"), s("进食")),
            (s("stat.hp"), s("生命")),
            (s("resource.food"), s("食物")),
            (s("event.rain.title"), s("下雨")),
            (s("panel.status"), s("状态")),
            (s("prompt.decision"), s("根据 {state} 决策")),
        ],
    )
}

fn en_table() -> LocaleTable {
    LocaleTable::from_entries(s("en-US"), vec![(s("action.fish"), s("Fish"))])
}

fn action(id: &str, key: &str, resolver: &str) -> ActionFacts {
    ActionFacts {
        id: s(id),
        name_key: s(key),
        resolver_id: s(resolver),
        enabled: true,
        negative_cost: false,
    }
}

fn valid_config() -> ConfigFacts {
    ConfigFacts {
        manifest: manifest(),
        stats: vec![StatFacts {
            id: s("hp"),
            label_key: s("stat.hp"),
            min_above_max: false,
            default_outside_bounds: false,
        }],
        resources: vec![ResourceFacts {
            id: s("food"),
            label_key: s("resource.food"),
            default_negative: false,
        }],
        actions: vec![
            action("fish", "action.fish", "fish_basic"),
            action("eat_food", "action.eat_food", "eat_food_basic"),
            action("rest", "action.rest", "rest_basic"),
        ],
        events: vec![EventFacts {
            id: s("rain"),
            title_key: s("event.rain.title"),
            resolver_id: s("rain_basic"),
            negative_weight: false,
        }],
        panels: vec![PanelRow {
            id: s("status"),
            title_key: s("panel.status"),
            level: 1,
            sort: 1,
            visible: true,
        }],
        prompts: vec![PromptRow {
            id: s("decision"),
            template_key: s("prompt.decision"),
            variables: s("state"),
        }],
        locales: locales_by_name(vec![zh_table(), en_table()]),
        headers: headers(),
    }
}

fn cols(names: &[&str]) -> Vec<String> {
    names.iter().map(|n| n.to_string()).collect()
}

fn headers() -> TableHeaders {
    TableHeaders {
        stats: cols(&["id", "label_key", "min", "max", "default", "display_format", "sort"]),
        resources: cols(&["id", "label_key", "default", "unit", "display_format", "sort"]),
        actions: cols(&[
            "id",
            "name_key",
            "risk",
            "cost_energy",
            "cost_wood",
            "cost_fiber",
            "reward_type",
            "resolver_id",
            "enabled",
        ]),
        events: cols(&["id", "title_key", "severity", "base_weight", "cooldown_ticks", "resolver_id"]),
        balance: cols(&["key", "value", "notes"]),
        panels: cols(&["id", "title_key", "level", "sort", "visible"]),
        prompts: Some(cols(&["id", "template_key", "variables"])),
    }
}

#[test]
fn catalog_falls_back_to_default_locale_then_key() {
    let catalog = Catalog::new(
        s("missing-locale"),
        s("zh-CN"),
        locales_by_name(vec![zh_table(), en_table()]),
    );

    assert_eq!(catalog.text("action.fish"), "捕鱼");
    assert_eq!(catalog.text("missing.key"), "missing.key");
}

#[test]
fn catalog_prefers_active_locale() {
    let catalog = Catalog::new(s("en-US"), s("zh-CN"), locales_by_name(vec![zh_table(), en_table()]));
    assert_eq!(catalog.active_locale(), "en-US");
    assert_eq!(catalog.text("action.fish"), "Fish");
    assert_eq!(catalog.text("action.rest"), "休息");
}

#[test]
fn catalog_format_fills_each_placeholder() {
    let table = LocaleTable::from_entries(
        s("zh-CN"),
        vec![(s("log.result"), s("{action}：{summary}（{action}）"))],
    );
    let catalog = Catalog::new(s("zh-CN"), s("zh-CN"), locales_by_name(vec![table]));
    let text = catalog.format(
        "log.result",
        &[("action", s("捕鱼")), ("summary", s("食物 +0.75"))],
    );
    assert_eq!(text, "捕鱼：食物 +0.75（捕鱼）");
    assert_eq!(catalog.format("missing", &[("x", s("y"))]), "missing");
}

#[test]
fn valid_config_has_no_errors() {
    let config = valid_config();
    assert!(validate_config(&config).is_empty());
}

#[test]
fn validation_errors_include_table_row_and_column() {
    let mut config = valid_config();
    config.actions[0].name_key = "missing.action.name".to_string();
    config.actions[1].id = config.actions[0].id.clone();

    let errors = validate_config(&config);
    let rendered = errors.iter().map(|e| e.render()).collect::<Vec<_>>();

    assert!(
        rendered
            .iter()
            .any(|error| error.contains("actions.csv:2:name_key missing locale key"))
    );
    assert!(
        rendered
            .iter()
            .any(|error| error.contains("actions.csv:3:id duplicate id"))
    );
}

#[test]
fn validation_reports_each_kind_of_problem_in_order() {
    let mut config = valid_config();
    config.manifest.id = s("  ");
    config.manifest.default_locale = s("fr-FR");
    config.stats[0].min_above_max = true;
    config.resources[0].id = s("");
    config.events[0].resolver_id = s("storm_v3");
    let rendered = validate_config(&config)
        .iter()
        .map(|e| e.render())
        .collect::<Vec<_>>();
    assert_eq!(
        rendered,
        vec![
            "scenario.toml id is required".to_string(),
            "scenario.toml default_locale fr-FR has no locale table".to_string(),
            "resources.csv:2:id id is required".to_string(),
            "stats.csv:2:min hp min must be <= max".to_string(),
            "events.csv:2:resolver_id resolver_id \"storm_v3\" is not registered".to_string(),
        ]
    );
}

#[test]
fn validation_requires_locale_keys() {
    let mut config = valid_config();
    config.panels[0].title_key = s(" ");
    let errors = validate_config(&config);
    assert_eq!(errors.len(), 1);
    assert_eq!(errors[0].render(), "panels.csv:2:title_key locale key is required");
    assert_eq!(errors[0].row, Some(2));
    assert_eq!(errors[0].column.as_deref(), Some("title_key"));
}

#[test]
fn registered_resolvers_are_listed() {
    assert_eq!(registered_action_resolvers().len(), 9);
    assert_eq!(registered_event_resolvers().len(), 8);
    assert!(registered_action_resolvers().contains(&"repair_basic"));
    assert!(registered_event_resolvers().contains(&"abandoned_ship_basic"));
}

fn texts() -> Vec<(String, String)> {
    vec![
        (s("tables/stats.csv"), s("id\nhp\n")),
        (s("tables/resources.csv"), s("r")),
        (s("tables/actions.csv"), s("a")),
        (s("tables/events.csv"), s("e")),
        (s("tables/balance.csv"), s("b")),
        (s("tables/panels.csv"), s("p")),
        (s("locales/zh-CN.csv"), s("key,text\n")),
    ]
}

#[test]
fn config_hash_is_fnv_over_sorted_files() {
    let hash = stable_config_hash_from_texts(&manifest(), "id = \"t\"\n", &texts())
        .expect("all files present");
    assert_eq!(hash, "0f87ae86602837a1");
    assert_eq!(hash.len(), 16);
}

#[test]
fn config_hash_reports_missing_file() {
    let mut files = texts();
    files.remove(2);
    let error = stable_config_hash_from_texts(&manifest(), "x", &files).expect_err("missing");
    assert_eq!(error, "reading tables/actions.csv for config hash");
}

#[test]
fn locale_csv_reads_trimmed_keys_and_later_rows_win() {
    let table = read_locale_csv_text(
        "zh-CN.csv",
        "zh-CN",
        "key,text,notes\n action.fish , 捕鱼 ,行动名\n,empty,\naction.fish,钓鱼,\n",
    )
    .expect("table should parse");
    assert_eq!(table.locale, "zh-CN");
    let catalog = Catalog::new(s("zh-CN"), s("zh-CN"), locales_by_name(vec![table]));
    assert_eq!(catalog.text("action.fish"), "钓鱼");
    assert_eq!(catalog.text(""), "");
}

#[test]
fn locale_csv_requires_key_and_text_columns() {
    match read_locale_csv_text("en-US.csv", "en-US", "id,value\na,b\n") {
        Ok(_) => panic!("columns should be required"),
        Err(error) => assert_eq!(error, "en-US.csv must contain key,text columns"),
    }
}

#[test]
fn locale_keys_use_hyphens() {
    assert_eq!(normalize_locale_key("zh_CN"), "zh-CN");
    assert_eq!(normalize_locale_key("en-US"), "en-US");
}

#[test]
fn inspection_counts_tables_and_sorts_locales() {
    let mut config = valid_config();
    config.actions[2].enabled = false;
    config.manifest.locales = vec![
        (s("zh_CN"), s("locales/zh-CN.csv")),
        (s("en_US"), s("locales/en-US.csv")),
        (s("zh_CN"), s("locales/zh-CN.csv")),
        (s("fr_FR"), s("locales/fr-FR.csv")),
    ];
    let inspection = inspect_config_facts(&config, s("abc"), 66);
    assert_eq!(inspection.actions, 3);
    assert_eq!(inspection.enabled_actions, 2);
    assert_eq!(inspection.locales, vec![(s("en-US"), 1), (s("zh-CN"), 8)]);
    assert_eq!(inspection.registered_action_resolvers, 9);
    assert_eq!(inspection.registered_event_resolvers, 8);
}

#[test]
fn misspelled_and_missing_headers_are_reported() {
    let mut config = valid_config();
    config.headers.actions = cols(&[
        "id",
        "name_key",
        "risk",
        "cost_enrgy",
        "cost_wood",
        "cost_fiber",
        "reward_type",
        "resolver_id",
        "enabled",
        "notes",
    ]);
    config.headers.prompts = Some(cols(&["id", "template_key"]));
    let errors: Vec<String> = validate_config(&config).iter().map(|e| e.render()).collect();
    assert_eq!(
        errors,
        vec![
            "actions.csv:1:cost_enrgy unknown column",
            "actions.csv:1:cost_energy missing column",
            "prompts.csv:1:variables missing column",
        ]
    );
}

#[test]
fn csv_header_reads_trimmed_columns() {
    assert_eq!(csv_header("t.csv", "id, name_key ,x\n1,2,3\n").unwrap(), cols(&["id", "name_key", "x"]));
}

#[test]
fn prompt_placeholders_must_match_declared_variables() {
    let mut config = valid_config();
    config.prompts[0].variables = s("state, weather");
    config.locales = locales_by_name(vec![
        LocaleTable::from_entries(
            s("zh-CN"),
            vec![
                (s("action.fish"), s("捕鱼")),
                (s("action.rest"), s("休息")),
                (s("action.eat_food"), s("进食")),
                (s("stat.hp"), s("生命")),
                (s("resource.food"), s("食物")),
                (s("event.rain.title"), s("下雨")),
                (s("panel.status"), s("状态")),
                (s("prompt.decision"), s("{state} 与 {raft}")),
            ],
        ),
        en_table(),
    ]);
    let errors: Vec<String> = validate_config(&config).iter().map(|e| e.render()).collect();
    assert_eq!(
        errors,
        vec![
            "prompts.csv:2:variables placeholder {weather} missing from template",
            "prompts.csv:2:template_key undeclared placeholder {raft}",
        ]
    );
}

#[test]
fn prompt_without_template_text_gets_no_placeholder_check() {
    let mut config = valid_config();
    config.prompts[0].template_key = s("prompt.missing");
    let errors: Vec<String> = validate_config(&config).iter().map(|e| e.render()).collect();
    assert_eq!(errors, vec!["prompts.csv:2:template_key missing locale key \"prompt.missing\""]);
}

#[test]
fn declared_names_are_runs_of_name_characters() {
    assert_eq!(declared_names_of(" state, weather_2;day "), vec![s("state"), s("weather_2"), s("day")]);
    assert!(declared_names_of(" , ").is_empty());
}

#[test]
fn placeholder_names_need_braces_around_a_name() {
    assert_eq!(
        placeholder_names_of("{actor} 打捞 {} {raft_delta}{x-y} {z"),
        vec![s("actor"), s("raft_delta")]
    );
}

#[test]
fn catalog_reports_a_warning_for_a_key_no_table_has() {
    let catalog = Catalog::new(s("en-US"), s("zh-CN"), locales_by_name(vec![zh_table(), en_table()]));
    assert_eq!(catalog.text_with_warning("action.rest"), (s("休息"), None));
    assert_eq!(
        catalog.text_with_warning("missing.key"),
        (s("missing.key"), Some(s("missing locale key missing.key")))
    );
}

#[test]
fn locale_sizes_follow_the_manifest_locales_by_name() {
    let mut config = valid_config();
    config.manifest.locales = vec![
        (s("zh_CN"), s("locales/zh-CN.csv")),
        (s("en_US"), s("locales/en-US.csv")),
    ];
    assert_eq!(locale_sizes(&config), vec![(s("en-US"), 1), (s("zh-CN"), 8)]);
}

#[test]
fn catalog_records_each_missing_key_warning_once() {
    let catalog = Catalog::new(s("en-US"), s("zh-CN"), locales_by_name(vec![zh_table(), en_table()]));
    let mut warnings = Vec::new();
    assert_eq!(catalog.text_recording("action.fish", &mut warnings), "Fish");
    assert!(warnings.is_empty());
    assert_eq!(catalog.text_recording("missing.key", &mut warnings), "missing.key");
    assert_eq!(catalog.text_recording("missing.key", &mut warnings), "missing.key");
    assert_eq!(catalog.text_recording("other.key", &mut warnings), "other.key");
    assert_eq!(warnings, vec![s("missing locale key missing.key"), s("missing locale key other.key")]);
}

use nori::commands::config_utils::{compute_values, config_types, configs, create_config_response, ConfigEmoji, OFF_EMOJI, ON_EMOJI};
use nori::commands::configs::{current_choice, parse_button_id, selector_scope};
use nori::utils::config_data::{
    get_category_defaults, get_config_data, get_value, get_value_from_all, get_value_sub,
    ConfigData, ConfigDoc, ConfigValue, Setting,
};
use nori::utils::database_handler::{config_collection, set_config_data, ConfigWrite};

fn doc(entries: Vec<(&str, ConfigValue)>) -> ConfigDoc {
    ConfigDoc { entries: entries.into_iter().map(|(k, v)| (k.to_string(), v)).collect() }
}

fn stored(w: Option<ConfigWrite>) -> Option<Option<String>> {
    w.map(|w| match w {
        ConfigWrite::Store(s) => Some(s),
        ConfigWrite::Clear => None,
    })
}

#[test]
fn category_defaults() {
    assert_eq!(get_category_defaults("analysis").unwrap().entries.len(), 6);
    assert_eq!(get_category_defaults("reminders").unwrap().entries.len(), 3);
    assert_eq!(get_category_defaults("utils").unwrap().entries.len(), 1);
    assert!(get_category_defaults("nothing").is_none());
}

#[test]
fn single_setting_falls_back() {
    let d = get_config_data("reminders", false, None, None, "drop").unwrap();
    assert_eq!(get_value(&d, "value"), Some("true".to_string()));
    assert_eq!(get_value(&d, "server_default"), Some("true".to_string()));
    let guild = doc(vec![("drop", ConfigValue::Str("dm".to_string()))]);
    let d = get_config_data("reminders", false, None, Some(&guild), "drop").unwrap();
    assert_eq!(get_value(&d, "value"), Some("dm".to_string()));
    let user = doc(vec![("drop", ConfigValue::Bool(false))]);
    let d = get_config_data("reminders", true, Some(&user), Some(&guild), "drop").unwrap();
    assert_eq!(get_value(&d, "value"), Some("false".to_string()));
    assert_eq!(get_value(&d, "server_default"), Some("false".to_string()));
}

#[test]
fn all_settings_merge_user_and_server() {
    let user = doc(vec![("grab", ConfigValue::Str("dm".to_string()))]);
    let d = get_config_data("reminders", true, Some(&user), None, "_all").unwrap();
    assert_eq!(get_value_from_all(&d, "grab", "value"), Some("dm".to_string()));
    assert_eq!(get_value_from_all(&d, "grab", "server_default"), Some("false".to_string()));
    assert_eq!(get_value_from_all(&d, "drop", "value"), Some("true".to_string()));
    assert_eq!(get_value_from_all(&d, "drop", "server_default"), Some("true".to_string()));
    assert_eq!(get_value_from_all(&d, "nope", "value"), None);
    assert_eq!(get_value_from_all(&d, "drop", "other"), None);
    assert_eq!(get_value(&d, "drop"), Some(String::new()));
    assert_eq!(get_value(&d, "nope"), None);
    assert!(get_config_data("unknown", false, None, None, "_all").is_none());
}

#[test]
fn values_as_text() {
    assert_eq!(get_value_sub(&ConfigValue::Int32(-5)), "-5");
    assert_eq!(get_value_sub(&ConfigValue::Int64(1234567890123)), "1234567890123");
    assert_eq!(get_value_sub(&ConfigValue::Int64(i64::MIN)), "-9223372036854775808");
    assert_eq!(get_value_sub(&ConfigValue::Bool(false)), "false");
    assert_eq!(get_value_sub(&ConfigValue::Null), "");
    assert_eq!(get_value_sub(&ConfigValue::Other), "");
}

#[test]
fn grid_sizes() {
    assert_eq!(compute_values(0), (1, 2));
    assert_eq!(compute_values(2), (1, 2));
    assert_eq!(compute_values(3), (1, 3));
    assert_eq!(compute_values(5), (1, 5));
    assert_eq!(compute_values(6), (2, 3));
    assert_eq!(compute_values(7), (2, 4));
    assert_eq!(compute_values(10), (2, 5));
    assert_eq!(compute_values(11), (3, 4));
}

#[test]
fn config_table() {
    let c = configs();
    assert_eq!(c.reminders.name, "reminders");
    assert_eq!(c.analysis.options.len(), 5);
    assert_eq!(c.analysis.emoji, ConfigEmoji::Unicode('🔍'));
    assert_eq!(c.index("analysis").name, "analysis");
    assert_eq!(c.index("whatever").name, "reminders");
    assert_eq!(config_types(), vec!["reminders", "analysis"]);
}

#[test]
fn config_screen_for_user() {
    let c = configs();
    let data = get_config_data("analysis", true, None, None, "_all").unwrap();
    let sc = create_config_response(&c, &c.analysis, false, &data, 100).unwrap();
    assert_eq!(sc.title, "User Analysis Config");
    assert_eq!(sc.footer, "Use the Buttons below to toggle the attached option to it.");
    assert_eq!(sc.color, 15641224);
    assert_eq!(sc.selector_id, "configTypeSelector_user_100");
    let lines: Vec<&str> = sc.description.split('\n').collect();
    assert_eq!(lines.len(), 5);
    assert_eq!(lines[0], format!("`1]` {ON_EMOJI} • `Analysis` • **Enabled** <Server Default>"));
    assert_eq!(
        lines[1],
        format!("`2]` {OFF_EMOJI} • `Delete analysis after drop expires` • **Disabled** <Server Default>")
    );
    assert_eq!(sc.menu.len(), 2);
    assert_eq!(sc.menu[0].label, "Reminders");
    assert_eq!(sc.menu[0].description, "Config of Reminders.");
    assert!(!sc.menu[0].default_selection);
    assert!(sc.menu[1].default_selection);
    assert_eq!(sc.rows.len(), 1);
    assert_eq!(sc.rows[0].len(), 5);
    assert_eq!(sc.rows[0][0].label, 1);
    assert_eq!(sc.rows[0][0].custom_id, "config_analysis_user_enabled_100");
    assert_eq!(sc.rows[0][4].custom_id, "config_analysis_user_show-time_100");
}

#[test]
fn config_screen_for_server() {
    let c = configs();
    let guild = doc(vec![("drop", ConfigValue::Str("dm".to_string()))]);
    let data = get_config_data("reminders", false, None, Some(&guild), "_all").unwrap();
    let sc = create_config_response(&c, &c.reminders, true, &data, 7).unwrap();
    assert_eq!(sc.title, "Server Reminders Config");
    assert_eq!(
        sc.description,
        format!("`1]` {ON_EMOJI} • `Drop` • **Enabled DM**\n`2]` {OFF_EMOJI} • `Grab` • **Disabled**")
    );
    assert_eq!(sc.rows.len(), 1);
    assert_eq!(sc.rows[0].len(), 2);
    assert_eq!(sc.rows[0][1].custom_id, "config_reminders_server_grab_7");
}

#[test]
fn config_screen_unknown_choice() {
    let c = configs();
    let user = doc(vec![("drop", ConfigValue::Str("weird".to_string()))]);
    let data = get_config_data("reminders", true, Some(&user), None, "_all").unwrap();
    assert!(create_config_response(&c, &c.reminders, false, &data, 7).is_none());
}

#[test]
fn toggle_cycles() {
    let c = configs();
    assert_eq!(stored(set_config_data(&c, "reminders", "user", "drop", None)), Some(Some("true".to_string())));
    assert_eq!(stored(set_config_data(&c, "reminders", "user", "drop", Some("true"))), Some(Some("dm".to_string())));
    assert_eq!(stored(set_config_data(&c, "reminders", "user", "drop", Some("dm"))), Some(Some("false".to_string())));
    assert_eq!(stored(set_config_data(&c, "reminders", "user", "drop", Some("false"))), Some(None));
    assert_eq!(stored(set_config_data(&c, "reminders", "server", "drop", Some("false"))), Some(Some("true".to_string())));
    assert_eq!(stored(set_config_data(&c, "analysis", "server", "ping", Some("false"))), Some(Some("true".to_string())));
    assert_eq!(stored(set_config_data(&c, "reminders", "user", "nothing", None)), None);
    assert_eq!(stored(set_config_data(&c, "reminders", "user", "drop", Some("bogus"))), None);
    assert_eq!(config_collection("user", "analysis"), "user_config_analysis");
}

#[test]
fn component_ids() {
    assert_eq!(selector_scope("configTypeSelector_user_100"), Some(true));
    assert_eq!(selector_scope("configTypeSelector_server_100"), Some(false));
    assert_eq!(selector_scope("nounderscore"), None);
    let t = parse_button_id("config_analysis_user_enabled_100").unwrap();
    assert_eq!((t.category.as_str(), t.scope.as_str(), t.option.as_str()), ("analysis", "user", "enabled"));
    assert!(parse_button_id("config_x").is_none());
}

#[test]
fn toggle_start_choice() {
    let from_server = ConfigData::Single(Setting { server_default: true, value: ConfigValue::Bool(true) });
    assert_eq!(current_choice(&from_server, true), Some(None));
    assert_eq!(current_choice(&from_server, false), Some(Some("true".to_string())));
    let own = ConfigData::Single(Setting { server_default: false, value: ConfigValue::Str("dm".to_string()) });
    assert_eq!(current_choice(&own, true), Some(Some("dm".to_string())));
}

#[test]
fn grid_for_many_options() {
    assert_eq!(compute_values(1000), (200, 5));
}

use nori::utils::config_data::{ConfigData, ConfigValue, Setting};
use nori::utils::handler::{set_reminder, ReminderDecision};
use nori::utils::reminders::{
    current_time, get_name, reminder_delay, reminder_message, restore_reminders,
    serialize_reminders, sleep_message, wake_message, ReminderAction, ReminderData,
    ReminderTable, ReminderTime, ReminderType, SavedReminder, REMINDER_EMOJI,
};

fn saved(user: u64, time: u32, start: u64, channel: u64, dm: bool) -> SavedReminder {
    SavedReminder { kind: ReminderType(user, ReminderTime(time)), start, data: ReminderData(channel, dm) }
}

#[test]
fn reminder_times_and_names() {
    assert_eq!(ReminderTime::drop(), ReminderTime(480));
    assert_eq!(ReminderTime::grab(), ReminderTime(240));
    assert_eq!(ReminderTime::raid(), ReminderTime(43200));
    assert_eq!(ReminderTime::dev(), ReminderTime(10));
    assert_eq!(get_name(ReminderTime::drop()), "drop");
    assert_eq!(get_name(ReminderTime::grab()), "grab");
    assert_eq!(get_name(ReminderTime::raid()), "raid");
    assert_eq!(get_name(ReminderTime::dev()), "drop");
}

#[test]
fn reminder_delays() {
    assert_eq!(reminder_delay(ReminderTime::drop(), 100, 150), Some(430));
    assert_eq!(reminder_delay(ReminderTime::drop(), 0, 480), Some(0));
    assert_eq!(reminder_delay(ReminderTime::drop(), 0, 481), None);
}

#[test]
fn serialize_format() {
    let rs = vec![saved(42, 480, 1000, 7, true), saved(1, 240, 5, 2, false)];
    assert_eq!(serialize_reminders(&rs), "42,480,1000,7,true&1,240,5,2,false&");
    assert_eq!(serialize_reminders(&Vec::new()), "");
}

#[test]
fn restore_after_save_keeps_pending() {
    let rs = vec![saved(42, 480, 1000, 7, true), saved(1, 240, 900, 2, false)];
    let text = serialize_reminders(&rs);
    assert_eq!(restore_reminders(&text, 1100), Some(rs.clone()));
    assert_eq!(restore_reminders(&text, 1200), Some(vec![saved(42, 480, 1000, 7, true)]));
    assert_eq!(restore_reminders(&text, 5000), Some(Vec::new()));
}

#[test]
fn restore_edge_cases() {
    assert_eq!(restore_reminders("", 5), Some(Vec::new()));
    assert_eq!(restore_reminders("x,1,2&", 5), Some(Vec::new()));
    assert_eq!(restore_reminders("x,100,2&", 5), None);
    assert_eq!(restore_reminders("1,100,9,3,true&", 5), None);
    assert_eq!(restore_reminders("1,100,2,3,maybe&", 5), None);
}

#[test]
fn table_request_replaces_running_reminder() {
    let mut t = ReminderTable::new();
    let kind = ReminderType(42, ReminderTime::drop());
    match t.on_request(kind, ReminderData(7, false), 100) {
        ReminderAction::Start { replaced, start } => {
            assert_eq!(replaced, None);
            assert_eq!(start, saved(42, 480, 100, 7, false));
        }
        ReminderAction::Save { .. } => panic!("a drop reminder starts"),
    }
    match t.on_request(kind, ReminderData(8, true), 200) {
        ReminderAction::Start { replaced, start } => {
            assert_eq!(replaced, Some(saved(42, 480, 100, 7, false)));
            assert_eq!(start, saved(42, 480, 200, 8, true));
        }
        ReminderAction::Save { .. } => panic!("a drop reminder starts"),
    }
    assert_eq!(t.len(), 1);
    t.on_request(ReminderType(42, ReminderTime::grab()), ReminderData(8, false), 250);
    assert_eq!(t.len(), 2);
}

#[test]
fn table_stop_request_saves() {
    let mut t = ReminderTable::new();
    t.on_request(ReminderType(42, ReminderTime::drop()), ReminderData(7, false), 200);
    match t.on_request(ReminderType(1, ReminderTime(0)), ReminderData(0, false), 300) {
        ReminderAction::Save { contents, count } => {
            assert_eq!(contents, "42,480,200,7,false&");
            assert_eq!(count, 1);
        }
        ReminderAction::Start { .. } => panic!("a request with no cooldown saves"),
    }
    assert_eq!(t.reminders(), vec![saved(42, 480, 200, 7, false)]);
}

#[test]
fn reminder_texts() {
    assert_eq!(
        reminder_message(ReminderType(42, ReminderTime::drop()), ReminderData(7, false)),
        format!("{REMINDER_EMOJI} <@42> you can now **drop**!")
    );
    assert_eq!(
        reminder_message(ReminderType(42, ReminderTime::grab()), ReminderData(7, true)),
        format!("{REMINDER_EMOJI} You can now **grab**! <#7>")
    );
    assert_eq!(
        wake_message(3),
        "**Nori woke up!** <a:angury:1090035662037725295>\n\n> Recovered **3** reminders."
    );
    assert_eq!(
        sleep_message(2),
        "**Nori is preparing to sleep** <:sleep:1090035329555234917>\n\n> Attempting to save **2** reminders..."
    );
}

fn single(value: ConfigValue) -> ConfigData {
    ConfigData::Single(Setting { server_default: false, value })
}

#[test]
fn set_reminder_decisions() {
    assert_eq!(
        set_reminder(&single(ConfigValue::Str("true".to_string())), "42", ReminderTime::drop(), 7),
        ReminderDecision::Start(ReminderType(42, ReminderTime(480)), ReminderData(7, false))
    );
    assert_eq!(
        set_reminder(&single(ConfigValue::Str("dm".to_string())), "42", ReminderTime::grab(), 7),
        ReminderDecision::Start(ReminderType(42, ReminderTime(240)), ReminderData(7, true))
    );
    assert_eq!(
        set_reminder(&single(ConfigValue::Bool(true)), "42", ReminderTime::drop(), 7),
        ReminderDecision::Start(ReminderType(42, ReminderTime(480)), ReminderData(7, false))
    );
    assert_eq!(set_reminder(&single(ConfigValue::Bool(false)), "42", ReminderTime::drop(), 7), ReminderDecision::Skip);
    assert_eq!(set_reminder(&single(ConfigValue::Bool(true)), "abc", ReminderTime::drop(), 7), ReminderDecision::BadUser);
    assert_eq!(set_reminder(&ConfigData::All(Vec::new()), "42", ReminderTime::drop(), 7), ReminderDecision::Unreadable);
}

#[test]
fn clock_is_after_2020() {
    assert!(current_time().unwrap() > 1_600_000_000);
}

#[test]
fn table_keeps_one_reminder_per_user_and_action() {
    let mut t = ReminderTable::new();
    for (now, channel) in [(10, 1), (20, 2), (30, 3)] {
        t.on_request(ReminderType(42, ReminderTime::drop()), ReminderData(channel, false), now);
    }
    assert_eq!(t.reminders(), vec![saved(42, 480, 30, 3, false)]);
}

use vstd::prelude::*;

use crate::text::{chars_of, parse_unsigned, parse_unsigned_chars, str_equal};
use crate::utils::config_data::{get_value, value_of, ConfigData};
use crate::utils::reminders::{ReminderData, ReminderTime, ReminderType};

verus! {

/// What to do with a user's action that may start a reminder.
#[derive(PartialEq, Eq, Structural, Debug, Clone, Copy)]
pub enum ReminderDecision {
    /// The user's setting is neither on nor by direct message: no reminder.
    Skip,
    /// Start this reminder.
    Start(ReminderType, ReminderData),
    /// The setting asks for a reminder, but the user id is no number up to `u64::MAX`.
    BadUser,
    /// The configuration answer is a whole category with no setting named `value`.
    Unreadable,
}

/// The decision for a reminder of `time` for `userid`, in channel `channel`, given the user's
/// reminder setting `config`: `true` reminds in the channel, `dm` by direct message.
pub open spec fn reminder_decision(
    config: crate::utils::config_data::ConfigDataView,
    userid: Seq<char>,
    time: ReminderTime,
    channel: u64,
) -> ReminderDecision {
    match value_of(config, "value"@) {
        None => ReminderDecision::Unreadable,
        Some(v) => if v != "true"@ && v != "dm"@ {
            ReminderDecision::Skip
        } else {
            match parse_unsigned(userid, u64::MAX as nat) {
                Some(u) => ReminderDecision::Start(
                    ReminderType(u as u64, time),
                    ReminderData(channel, v == "dm"@),
                ),
                None => ReminderDecision::BadUser,
            }
        },
    }
}

/// Decides whether to start a reminder (see [`reminder_decision`]).
pub fn set_reminder(config: &ConfigData, userid: &str, typ: ReminderTime, channel: u64) -> (r: ReminderDecision)
    ensures
        r == reminder_decision(config@, userid@, typ, channel),
{
    let value = match get_value(config, "value") {
        Some(v) => v,
        None => return ReminderDecision::Unreadable,
    };
    proof {
        reveal_strlit("true");
        reveal_strlit("dm");
        assert("true"@ != "dm"@) by {
            assert("true"@.len() != "dm"@.len());
        }
    }
    let is_dm: bool;
    if str_equal(value.as_str(), "true") {
        is_dm = false;
    } else if str_equal(value.as_str(), "dm") {
        is_dm = true;
    } else {
        return ReminderDecision::Skip;
    }
    match parse_unsigned_chars(&chars_of(userid), 18446744073709551615u64) {
        Some(u) => ReminderDecision::Start(ReminderType(u, typ), ReminderData(channel, is_dm)),
        None => ReminderDecision::BadUser,
    }
}

} // verus!

use vstd::prelude::*;

use crate::text::{chars_of, parse_bool, parse_bool_chars, split, split_chars, split_once, split_once_chars, string_of, views};
use crate::utils::config_data::{get_value, value_of, ConfigData, ConfigDataView};

verus! {

/// Whether the category menu with id `custom_id` (`configTypeSelector_<scope>_<time>`) is a
/// user's: the text between the first and the second `_` is `user`. `None` where the id has
/// fewer than two `_`.
pub open spec fn selector_is_user(custom_id: Seq<char>) -> Option<bool> {
    match split_once(custom_id, seq!['_']) {
        Some((_, rest)) => match split_once(rest, seq!['_']) {
            Some((scope, _)) => Some(scope == "user"@),
            None => None,
        },
        None => None,
    }
}

/// Whether a category menu belongs to a user (see [`selector_is_user`]).
pub fn selector_scope(custom_id: &str) -> (r: Option<bool>)
    ensures
        r == selector_is_user(custom_id@),
{
    let us = vec!['_'];
    assert(us@ =~= seq!['_']);
    match split_once_chars(&chars_of(custom_id), &us) {
        Some((_, rest)) => match split_once_chars(&rest, &us) {
            Some((scope, _)) => Some(crate::text::chars_equal(&scope, &chars_of("user"))),
            None => None,
        },
        None => None,
    }
}

/// What a toggle button's id (`config_<category>_<scope>_<option>_<time>`) names.
pub struct ButtonTarget {
    pub category: String,
    pub scope: String,
    pub option: String,
}

/// The category, scope and option named by a toggle button's id: its second, third and fourth
/// `_`-separated pieces. `None` where it has fewer than four.
pub open spec fn button_target(custom_id: Seq<char>) -> Option<(Seq<char>, Seq<char>, Seq<char>)> {
    let d = split(custom_id, seq!['_']);
    if d.len() < 4 {
        None
    } else {
        Some((d[1], d[2], d[3]))
    }
}

/// What a toggle button's id names (see [`button_target`]).
pub fn parse_button_id(custom_id: &str) -> (r: Option<ButtonTarget>)
    ensures
        match r {
            Some(t) => button_target(custom_id@) == Some((t.category@, t.scope@, t.option@)),
            None => button_target(custom_id@) is None,
        },
{
    let us = vec!['_'];
    assert(us@ =~= seq!['_']);
    let d = split_chars(&chars_of(custom_id), &us);
    if d.len() < 4 {
        return None;
    }
    assert(views(d@)[1] == d@[1]@ && views(d@)[2] == d@[2]@ && views(d@)[3] == d@[3]@);
    Some(ButtonTarget { category: string_of(&d[1]), scope: string_of(&d[2]), option: string_of(&d[3]) })
}

/// The choice a toggle starts from: the stored value, unless a user's setting comes from the
/// server's defaults (then nothing is stored for the user). `None` where the setting cannot be
/// read.
pub open spec fn toggle_start(config: ConfigDataView, user_scope: bool) -> Option<Option<Seq<char>>> {
    match value_of(config, "server_default"@) {
        None => None,
        Some(t) => match parse_bool(t) {
            None => None,
            Some(sd) => if !sd || !user_scope {
                match value_of(config, "value"@) {
                    Some(v) => Some(Some(v)),
                    None => None,
                }
            } else {
                Some(None)
            },
        },
    }
}

/// The choice a toggle starts from (see [`toggle_start`]).
pub fn current_choice(config: &ConfigData, user_scope: bool) -> (r: Option<Option<String>>)
    ensures
        match r {
            Some(Some(v)) => toggle_start(config@, user_scope) == Some(Some(v@)),
            Some(None) => toggle_start(config@, user_scope) == Some(None::<Seq<char>>),
            None => toggle_start(config@, user_scope) is None,
        },
{
    let t = match get_value(config, "server_default") {
        Some(t) => t,
        None => return None,
    };
    let sd = match parse_bool_chars(&chars_of(t.as_str())) {
        Some(b) => b,
        None => return None,
    };
    if !sd || !user_scope {
        match get_value(config, "value") {
            Some(v) => Some(Some(v)),
            None => None,
        }
    } else {
        Some(None)
    }
}

} // verus!

use vstd::prelude::*;

use crate::text::{chars_equal, chars_of, decimal, decimal_chars, str_equal, string_of};

verus! {

/// A stored configuration value, as far as the configuration logic reads it. Nested documents
/// and other kinds of stored values are `Other`.
pub enum ConfigValue {
    Str(String),
    Bool(bool),
    Int32(i32),
    Int64(i64),
    Null,
    Other,
}

pub enum ConfigValueView {
    Str(Seq<char>),
    Bool(bool),
    Int32(i32),
    Int64(i64),
    Null,
    Other,
}

impl View for ConfigValue {
    type V = ConfigValueView;

    open spec fn view(&self) -> ConfigValueView {
        match self {
            ConfigValue::Str(s) => ConfigValueView::Str(s@),
            ConfigValue::Bool(b) => ConfigValueView::Bool(*b),
            ConfigValue::Int32(i) => ConfigValueView::Int32(*i),
            ConfigValue::Int64(i) => ConfigValueView::Int64(*i),
            ConfigValue::Null => ConfigValueView::Null,
            ConfigValue::Other => ConfigValueView::Other,
        }
    }
}

impl ConfigValue {
    pub fn duplicate(&self) -> (r: ConfigValue)
        ensures
            r@ == self@,
    {
        match self {
            ConfigValue::Str(s) => ConfigValue::Str(s.clone()),
            ConfigValue::Bool(b) => ConfigValue::Bool(*b),
            ConfigValue::Int32(i) => ConfigValue::Int32(*i),
            ConfigValue::Int64(i) => ConfigValue::Int64(*i),
            ConfigValue::Null => ConfigValue::Null,
            ConfigValue::Other => ConfigValue::Other,
        }
    }
}

/// A stored configuration document: its keys and their values, in order.
pub struct ConfigDoc {
    pub entries: Vec<(String, ConfigValue)>,
}

pub open spec fn entry_view(e: (String, ConfigValue)) -> (Seq<char>, ConfigValueView) {
    (e.0@, e.1@)
}

impl View for ConfigDoc {
    type V = Seq<(Seq<char>, ConfigValueView)>;

    open spec fn view(&self) -> Seq<(Seq<char>, ConfigValueView)> {
        self.entries@.map_values(|e: (String, ConfigValue)| entry_view(e))
    }
}

/// The value stored under `key` (the first entry with that key).
pub open spec fn doc_get<V>(d: Seq<(Seq<char>, V)>, key: Seq<char>) -> Option<V>
    decreases d.len(),
{
    if d.len() == 0 {
        None
    } else if d[0].0 == key {
        Some(d[0].1)
    } else {
        doc_get(d.drop_first(), key)
    }
}

pub fn doc_lookup<'a>(d: &'a ConfigDoc, key: &str) -> (r: Option<&'a ConfigValue>)
    ensures
        match r {
            Some(v) => doc_get(d@, key@) == Some(v@),
            None => doc_get(d@, key@) is None,
        },
{
    let k = chars_of(key);
    let mut i: usize = 0;
    assert(d@.skip(0) =~= d@);
    while i < d.entries.len()
        invariant
            i <= d@.len(),
            d@.len() == d.entries@.len(),
            doc_get(d@, key@) == doc_get(d@.skip(i as int), key@),
            k@ == key@,
        decreases d@.len() - i,
    {
        assert(d@.skip(i as int)[0] == entry_view(d.entries@[i as int]));
        assert(d@.skip(i as int).drop_first() =~= d@.skip(i + 1));
        if chars_equal(&chars_of(d.entries[i].0.as_str()), &k) {
            return Some(&d.entries[i].1);
        }
        i = i + 1;
    }
    None
}

/// One configuration setting: whether it comes from the server's defaults, and its value.
pub struct Setting {
    pub server_default: bool,
    pub value: ConfigValue,
}

pub struct SettingView {
    pub server_default: bool,
    pub value: ConfigValueView,
}

impl View for Setting {
    type V = SettingView;

    open spec fn view(&self) -> SettingView {
        SettingView { server_default: self.server_default, value: self.value@ }
    }
}

/// The answer to a configuration query: one setting, or every setting of a category by name.
pub enum ConfigData {
    Single(Setting),
    All(Vec<(String, Setting)>),
}

pub enum ConfigDataView {
    Single(SettingView),
    All(Seq<(Seq<char>, SettingView)>),
}

pub open spec fn setting_entry_view(e: (String, Setting)) -> (Seq<char>, SettingView) {
    (e.0@, e.1@)
}

impl View for ConfigData {
    type V = ConfigDataView;

    open spec fn view(&self) -> ConfigDataView {
        match self {
            ConfigData::Single(s) => ConfigDataView::Single(s@),
            ConfigData::All(v) => ConfigDataView::All(
                v@.map_values(|e: (String, Setting)| setting_entry_view(e)),
            ),
        }
    }
}

pub open spec fn all_key() -> Seq<char> {
    "_all"@
}

/// The built-in defaults of each configuration category.
pub open spec fn category_defaults(typ: Seq<char>) -> Option<Seq<(Seq<char>, ConfigValueView)>> {
    if typ == "reminders"@ {
        Some(
            seq![
                ("drop"@, ConfigValueView::Bool(true)),
                ("grab"@, ConfigValueView::Bool(false)),
                ("raid"@, ConfigValueView::Bool(true)),
            ],
        )
    } else if typ == "analysis"@ {
        Some(
            seq![
                ("enabled"@, ConfigValueView::Bool(true)),
                ("expire-delete"@, ConfigValueView::Bool(false)),
                ("show-gen"@, ConfigValueView::Bool(true)),
                ("ping"@, ConfigValueView::Bool(true)),
                ("show-time"@, ConfigValueView::Bool(true)),
                ("type"@, ConfigValueView::Int32(1)),
            ],
        )
    } else if typ == "utils"@ {
        Some(seq![("delete-message"@, ConfigValueView::Bool(false))])
    } else {
        None
    }
}

fn entry(key: &str, value: ConfigValue) -> (r: (String, ConfigValue))
    ensures
        entry_view(r) == (key@, value@),
{
    (key.to_owned(), value)
}

/// The built-in defaults of the configuration category `typ`.
pub fn get_category_defaults(typ: &str) -> (r: Option<ConfigDoc>)
    ensures
        match r {
            Some(d) => category_defaults(typ@) == Some(d@),
            None => category_defaults(typ@) is None,
        },
{
    if str_equal(typ, "reminders") {
        let d = ConfigDoc {
            entries: vec![
                entry("drop", ConfigValue::Bool(true)),
                entry("grab", ConfigValue::Bool(false)),
                entry("raid", ConfigValue::Bool(true)),
            ],
        };
        assert(d@ =~= category_defaults(typ@).unwrap());
        Some(d)
    } else if str_equal(typ, "analysis") {
        let d = ConfigDoc {
            entries: vec![
                entry("enabled", ConfigValue::Bool(true)),
                entry("expire-delete", ConfigValue::Bool(false)),
                entry("show-gen", ConfigValue::Bool(true)),
                entry("ping", ConfigValue::Bool(true)),
                entry("show-time", ConfigValue::Bool(true)),
                entry("type", ConfigValue::Int32(1)),
            ],
        };
        assert(d@ =~= category_defaults(typ@).unwrap());
        Some(d)
    } else if str_equal(typ, "utils") {
        let d = ConfigDoc { entries: vec![entry("delete-message", ConfigValue::Bool(false))] };
        assert(d@ =~= category_defaults(typ@).unwrap());
        Some(d)
    } else {
        None
    }
}


pub open spec fn opt_view(d: Option<&ConfigDoc>) -> Option<Seq<(Seq<char>, ConfigValueView)>> {
    match d {
        Some(x) => Some(x@),
        None => None,
    }
}

/// The setting of `key` as the server has it: what the server stored, else the default.
pub open spec fn server_setting(
    default: ConfigValueView,
    guild: Option<Seq<(Seq<char>, ConfigValueView)>>,
    key: Seq<char>,
) -> SettingView {
    SettingView {
        server_default: true,
        value: match guild {
            Some(g) => match doc_get(g, key) {
                Some(x) => x,
                None => default,
            },
            None => default,
        },
    }
}

/// The server's configuration of category `typ`: the setting `data`, or every setting when
/// `data` is `_all`; every setting is marked as a server default. `None` where the category,
/// or a setting that the server has not stored, has no built-in default.
pub open spec fn guild_defaults(
    typ: Seq<char>,
    guild: Option<Seq<(Seq<char>, ConfigValueView)>>,
    data: Seq<char>,
) -> Option<ConfigDataView> {
    if data == all_key() {
        match category_defaults(typ) {
            Some(defs) => Some(
                ConfigDataView::All(
                    defs.map_values(
                        |e: (Seq<char>, ConfigValueView)| (e.0, server_setting(e.1, guild, e.0)),
                    ),
                ),
            ),
            None => None,
        }
    } else {
        match guild {
            Some(g) => match doc_get(g, data) {
                Some(x) => Some(ConfigDataView::Single(SettingView { server_default: true, value: x })),
                None => match category_defaults(typ) {
                    Some(defs) => Some(
                        ConfigDataView::Single(
                            SettingView {
                                server_default: true,
                                value: match doc_get(defs, data) {
                                    Some(v) => v,
                                    None => ConfigValueView::Null,
                                },
                            },
                        ),
                    ),
                    None => None,
                },
            },
            None => match category_defaults(typ) {
                Some(defs) => match doc_get(defs, data) {
                    Some(v) => Some(ConfigDataView::Single(SettingView { server_default: true, value: v })),
                    None => None,
                },
                None => None,
            },
        }
    }
}

/// A user's setting of `key`: what the user stored, else the server's setting `st`.
pub open spec fn user_setting(
    user: Seq<(Seq<char>, ConfigValueView)>,
    e: (Seq<char>, SettingView),
) -> (Seq<char>, SettingView) {
    match doc_get(user, e.0) {
        Some(x) => (e.0, SettingView { server_default: false, value: x }),
        None => e,
    }
}

/// The configuration of category `typ` that applies: for a user (`has_user`), what the user
/// stored, falling back to the server's settings; for a server, the server's settings.
pub open spec fn config_data(
    typ: Seq<char>,
    has_user: bool,
    user: Option<Seq<(Seq<char>, ConfigValueView)>>,
    guild: Option<Seq<(Seq<char>, ConfigValueView)>>,
    data: Seq<char>,
) -> Option<ConfigDataView> {
    if !has_user {
        guild_defaults(typ, guild, data)
    } else {
        match user {
            None => guild_defaults(typ, guild, data),
            Some(u) => if data != all_key() {
                match doc_get(u, data) {
                    Some(x) => Some(ConfigDataView::Single(SettingView { server_default: false, value: x })),
                    None => guild_defaults(typ, guild, data),
                }
            } else {
                match guild_defaults(typ, guild, data) {
                    Some(ConfigDataView::All(gs)) => Some(
                        ConfigDataView::All(
                            gs.map_values(|e: (Seq<char>, SettingView)| user_setting(u, e)),
                        ),
                    ),
                    other => other,
                }
            },
        }
    }
}

fn server_setting_exec(default: &ConfigValue, guild: Option<&ConfigDoc>, key: &str) -> (r: Setting)
    ensures
        r@ == server_setting(default@, opt_view(guild), key@),
{
    let value = match guild {
        Some(g) => match doc_lookup(g, key) {
            Some(x) => x.duplicate(),
            None => default.duplicate(),
        },
        None => default.duplicate(),
    };
    Setting { server_default: true, value }
}

/// The server's configuration of category `typ` (see [`guild_defaults`]), from what the server
/// stored (`guild`, if anything).
pub fn get_guild_defaults(typ: &str, guild: Option<&ConfigDoc>, data: &str) -> (r: Option<ConfigData>)
    ensures
        match r {
            Some(c) => guild_defaults(typ@, opt_view(guild), data@) == Some(c@),
            None => guild_defaults(typ@, opt_view(guild), data@) is None,
        },
{
    if str_equal(data, "_all") {
        let defs = match get_category_defaults(typ) {
            Some(d) => d,
            None => return None,
        };
        let ghost spec_defs = defs@;
        let mut out: Vec<(String, Setting)> = Vec::new();
        let mut i: usize = 0;
        while i < defs.entries.len()
            invariant
                i <= defs@.len(),
                defs@.len() == defs.entries@.len(),
                spec_defs == defs@,
                out@.len() == i,
                forall|j: int|
                    0 <= j < i ==> setting_entry_view(#[trigger] out@[j]) == (
                        spec_defs[j].0,
                        server_setting(spec_defs[j].1, opt_view(guild), spec_defs[j].0),
                    ),
            decreases defs@.len() - i,
        {
            let key = &defs.entries[i].0;
            assert(defs@[i as int] == entry_view(defs.entries@[i as int]));
            let st = server_setting_exec(&defs.entries[i].1, guild, key.as_str());
            out.push((key.clone(), st));
            i = i + 1;
        }
        let r = ConfigData::All(out);
        assert(r@ == guild_defaults(typ@, opt_view(guild), data@).unwrap()) by {
            if let ConfigDataView::All(v) = r@ {
                assert(v =~= spec_defs.map_values(
                    |e: (Seq<char>, ConfigValueView)| (e.0, server_setting(e.1, opt_view(guild), e.0)),
                ));
            }
        }
        Some(r)
    } else {
        match guild {
            Some(g) => match doc_lookup(g, data) {
                Some(x) => Some(ConfigData::Single(Setting { server_default: true, value: x.duplicate() })),
                None => match get_category_defaults(typ) {
                    Some(defs) => {
                        let value = match doc_lookup(&defs, data) {
                            Some(v) => v.duplicate(),
                            None => ConfigValue::Null,
                        };
                        Some(ConfigData::Single(Setting { server_default: true, value }))
                    },
                    None => None,
                },
            },
            None => match get_category_defaults(typ) {
                Some(defs) => match doc_lookup(&defs, data) {
                    Some(v) => Some(ConfigData::Single(Setting { server_default: true, value: v.duplicate() })),
                    None => None,
                },
                None => None,
            },
        }
    }
}

/// The configuration of category `typ` that applies (see [`config_data`]): `has_user` tells
/// whether a user's configuration is asked for, `user` and `guild` are what the user and the
/// server stored, if anything.
pub fn get_config_data(
    typ: &str,
    has_user: bool,
    user: Option<&ConfigDoc>,
    guild: Option<&ConfigDoc>,
    data: &str,
) -> (r: Option<ConfigData>)
    ensures
        match r {
            Some(c) => config_data(typ@, has_user, opt_view(user), opt_view(guild), data@) == Some(c@),
            None => config_data(typ@, has_user, opt_view(user), opt_view(guild), data@) is None,
        },
{
    if !has_user {
        return get_guild_defaults(typ, guild, data);
    }
    let u = match user {
        Some(u) => u,
        None => return get_guild_defaults(typ, guild, data),
    };
    if !str_equal(data, "_all") {
        return match doc_lookup(u, data) {
            Some(x) => Some(ConfigData::Single(Setting { server_default: false, value: x.duplicate() })),
            None => get_guild_defaults(typ, guild, data),
        };
    }
    match get_guild_defaults(typ, guild, data) {
        Some(ConfigData::All(gs)) => {
            let ghost gsv = gs@.map_values(|e: (String, Setting)| setting_entry_view(e));
            let mut out: Vec<(String, Setting)> = Vec::new();
            let mut i: usize = 0;
            while i < gs.len()
                invariant
                    i <= gs@.len(),
                    gsv == gs@.map_values(|e: (String, Setting)| setting_entry_view(e)),
                    out@.len() == i,
                    forall|j: int|
                        0 <= j < i ==> setting_entry_view(#[trigger] out@[j]) == user_setting(u@, gsv[j]),
                decreases gs@.len() - i,
            {
                let key = &gs[i].0;
                let st = match doc_lookup(u, key.as_str()) {
                    Some(x) => Setting { server_default: false, value: x.duplicate() },
                    None => Setting { server_default: gs[i].1.server_default, value: gs[i].1.value.duplicate() },
                };
                out.push((key.clone(), st));
                i = i + 1;
            }
            let r = ConfigData::All(out);
            assert(r@ == config_data(typ@, has_user, opt_view(user), opt_view(guild), data@).unwrap()) by {
                if let ConfigDataView::All(v) = r@ {
                    assert(v =~= gsv.map_values(|e: (Seq<char>, SettingView)| user_setting(u@, e)));
                }
            }
            Some(r)
        },
        other => other,
    }
}


/// An integer in decimal, with a leading `-` when negative.
pub open spec fn signed_decimal(i: int) -> Seq<char> {
    if i < 0 {
        seq!['-'] + decimal((-i) as nat)
    } else {
        decimal(i as nat)
    }
}

pub open spec fn bool_text(b: bool) -> Seq<char> {
    if b {
        "true"@
    } else {
        "false"@
    }
}

/// A stored value as text: strings as they are, booleans and integers written out, anything
/// else empty.
pub open spec fn value_text(v: ConfigValueView) -> Seq<char> {
    match v {
        ConfigValueView::Str(s) => s,
        ConfigValueView::Bool(b) => bool_text(b),
        ConfigValueView::Int32(i) => signed_decimal(i as int),
        ConfigValueView::Int64(i) => signed_decimal(i as int),
        _ => Seq::empty(),
    }
}

/// The field `val` of a setting as text: `server_default` or `value`; `None` for any other.
pub open spec fn setting_field(st: SettingView, val: Seq<char>) -> Option<Seq<char>> {
    if val == "server_default"@ {
        Some(bool_text(st.server_default))
    } else if val == "value"@ {
        Some(value_text(st.value))
    } else {
        None
    }
}

fn bool_string(b: bool) -> (r: String)
    ensures
        r@ == bool_text(b),
{
    if b {
        "true".to_owned()
    } else {
        "false".to_owned()
    }
}

fn signed_string(i: i64) -> (r: String)
    ensures
        r@ == signed_decimal(i as int),
{
    if i < 0 {
        let mut v = vec!['-'];
        let mag = (-(i as i128)) as u128;
        crate::text::push_decimal(&mut v, mag);
        string_of(&v)
    } else {
        string_of(&decimal_chars(i as u128))
    }
}

/// A stored value as text (see [`value_text`]).
pub fn get_value_sub(v: &ConfigValue) -> (r: String)
    ensures
        r@ == value_text(v@),
{
    match v {
        ConfigValue::Str(s) => s.clone(),
        ConfigValue::Bool(b) => bool_string(*b),
        ConfigValue::Int32(i) => signed_string(*i as i64),
        ConfigValue::Int64(i) => signed_string(*i),
        _ => String::new(),
    }
}

fn setting_field_exec(st: &Setting, val: &str) -> (r: Option<String>)
    ensures
        match r {
            Some(t) => setting_field(st@, val@) == Some(t@),
            None => setting_field(st@, val@) is None,
        },
{
    if str_equal(val, "server_default") {
        Some(bool_string(st.server_default))
    } else if str_equal(val, "value") {
        Some(get_value_sub(&st.value))
    } else {
        None
    }
}

/// The field `val` of a single setting as text; on a whole category, the empty text when it
/// has a setting named `val`. `None` otherwise.
pub open spec fn value_of(data: ConfigDataView, val: Seq<char>) -> Option<Seq<char>> {
    match data {
        ConfigDataView::Single(st) => setting_field(st, val),
        ConfigDataView::All(items) => match doc_get(items, val) {
            Some(_) => Some(Seq::empty()),
            None => None,
        },
    }
}

/// The field `val` of the setting `key` of a whole category, as text; `None` when there is no
/// such setting or field, or when `data` is a single setting.
pub open spec fn value_from_all(data: ConfigDataView, key: Seq<char>, val: Seq<char>) -> Option<Seq<char>> {
    match data {
        ConfigDataView::All(items) => match doc_get(items, key) {
            Some(st) => setting_field(st, val),
            None => None,
        },
        ConfigDataView::Single(_) => None,
    }
}

fn setting_lookup<'a>(items: &'a Vec<(String, Setting)>, key: &str) -> (r: Option<&'a Setting>)
    ensures
        match r {
            Some(st) => doc_get(items@.map_values(|e: (String, Setting)| setting_entry_view(e)), key@)
                == Some(st@),
            None => doc_get(items@.map_values(|e: (String, Setting)| setting_entry_view(e)), key@) is None,
        },
{
    let ghost d = items@.map_values(|e: (String, Setting)| setting_entry_view(e));
    let k = chars_of(key);
    let mut i: usize = 0;
    assert(d.skip(0) =~= d);
    while i < items.len()
        invariant
            i <= d.len(),
            d == items@.map_values(|e: (String, Setting)| setting_entry_view(e)),
            doc_get(d, key@) == doc_get(d.skip(i as int), key@),
            k@ == key@,
        decreases d.len() - i,
    {
        assert(d.skip(i as int)[0] == setting_entry_view(items@[i as int]));
        assert(d.skip(i as int).drop_first() =~= d.skip(i + 1));
        if chars_equal(&chars_of(items[i].0.as_str()), &k) {
            return Some(&items[i].1);
        }
        i = i + 1;
    }
    None
}

/// The field `val` of a configuration answer as text (see [`value_of`]).
pub fn get_value(data: &ConfigData, val: &str) -> (r: Option<String>)
    ensures
        match r {
            Some(t) => value_of(data@, val@) == Some(t@),
            None => value_of(data@, val@) is None,
        },
{
    match data {
        ConfigData::Single(st) => setting_field_exec(st, val),
        ConfigData::All(items) => match setting_lookup(items, val) {
            Some(_) => Some(String::new()),
            None => None,
        },
    }
}

/// The field `val` of the setting `key` of a whole category, as text (see [`value_from_all`]).
pub fn get_value_from_all(data: &ConfigData, key: &str, val: &str) -> (r: Option<String>)
    ensures
        match r {
            Some(t) => value_from_all(data@, key@, val@) == Some(t@),
            None => value_from_all(data@, key@, val@) is None,
        },
{
    match data {
        ConfigData::All(items) => match setting_lookup(items, key) {
            Some(st) => setting_field_exec(st, val),
            None => None,
        },
        ConfigData::Single(_) => None,
    }
}

} // verus!

use vstd::prelude::*;

use crate::commands::config_utils::{choice_names, ConfigOption, Configs, SubConfigOption};
use crate::text::{push_str, str_equal, string_of};

verus! {

/// How a configuration toggle changes what is stored.
pub enum ConfigWrite {
    /// Store this choice.
    Store(String),
    /// Remove the stored choice (the user falls back to the server's setting).
    Clear,
}

pub enum ConfigWriteView {
    Store(Seq<char>),
    Clear,
}

impl View for ConfigWrite {
    type V = ConfigWriteView;

    open spec fn view(&self) -> ConfigWriteView {
        match self {
            ConfigWrite::Store(s) => ConfigWriteView::Store(s@),
            ConfigWrite::Clear => ConfigWriteView::Clear,
        }
    }
}

/// The first position of `d` in `names`.
pub open spec fn position_of(names: Seq<Seq<char>>, d: Seq<char>) -> Option<nat>
    decreases names.len(),
{
    if names.len() == 0 {
        None
    } else if names[0] == d {
        Some(0)
    } else {
        match position_of(names.drop_first(), d) {
            Some(p) => Some(p + 1),
            None => None,
        }
    }
}

/// What a toggle stores, given the choices `names` in order and the `current` choice, if one
/// is stored: the next choice; after the last, the first again for a server, nothing for a
/// user. `None` when there are no choices or the current one is none of them.
pub open spec fn next_choice(names: Seq<Seq<char>>, server: bool, current: Option<Seq<char>>) -> Option<ConfigWriteView> {
    match current {
        None => if names.len() == 0 {
            None
        } else {
            Some(ConfigWriteView::Store(names[0]))
        },
        Some(d) => match position_of(names, d) {
            None => None,
            Some(p) => if p + 1 < names.len() {
                Some(ConfigWriteView::Store(names[(p + 1) as int]))
            } else if server {
                Some(ConfigWriteView::Store(names[0]))
            } else {
                Some(ConfigWriteView::Clear)
            },
        },
    }
}

/// The option named `value` of `opts`, the first one.
pub open spec fn option_named<'a>(opts: Seq<ConfigOption<'a>>, value: Seq<char>) -> Option<ConfigOption<'a>>
    decreases opts.len(),
{
    if opts.len() == 0 {
        None
    } else if opts[0].name@ == value {
        Some(opts[0])
    } else {
        option_named(opts.drop_first(), value)
    }
}

/// The category of the configuration table named `category` (reminders for unknown names).
pub open spec fn category_named<'a>(configs: Configs<'a>, category: Seq<char>) -> Seq<ConfigOption<'a>> {
    if category == "analysis"@ {
        configs.analysis.options@
    } else {
        configs.reminders.options@
    }
}

/// What toggling option `value` of `category`, in scope `typ`, stores (see [`next_choice`]).
pub open spec fn toggle(
    configs: Configs,
    category: Seq<char>,
    typ: Seq<char>,
    value: Seq<char>,
    current: Option<Seq<char>>,
) -> Option<ConfigWriteView> {
    match option_named(category_named(configs, category), value) {
        None => None,
        Some(o) => next_choice(choice_names(o), typ == "server"@, current),
    }
}

fn option_named_exec<'a, 'b>(opts: &'b Vec<ConfigOption<'a>>, value: &str) -> (r: Option<&'b ConfigOption<'a>>)
    ensures
        match r {
            Some(o) => option_named(opts@, value@) == Some(*o),
            None => option_named(opts@, value@) is None,
        },
{
    let mut i: usize = 0;
    assert(opts@.skip(0) =~= opts@);
    while i < opts.len()
        invariant
            i <= opts@.len(),
            option_named(opts@, value@) == option_named(opts@.skip(i as int), value@),
        decreases opts@.len() - i,
    {
        assert(opts@.skip(i as int)[0] == opts@[i as int]);
        assert(opts@.skip(i as int).drop_first() =~= opts@.skip(i + 1));
        if str_equal(opts[i].name, value) {
            return Some(&opts[i]);
        }
        i = i + 1;
    }
    None
}

fn position_exec(opts: &Vec<SubConfigOption>, d: &str) -> (r: Option<usize>)
    ensures
        match r {
            Some(p) => position_of(opts@.map_values(|s: SubConfigOption| s.name@), d@) == Some(p as nat)
                && p < opts@.len(),
            None => position_of(opts@.map_values(|s: SubConfigOption| s.name@), d@) is None,
        },
{
    let ghost names = opts@.map_values(|s: SubConfigOption| s.name@);
    let mut i: usize = 0;
    assert(names.skip(0) =~= names);
    while i < opts.len()
        invariant
            i <= opts@.len(),
            names == opts@.map_values(|s: SubConfigOption| s.name@),
            position_of(names, d@) == match position_of(names.skip(i as int), d@) {
                Some(p) => Some((p + i) as nat),
                None => None,
            },
        decreases opts@.len() - i,
    {
        assert(names.skip(i as int)[0] == opts@[i as int].name@);
        assert(names.skip(i as int).drop_first() =~= names.skip(i + 1));
        if str_equal(opts[i].name, d) {
            return Some(i);
        }
        i = i + 1;
    }
    assert(names.skip(i as int) =~= Seq::<Seq<char>>::empty());
    None
}

/// What toggling option `value` of `category` in scope `typ` (`server` or `user`) stores, given
/// the `current` choice if one is stored (see [`toggle`]).
pub fn set_config_data(
    configs: &Configs,
    category: &str,
    typ: &str,
    value: &str,
    current: Option<&str>,
) -> (r: Option<ConfigWrite>)
    ensures
        match r {
            Some(w) => toggle(*configs, category@, typ@, value@, match current {
                Some(c) => Some(c@),
                None => None,
            }) == Some(w@),
            None => toggle(*configs, category@, typ@, value@, match current {
                Some(c) => Some(c@),
                None => None,
            }) is None,
        },
{
    let t = configs.index(category);
    let o = match option_named_exec(&t.options, value) {
        Some(o) => o,
        None => return None,
    };
    let opts = &o.options;
    let ghost names = choice_names(*o);
    match current {
        None => {
            if opts.len() == 0 {
                None
            } else {
                Some(ConfigWrite::Store(opts[0].name.to_owned()))
            }
        },
        Some(d) => {
            let p = match position_exec(opts, d) {
                Some(p) => p,
                None => return None,
            };
            let n = opts.len();
            if p + 1 < n {
                Some(ConfigWrite::Store(opts[p + 1].name.to_owned()))
            } else if str_equal(typ, "server") {
                Some(ConfigWrite::Store(opts[0].name.to_owned()))
            } else {
                Some(ConfigWrite::Clear)
            }
        },
    }
}

/// The collection that holds the configuration of `category` in scope `typ`.
pub fn config_collection(typ: &str, category: &str) -> (r: String)
    ensures
        r@ == typ@ + "_config_"@ + category@,
{
    let mut out: Vec<char> = Vec::new();
    push_str(&mut out, typ);
    push_str(&mut out, "_config_");
    push_str(&mut out, category);
    string_of(&out)
}

proof fn lemma_position_distinct(names: Seq<Seq<char>>, p: int)
    requires
        0 <= p < names.len(),
        forall|i: int, j: int| 0 <= i < j < names.len() ==> names[i] != names[j],
    ensures
        position_of(names, names[p]) == Some(p as nat),
    decreases p,
{
    if p > 0 {
        assert(names[0] != names[p]);
        let t = names.drop_first();
        assert forall|i: int, j: int| 0 <= i < j < t.len() implies t[i] != t[j] by {
            assert(t[i] == names[i + 1] && t[j] == names[j + 1]);
        }
        assert(t[p - 1] == names[p]);
        lemma_position_distinct(t, p - 1);
    }
}

/// Law: for a server, toggling an option whose choices are distinct moves from each choice to
/// the next, and from the last back to the first.
pub proof fn law_server_toggle_cycles(names: Seq<Seq<char>>, p: int)
    requires
        0 <= p < names.len(),
        forall|i: int, j: int| 0 <= i < j < names.len() ==> names[i] != names[j],
    ensures
        next_choice(names, true, Some(names[p])) == Some(ConfigWriteView::Store(names[(p + 1) % (names.len() as int)])),
{
    lemma_position_distinct(names, p);
    if p + 1 < names.len() {
        vstd::arithmetic::div_mod::lemma_small_mod((p + 1) as nat, names.len());
    } else {
        vstd::arithmetic::div_mod::lemma_mod_self_0(names.len() as int);
    }
}

/// Law: for a user, toggling past the last choice removes the stored choice, so that the
/// server's setting applies again.
pub proof fn law_user_toggle_clears_after_last(names: Seq<Seq<char>>)
    requires
        names.len() > 0,
        forall|i: int, j: int| 0 <= i < j < names.len() ==> names[i] != names[j],
    ensures
        next_choice(names, false, Some(names.last())) == Some(ConfigWriteView::Clear),
{
    lemma_position_distinct(names, names.len() - 1);
}

} // verus!

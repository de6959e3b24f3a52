use vstd::prelude::*;

use crate::operations::drop::{uppercase_first, uppercase_first_spec};
use crate::text::{chars_of, decimal, ends_with, decimal_chars, parse_bool, parse_bool_chars, push_chars, push_str, str_equal, string_of};
use crate::utils::config_data::{get_value_from_all, value_from_all, ConfigData, ConfigDataView};

verus! {

/// The emoji of an enabled option.
pub const ON_EMOJI: &'static str = "<:on:1063161763786391572>";

/// The emoji of a disabled option.
pub const OFF_EMOJI: &'static str = "<:off:1063161785777135718>";

/// One choice of a configuration option.
pub struct SubConfigOption<'a> {
    pub name: &'a str,
    pub emoji: &'a str,
    pub text: &'a str,
}

impl<'a> SubConfigOption<'a> {
    /// The choice that turns an option on.
    pub fn enabled() -> (r: SubConfigOption<'static>)
        ensures
            r.name@ == "true"@ && r.emoji@ == ON_EMOJI@ && r.text@ == "Enabled"@,
    {
        SubConfigOption { name: "true", emoji: ON_EMOJI, text: "Enabled" }
    }

    /// The choice that turns an option off.
    pub fn disabled() -> (r: SubConfigOption<'static>)
        ensures
            r.name@ == "false"@ && r.emoji@ == OFF_EMOJI@ && r.text@ == "Disabled"@,
    {
        SubConfigOption { name: "false", emoji: OFF_EMOJI, text: "Disabled" }
    }
}

/// A configuration option and its choices, in the order in which a toggle goes through them.
pub struct ConfigOption<'a> {
    pub name: &'a str,
    pub fancy_name: &'a str,
    pub options: Vec<SubConfigOption<'a>>,
    pub description: Option<&'a str>,
}

/// The emoji of a configuration category: a custom emoji by id, or a character.
#[derive(PartialEq, Eq, Structural, Debug, Clone, Copy)]
pub enum ConfigEmoji {
    Custom(u64),
    Unicode(char),
}

/// A configuration category.
pub struct ConfigType<'a> {
    pub name: &'a str,
    pub emoji: ConfigEmoji,
    pub server_only: bool,
    pub options: Vec<ConfigOption<'a>>,
}

/// The configuration categories.
pub struct Configs<'a> {
    pub reminders: ConfigType<'a>,
    pub analysis: ConfigType<'a>,
}

/// The names of the choices of `o`, in order.
pub open spec fn choice_names(o: ConfigOption) -> Seq<Seq<char>> {
    o.options@.map_values(|s: SubConfigOption| s.name@)
}

/// The names of the options of `t`, in order.
pub open spec fn option_names(t: ConfigType) -> Seq<Seq<char>> {
    t.options@.map_values(|o: ConfigOption| o.name@)
}

pub open spec fn is_on_off(o: ConfigOption) -> bool {
    &&& o.options@.len() == 2
    &&& o.options@[0].name@ == "true"@ && o.options@[0].emoji@ == ON_EMOJI@ && o.options@[0].text@ == "Enabled"@
    &&& o.options@[1].name@ == "false"@ && o.options@[1].emoji@ == OFF_EMOJI@ && o.options@[1].text@ == "Disabled"@
    &&& o.description is None
}

pub open spec fn is_on_dm_off(o: ConfigOption) -> bool {
    &&& o.options@.len() == 3
    &&& o.options@[0].name@ == "true"@ && o.options@[0].emoji@ == ON_EMOJI@ && o.options@[0].text@ == "Enabled"@
    &&& o.options@[1].name@ == "dm"@ && o.options@[1].emoji@ == ON_EMOJI@ && o.options@[1].text@ == "Enabled DM"@
    &&& o.options@[2].name@ == "false"@ && o.options@[2].emoji@ == OFF_EMOJI@ && o.options@[2].text@ == "Disabled"@
    &&& o.description is None
}

/// The configuration table: reminders (drop and grab, each on, by direct message or off) and
/// analysis (five options, each on or off).
pub open spec fn is_config_table(c: Configs) -> bool {
    &&& c.reminders.name@ == "reminders"@
    &&& c.reminders.emoji == ConfigEmoji::Custom(1061639553154285669)
    &&& !c.reminders.server_only
    &&& c.reminders.options@.len() == 2
    &&& c.reminders.options@[0].name@ == "drop"@ && c.reminders.options@[0].fancy_name@ == "Drop"@
    &&& c.reminders.options@[1].name@ == "grab"@ && c.reminders.options@[1].fancy_name@ == "Grab"@
    &&& is_on_dm_off(c.reminders.options@[0]) && is_on_dm_off(c.reminders.options@[1])
    &&& c.analysis.name@ == "analysis"@
    &&& c.analysis.emoji == ConfigEmoji::Unicode('🔍')
    &&& !c.analysis.server_only
    &&& c.analysis.options@.len() == 5
    &&& c.analysis.options@[0].name@ == "enabled"@ && c.analysis.options@[0].fancy_name@ == "Analysis"@
    &&& c.analysis.options@[1].name@ == "expire-delete"@ && c.analysis.options@[1].fancy_name@
        == "Delete analysis after drop expires"@
    &&& c.analysis.options@[2].name@ == "show-gen"@ && c.analysis.options@[2].fancy_name@ == "Show Gen"@
    &&& c.analysis.options@[3].name@ == "ping"@ && c.analysis.options@[3].fancy_name@ == "Ping Me"@
    &&& c.analysis.options@[4].name@ == "show-time"@ && c.analysis.options@[4].fancy_name@
        == "Show Generated in Miliseconds"@
    &&& forall|i: int| 0 <= i < 5 ==> is_on_off(#[trigger] c.analysis.options@[i])
}

fn on_dm_off<'a>(name: &'a str, fancy_name: &'a str) -> (r: ConfigOption<'a>)
    ensures
        r.name == name && r.fancy_name == fancy_name && is_on_dm_off(r),
{
    ConfigOption {
        name,
        fancy_name,
        options: vec![
            SubConfigOption::enabled(),
            SubConfigOption { name: "dm", emoji: ON_EMOJI, text: "Enabled DM" },
            SubConfigOption::disabled(),
        ],
        description: None,
    }
}

fn on_off<'a>(name: &'a str, fancy_name: &'a str) -> (r: ConfigOption<'a>)
    ensures
        r.name == name && r.fancy_name == fancy_name && is_on_off(r),
{
    ConfigOption {
        name,
        fancy_name,
        options: vec![SubConfigOption::enabled(), SubConfigOption::disabled()],
        description: None,
    }
}

/// The configuration table (see [`is_config_table`]).
pub fn configs() -> (r: Configs<'static>)
    ensures
        is_config_table(r),
{
    let c = Configs {
        reminders: ConfigType {
            name: "reminders",
            emoji: ConfigEmoji::Custom(1061639553154285669),
            server_only: false,
            options: vec![on_dm_off("drop", "Drop"), on_dm_off("grab", "Grab")],
        },
        analysis: ConfigType {
            name: "analysis",
            emoji: ConfigEmoji::Unicode('🔍'),
            server_only: false,
            options: vec![
                on_off("enabled", "Analysis"),
                on_off("expire-delete", "Delete analysis after drop expires"),
                on_off("show-gen", "Show Gen"),
                on_off("ping", "Ping Me"),
                on_off("show-time", "Show Generated in Miliseconds"),
            ],
        },
    };
    assert(forall|i: int| 0 <= i < 5 ==> is_on_off(#[trigger] c.analysis.options@[i]));
    c
}

/// The names of the categories offered in the category menu, in order.
pub fn config_types() -> (r: Vec<&'static str>)
    ensures
        r@.len() == 2 && r@[0]@ == "reminders"@ && r@[1]@ == "analysis"@,
{
    vec!["reminders", "analysis"]
}

impl<'a> Configs<'a> {
    /// The category named `field_name`; reminders for any other name.
    pub fn index(&self, field_name: &str) -> (r: &ConfigType<'a>)
        ensures
            field_name@ == "analysis"@ ==> r == &self.analysis,
            field_name@ != "analysis"@ ==> r == &self.reminders,
    {
        if str_equal(field_name, "reminders") {
            proof {
                reveal_strlit("reminders");
                reveal_strlit("analysis");
                assert("reminders"@[0] != "analysis"@[0]);
            }
            &self.reminders
        } else if str_equal(field_name, "analysis") {
            &self.analysis
        } else {
            &self.reminders
        }
    }
}


/// The button grids tried in turn: one row of two, three, four or five buttons, then more rows
/// of three, four or five.
pub open spec fn grid(k: nat) -> (nat, nat)
    decreases k,
{
    if k == 0 {
        (1, 2)
    } else {
        let (f, s) = grid((k - 1) as nat);
        if s + 1 > 5 {
            (f + 1, 3)
        } else {
            (f, s + 1)
        }
    }
}

/// The first grid, in the order of [`grid`], with room for `num` buttons.
pub open spec fn fits_first(num: nat, r: (nat, nat)) -> bool {
    exists|k: nat| #[trigger] grid(k) == r && r.0 * r.1 >= num && forall|j: nat| j < k ==> (#[trigger] grid(j)).0 * grid(j).1 < num
}

proof fn lemma_grid_bounds(k: nat)
    ensures
        grid(k).0 >= 1,
        2 <= grid(k).1 <= 5,
        grid(k).0 > 1 ==> grid(k).1 >= 3,
    decreases k,
{
    if k > 0 {
        lemma_grid_bounds((k - 1) as nat);
    }
}

/// The rows and buttons per row of the grid for `num` options (see [`fits_first`]). The grids
/// tried never hold more than one and a half times `num` buttons and three more, so that the
/// number of buttons is counted without overflow as long as that bound fits in a `usize`.
pub fn compute_values(num: usize) -> (r: (usize, usize))
    requires
        3 * num + 6 <= 2 * usize::MAX,
    ensures
        fits_first(num as nat, (r.0 as nat, r.1 as nat)),
        2 * (r.0 * r.1) <= 3 * num + 6,
        r.0 * r.1 <= 5 * (num + 1),
{
    let mut first: usize = 1;
    let mut second: usize = 2;
    let ghost mut k: nat = 0;
    while num > first * second
        invariant
            3 * num + 6 <= 2 * usize::MAX,
            (first as nat, second as nat) == grid(k),
            1 <= first <= num + 1,
            2 <= second <= 5,
            2 * (first * second) <= 3 * num + 6,
            forall|j: nat| j < k ==> (#[trigger] grid(j)).0 * grid(j).1 < num,
        decreases 4 * num + 8 - (4 * first + second),
    {
        proof {
            lemma_grid_bounds(k);
            assert(first * second >= first * 2) by (nonlinear_arith)
                requires
                    second >= 2,
            ;
            assert forall|j: nat| j < k + 1 implies (#[trigger] grid(j)).0 * grid(j).1 < num by {
                if j < k {
                } else {
                    assert(j == k);
                }
            }
        }
        let ghost (f0, s0) = (first, second);
        second = second + 1;
        if second > 5 {
            first = first + 1;
            second = 3;
            proof {
                assert(f0 * 5 < num);
                assert(2 * (first * second) == 6 * f0 + 6) by (nonlinear_arith)
                    requires
                        first == f0 + 1,
                        second == 3,
                ;
            }
        } else {
            proof {
                assert(first * second == f0 * s0 + f0) by (nonlinear_arith)
                    requires
                        first == f0,
                        second == s0 + 1,
                ;
            }
        }
        proof {
            k = k + 1;
        }
    }
    proof {
        assert(first * second >= num);
        assert(grid(k) == (first as nat, second as nat));
        assert(first * second <= 5 * first) by (nonlinear_arith)
            requires
                second <= 5,
        ;
    }
    (first, second)
}


/// An entry of the category menu.
pub struct MenuEntry {
    pub label: String,
    pub value: String,
    pub description: String,
    pub emoji: ConfigEmoji,
    pub default_selection: bool,
}

/// A toggle button: its number and its id.
pub struct ConfigButton {
    pub label: usize,
    pub custom_id: String,
}

/// The content of a configuration message.
pub struct ConfigResponse {
    pub title: String,
    pub description: String,
    pub footer: String,
    pub color: u32,
    pub selector_id: String,
    pub menu: Vec<MenuEntry>,
    pub rows: Vec<Vec<ConfigButton>>,
}

/// `user` or `server`.
pub open spec fn scope_name(is_server: bool) -> Seq<char> {
    if is_server {
        "server"@
    } else {
        "user"@
    }
}

/// The first choice of `opts` named `v`.
pub open spec fn first_choice(opts: Seq<SubConfigOption>, v: Seq<char>) -> Option<SubConfigOption>
    decreases opts.len(),
{
    if opts.len() == 0 {
        None
    } else if opts[0].name@ == v {
        Some(opts[0])
    } else {
        first_choice(opts.drop_first(), v)
    }
}

/// The description of an option, in italics on a line of its own, if it has one.
pub open spec fn description_suffix(o: ConfigOption) -> Seq<char> {
    match o.description {
        Some(d) => "\n*"@ + d@ + "*"@,
        None => Seq::empty(),
    }
}

/// The line of the option `o`, numbered `number`: the emoji, name and text of its current
/// choice, marked when the user has it from the server's defaults. `None` where the current
/// choice cannot be read or is none of the option's choices.
pub open spec fn option_line(number: nat, o: ConfigOption, data: ConfigDataView, is_server: bool) -> Option<Seq<char>> {
    match value_from_all(data, o.name@, "value"@) {
        None => None,
        Some(v) => match first_choice(o.options@, v) {
            None => None,
            Some(sub) => {
                let marker: Option<Seq<char>> = if is_server {
                    Some(Seq::empty())
                } else {
                    match value_from_all(data, o.name@, "server_default"@) {
                        None => None,
                        Some(t) => match parse_bool(t) {
                            None => None,
                            Some(true) => Some(" <Server Default>"@),
                            Some(false) => Some(Seq::empty()),
                        },
                    }
                };
                match marker {
                    None => None,
                    Some(m) => Some(
                        "`"@ + decimal(number) + "]` "@ + sub.emoji@ + " • `"@ + o.fancy_name@ + "` • **"@
                            + sub.text@ + "**"@ + m + description_suffix(o),
                    ),
                }
            },
        },
    }
}

/// Law: an option's line ends in ` <Server Default>` exactly when the screen is a user's and the
/// user has the setting from the server's defaults; a setting of the user's own, and every line
/// of a server's screen, carries no marker (for options without a description line).
pub proof fn law_server_default_marker(number: nat, o: ConfigOption, data: ConfigDataView, is_server: bool)
    requires
        o.description is None,
        option_line(number, o, data, is_server) is Some,
    ensures
        ends_with(option_line(number, o, data, is_server).unwrap(), " <Server Default>"@) <==> (
        !is_server && value_from_all(data, o.name@, "server_default"@) == Some("true"@)),
{
    reveal_strlit(" <Server Default>");
    reveal_strlit("**");
    let l = option_line(number, o, data, is_server).unwrap();
    let v = value_from_all(data, o.name@, "value"@).unwrap();
    let sub = first_choice(o.options@, v).unwrap();
    let head = "`"@ + decimal(number) + "]` "@ + sub.emoji@ + " • `"@ + o.fancy_name@ + "` • **"@
        + sub.text@ + "**"@;
    let mk = " <Server Default>"@;
    assert(description_suffix(o) =~= Seq::<char>::empty());
    reveal_strlit("true");
    assert("true"@ =~= seq!['t', 'r', 'u', 'e']);
    if !is_server && value_from_all(data, o.name@, "server_default"@) == Some("true"@) {
        assert(parse_bool("true"@) == Some(true));
        assert(l =~= head + mk);
        assert(l.subrange(l.len() - mk.len(), l.len() as int) =~= mk);
    } else {
        if !is_server {
            let t = value_from_all(data, o.name@, "server_default"@).unwrap();
            assert(parse_bool(t) == Some(false)) by {
                if parse_bool(t) == Some(true) {
                    assert(t == seq!['t', 'r', 'u', 'e']);
                }
            }
        }
        assert(l =~= head + Seq::<char>::empty() + Seq::<char>::empty());
        assert(l.last() == '*');
        if ends_with(l, mk) {
            assert(l.subrange(l.len() - mk.len(), l.len() as int)[mk.len() - 1] == l.last());
        }
    }
}

/// The lines of the options `opts`, numbered from `start`.
pub open spec fn option_lines(opts: Seq<ConfigOption>, start: nat, data: ConfigDataView, is_server: bool) -> Option<
    Seq<Seq<char>>,
>
    decreases opts.len(),
{
    if opts.len() == 0 {
        Some(Seq::empty())
    } else {
        match (option_line(start, opts[0], data, is_server), option_lines(opts.drop_first(), start + 1, data, is_server)) {
            (Some(l), Some(rest)) => Some(seq![l] + rest),
            _ => None,
        }
    }
}

/// The lines joined by line breaks.
pub open spec fn join_lines(ls: Seq<Seq<char>>) -> Seq<char>
    decreases ls.len(),
{
    if ls.len() == 0 {
        Seq::empty()
    } else if ls.len() == 1 {
        ls[0]
    } else {
        join_lines(ls.drop_last()) + "\n"@ + ls.last()
    }
}

/// The id of toggle button `idx` of category `t`.
pub open spec fn button_id(t: ConfigType, is_server: bool, idx: int, now: u64) -> Seq<char> {
    "config_"@ + t.name@ + "_"@ + scope_name(is_server) + "_"@ + t.options@[idx].name@ + "_"@ + decimal(now as nat)
}

/// The categories offered in the menu: reminders then analysis, without server-only ones for a
/// user.
pub open spec fn menu_types<'a>(c: Configs<'a>, is_server: bool) -> Seq<ConfigType<'a>> {
    (if !(c.reminders.server_only && !is_server) {
        seq![c.reminders]
    } else {
        Seq::empty()
    }) + (if !(c.analysis.server_only && !is_server) {
        seq![c.analysis]
    } else {
        Seq::empty()
    })
}

/// The menu entry of category `t` when `current` is shown.
pub open spec fn is_menu_entry(e: MenuEntry, t: ConfigType, current: ConfigType) -> bool {
    &&& e.label@ == uppercase_first_spec(t.name@)
    &&& e.value@ == t.name@
    &&& e.description@ == "Config of "@ + uppercase_first_spec(t.name@) + "."@
    &&& e.emoji == t.emoji
    &&& e.default_selection == (t.name@ == current.name@)
}

/// The number of buttons in row `j` of a grid of rows of `cols` for `n` options.
pub open spec fn row_count(j: nat, cols: nat, n: nat) -> nat {
    if n <= j * cols {
        0
    } else if n - j * cols < cols {
        (n - j * cols) as nat
    } else {
        cols
    }
}

/// The toggle buttons of `t`, in rows of `cols`, one for each option, numbered from one.
pub open spec fn is_button_grid(rows: Seq<Vec<ConfigButton>>, nrows: nat, cols: nat, t: ConfigType, is_server: bool, now: u64) -> bool {
    &&& rows.len() == nrows
    &&& forall|j: int| 0 <= j < nrows ==> {
        &&& (#[trigger] rows[j])@.len() == row_count(j as nat, cols, t.options@.len())
        &&& forall|b: int| 0 <= b < rows[j]@.len() ==> {
            &&& (#[trigger] rows[j]@[b]).label == j * cols + b + 1
            &&& rows[j]@[b].custom_id@ == button_id(t, is_server, j * cols + b, now)
        }
    }
}

fn first_choice_exec<'a, 'b>(opts: &'b Vec<SubConfigOption<'a>>, v: &str) -> (r: Option<&'b SubConfigOption<'a>>)
    ensures
        match r {
            Some(sub) => first_choice(opts@, v@) == Some(*sub),
            None => first_choice(opts@, v@) is None,
        },
{
    let mut i: usize = 0;
    assert(opts@.skip(0) =~= opts@);
    while i < opts.len()
        invariant
            i <= opts@.len(),
            first_choice(opts@, v@) == first_choice(opts@.skip(i as int), v@),
        decreases opts@.len() - i,
    {
        assert(opts@.skip(i as int)[0] == opts@[i as int]);
        assert(opts@.skip(i as int).drop_first() =~= opts@.skip(i + 1));
        if str_equal(opts[i].name, v) {
            return Some(&opts[i]);
        }
        i = i + 1;
    }
    None
}

fn option_line_exec(number: usize, o: &ConfigOption, data: &ConfigData, is_server: bool) -> (r: Option<String>)
    ensures
        match r {
            Some(l) => option_line(number as nat, *o, data@, is_server) == Some(l@),
            None => option_line(number as nat, *o, data@, is_server) is None,
        },
{
    let v = match get_value_from_all(data, o.name, "value") {
        Some(v) => v,
        None => return None,
    };
    let sub = match first_choice_exec(&o.options, v.as_str()) {
        Some(sub) => sub,
        None => return None,
    };
    let mut marker: &str = "";
    if !is_server {
        let t = match get_value_from_all(data, o.name, "server_default") {
            Some(t) => t,
            None => return None,
        };
        match parse_bool_chars(&chars_of(t.as_str())) {
            None => return None,
            Some(true) => {
                marker = " <Server Default>";
            },
            Some(false) => {},
        }
    }
    proof {
        reveal_strlit("");
    }
    let mut out: Vec<char> = Vec::new();
    push_str(&mut out, "`");
    push_chars(&mut out, &decimal_chars(number as u128));
    push_str(&mut out, "]` ");
    push_str(&mut out, sub.emoji);
    push_str(&mut out, " • `");
    push_str(&mut out, o.fancy_name);
    push_str(&mut out, "` • **");
    push_str(&mut out, sub.text);
    push_str(&mut out, "**");
    push_str(&mut out, marker);
    match o.description {
        Some(d) => {
            push_str(&mut out, "\n*");
            push_str(&mut out, d);
            push_str(&mut out, "*");
        },
        None => {},
    }
    assert(out@ =~= option_line(number as nat, *o, data@, is_server).unwrap());
    Some(string_of(&out))
}


/// The toggle buttons of `t` laid out in the first grid with room for all of them.
pub open spec fn has_button_grid(rows: Seq<Vec<ConfigButton>>, t: ConfigType, is_server: bool, now: u64) -> bool {
    exists|nrows: nat, cols: nat|
        fits_first(t.options@.len(), (nrows, cols)) && #[trigger] is_button_grid(rows, nrows, cols, t, is_server, now)
}

fn menu_entry(t: &ConfigType, current: &ConfigType) -> (e: MenuEntry)
    ensures
        is_menu_entry(e, *t, *current),
{
    let label = uppercase_first(&t.name.to_owned());
    let mut d: Vec<char> = Vec::new();
    push_str(&mut d, "Config of ");
    push_str(&mut d, label.as_str());
    push_str(&mut d, ".");
    MenuEntry {
        label,
        value: t.name.to_owned(),
        description: string_of(&d),
        emoji: t.emoji,
        default_selection: str_equal(t.name, current.name),
    }
}

fn join_lines_exec(lines: &Vec<String>) -> (r: String)
    ensures
        r@ == join_lines(lines@.map_values(|l: String| l@)),
{
    let ghost ls = lines@.map_values(|l: String| l@);
    let mut out: Vec<char> = Vec::new();
    let mut i: usize = 0;
    assert(ls.take(0) =~= Seq::<Seq<char>>::empty());
    while i < lines.len()
        invariant
            i <= lines@.len(),
            ls == lines@.map_values(|l: String| l@),
            out@ == join_lines(ls.take(i as int)),
        decreases lines@.len() - i,
    {
        assert(ls.take(i + 1).drop_last() =~= ls.take(i as int));
        assert(ls.take(i + 1).last() == lines@[i as int]@);
        if i > 0 {
            push_str(&mut out, "\n");
        } else {
            assert(out@ =~= Seq::<char>::empty());
        }
        push_str(&mut out, lines[i].as_str());
        i = i + 1;
    }
    assert(ls.take(lines@.len() as int) =~= ls);
    string_of(&out)
}

fn button_id_exec(t: &ConfigType, is_server: bool, idx: usize, now: u64) -> (r: String)
    requires
        idx < t.options@.len(),
    ensures
        r@ == button_id(*t, is_server, idx as int, now),
{
    let mut out: Vec<char> = Vec::new();
    push_str(&mut out, "config_");
    push_str(&mut out, t.name);
    push_str(&mut out, "_");
    push_str(&mut out, if is_server { "server" } else { "user" });
    push_str(&mut out, "_");
    push_str(&mut out, t.options[idx].name);
    push_str(&mut out, "_");
    push_chars(&mut out, &decimal_chars(now as u128));
    assert(out@ =~= button_id(*t, is_server, idx as int, now));
    string_of(&out)
}

/// The content of the configuration message of category `config_type`, for a server
/// (`is_server`) or a user, given the configuration `data` that applies and the time `now`;
/// `None` where an option's current choice cannot be read.
pub fn create_config_response<'a>(
    configs: &Configs<'a>,
    config_type: &ConfigType<'a>,
    is_server: bool,
    data: &ConfigData,
    now: u64,
) -> (r: Option<ConfigResponse>)
    requires
        config_type.options@.len() <= usize::MAX / 8,
    ensures
        option_lines(config_type.options@, 1, data@, is_server) is None <==> r is None,
        match r {
            Some(sc) => {
                &&& sc.title@ == uppercase_first_spec(scope_name(is_server)) + " "@ + uppercase_first_spec(
                    config_type.name@,
                ) + " Config"@
                &&& sc.description@ == join_lines(option_lines(config_type.options@, 1, data@, is_server).unwrap())
                &&& sc.footer@ == "Use the Buttons below to toggle the attached option to it."@
                &&& sc.color == 15641224
                &&& sc.selector_id@ == "configTypeSelector_"@ + scope_name(is_server) + "_"@ + decimal(now as nat)
                &&& sc.menu@.len() == menu_types(*configs, is_server).len()
                &&& forall|i: int|
                    0 <= i < sc.menu@.len() ==> is_menu_entry(
                        #[trigger] sc.menu@[i],
                        menu_types(*configs, is_server)[i],
                        *config_type,
                    )
                &&& has_button_grid(sc.rows@, *config_type, is_server, now)
            },
            None => true,
        },
{
    let u_type: &str = if is_server { "server" } else { "user" };
    let mut sel: Vec<char> = Vec::new();
    push_str(&mut sel, "configTypeSelector_");
    push_str(&mut sel, u_type);
    push_str(&mut sel, "_");
    push_chars(&mut sel, &decimal_chars(now as u128));
    let mut menu: Vec<MenuEntry> = Vec::new();
    let types = config_types();
    let ghost mt = menu_types(*configs, is_server);
    let t0 = configs.index(types[0]);
    proof {
        reveal_strlit("reminders");
        reveal_strlit("analysis");
        assert(types@[0]@ != "analysis"@) by {
            assert(types@[0]@[0] != "analysis"@[0]);
        }
    }
    if !(t0.server_only && !is_server) {
        menu.push(menu_entry(t0, config_type));
    }
    let t1 = configs.index(types[1]);
    if !(t1.server_only && !is_server) {
        menu.push(menu_entry(t1, config_type));
    }
    assert(menu@.len() == mt.len());
    assert(forall|i: int| 0 <= i < menu@.len() ==> is_menu_entry(#[trigger] menu@[i], mt[i], *config_type));
    let n = config_type.options.len();
    let (nrows, cols) = compute_values(n);
    let mut rows: Vec<Vec<ConfigButton>> = Vec::new();
    let mut j: usize = 0;
    proof {
        let k = choose|k: nat| #[trigger] grid(k) == (nrows as nat, cols as nat) && (nrows * cols) as nat >= n as nat
            && forall|jj: nat| jj < k ==> (#[trigger] grid(jj)).0 * grid(jj).1 < n;
        lemma_grid_bounds(k);
    }
    assert(nrows >= 1 && 2 <= cols <= 5);
    while j < nrows
        invariant
            j <= nrows,
            nrows * cols <= 5 * (n + 1),
            n == config_type.options@.len(),
            n <= usize::MAX / 8,
            2 <= cols <= 5,
            nrows * cols >= n,
            rows@.len() == j,
            forall|jj: int| 0 <= jj < j ==> {
                &&& (#[trigger] rows@[jj])@.len() == row_count(jj as nat, cols as nat, n as nat)
                &&& forall|b: int| 0 <= b < rows@[jj]@.len() ==> {
                    &&& (#[trigger] rows@[jj]@[b]).label == jj * cols + b + 1
                    &&& rows@[jj]@[b].custom_id@ == button_id(*config_type, is_server, jj * cols + b, now)
                }
            },
        decreases nrows - j,
    {
        let mut row: Vec<ConfigButton> = Vec::new();
        let mut b: usize = 0;
        assert(j * cols <= nrows * cols) by (nonlinear_arith)
            requires
                j < nrows,
        ;
        assert(j * cols + cols == (j + 1) * cols) by (nonlinear_arith);
        while b < cols
            invariant
                b <= cols <= 5,
                j < nrows,
                j * cols <= nrows * cols,
                nrows * cols <= 5 * (n + 1),
                n == config_type.options@.len(),
                n <= usize::MAX / 8,
                row@.len() == (if n <= j * cols { 0int } else if n - j * cols < b { n - j * cols } else { b as int }),
                forall|bb: int| 0 <= bb < row@.len() ==> {
                    &&& (#[trigger] row@[bb]).label == j * cols + bb + 1
                    &&& row@[bb].custom_id@ == button_id(*config_type, is_server, j * cols + bb, now)
                },
            decreases cols - b,
        {
            let idx = j * cols + b;
            if idx < n {
                let id = button_id_exec(config_type, is_server, idx, now);
                row.push(ConfigButton { label: idx + 1, custom_id: id });
            }
            b = b + 1;
        }
        rows.push(row);
        j = j + 1;
    }
    let mut lines: Vec<String> = Vec::new();
    let mut i: usize = 0;
    assert(config_type.options@.skip(0) =~= config_type.options@);
    while i < n
        invariant
            i <= n == config_type.options@.len(),
            option_lines(config_type.options@, 1, data@, is_server) == match option_lines(
                config_type.options@.skip(i as int),
                (i + 1) as nat,
                data@,
                is_server,
            ) {
                Some(rest) => Some(lines@.map_values(|l: String| l@) + rest),
                None => None,
            },
        decreases n - i,
    {
        let ghost rest = config_type.options@.skip(i as int);
        assert(rest[0] == config_type.options@[i as int]);
        assert(rest.drop_first() =~= config_type.options@.skip(i + 1));
        match option_line_exec(i + 1, &config_type.options[i], data, is_server) {
            Some(l) => {
                let ghost before = lines@;
                lines.push(l);
                assert(lines@.map_values(|x: String| x@) =~= before.map_values(|x: String| x@).push(l@));
                proof {
                    match option_lines(config_type.options@.skip(i + 1), (i + 2) as nat, data@, is_server) {
                        Some(rest2) => {
                            assert(lines@.map_values(|x: String| x@) + rest2 =~= before.map_values(|x: String| x@)
                                + (seq![l@] + rest2));
                        },
                        None => {},
                    }
                }
            },
            None => {
                return None;
            },
        }
        i = i + 1;
    }
    assert(config_type.options@.skip(n as int) =~= Seq::<ConfigOption>::empty());
    assert(lines@.map_values(|l: String| l@) + Seq::<Seq<char>>::empty() =~= lines@.map_values(|l: String| l@));
    let description = join_lines_exec(&lines);
    let mut title: Vec<char> = Vec::new();
    push_str(&mut title, uppercase_first(&u_type.to_owned()).as_str());
    push_str(&mut title, " ");
    push_str(&mut title, uppercase_first(&config_type.name.to_owned()).as_str());
    push_str(&mut title, " Config");
    let sc = ConfigResponse {
        title: string_of(&title),
        description,
        footer: "Use the Buttons below to toggle the attached option to it.".to_owned(),
        color: 15641224,
        selector_id: string_of(&sel),
        menu,
        rows,
    };
    assert(is_button_grid(sc.rows@, nrows as nat, cols as nat, *config_type, is_server, now));
    assert(fits_first(config_type.options@.len(), (nrows as nat, cols as nat)));
    assert(sc.title@ == uppercase_first_spec(scope_name(is_server)) + " "@ + uppercase_first_spec(
        config_type.name@,
    ) + " Config"@);
    assert(sc.description@ == join_lines(option_lines(config_type.options@, 1, data@, is_server).unwrap()));
    assert(sc.selector_id@ == "configTypeSelector_"@ + scope_name(is_server) + "_"@ + decimal(now as nat));
    assert(sc.menu@.len() == menu_types(*configs, is_server).len());
    assert(forall|i: int|
        0 <= i < sc.menu@.len() ==> is_menu_entry(
            #[trigger] sc.menu@[i],
            menu_types(*configs, is_server)[i],
            *config_type,
        ));
    assert(sc.footer@ == "Use the Buttons below to toggle the attached option to it."@);
    assert(has_button_grid(sc.rows@, *config_type, is_server, now));
    Some(sc)
}

} // verus!

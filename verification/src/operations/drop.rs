use vstd::prelude::*;

use crate::text::{
    ascii_lowercase, ascii_lowercase_chars, byte_len, byte_len_chars, chars_of, decimal,
    decimal_chars, parse_bool, parse_bool_chars, parse_unsigned, parse_unsigned_chars, str_equal, push_chars, push_str, replace,
    replace_chars, split, split_chars, split_once, split_once_chars, string_of, trim,
    trim_chars, uppercase, uppercase_char, views, is_ascii, all_ascii, ascii_upper, is_whitespace,
    trim_start, trim_end, find, lemma_find, occurs_at, lemma_split_no_sep, lemma_split_single,
};
use crate::operations::message::EmbedFieldInfo;
use crate::utils::config_data::{value_from_all, get_value_from_all, ConfigData, ConfigDataView};
use crate::operations::message::{MessageInfo, SOFI_ID};
use crate::text::{contains, contains_chars, ends_with, ends_with_chars};
use crate::utils::cards_handler::{Character, CharacterView};

verus! {

/// A drop of the card game's bot (or the use of an extra drop).
pub open spec fn is_drop(m: MessageInfo) -> bool {
    m.author_id == SOFI_ID && (ends_with(m.content@, "is dropping the cards"@) || contains(
        m.content@,
        "Your extra drop is being used."@,
    ))
}

/// Whether `message` is a drop of the card game's bot.
pub fn filter(message: &MessageInfo) -> (r: bool)
    ensures
        r == is_drop(*message),
{
    let content = chars_of(message.content.as_str());
    message.author_id == SOFI_ID && (ends_with_chars(&content, &chars_of("is dropping the cards"))
        || contains_chars(&content, &chars_of("Your extra drop is being used.")))
}

/// The wishlist emoji shown in front of wishlist counts.
pub const WLEMOJI: &'static str = "<:wishlist:1061698988358779020>";

/// `k` spaces.
pub open spec fn spaces(k: nat) -> Seq<char> {
    Seq::new(k, |i: int| ' ')
}

/// How many spaces [`blank`] appends to a text of `b` bytes: up to `length` bytes, but never
/// past 11 bytes (one space at least).
pub open spec fn pad_count(b: nat, length: nat) -> nat {
    if b >= length {
        0
    } else if b >= 10 {
        1
    } else if length - b < 11 - b {
        (length - b) as nat
    } else {
        (11 - b) as nat
    }
}

/// `data` padded with spaces to `length` bytes, for short texts (see [`pad_count`]).
pub open spec fn blank_spec(data: Seq<char>, length: nat) -> Seq<char> {
    data + spaces(pad_count(byte_len(data), length))
}

/// Pads `data` with spaces to at least `length` bytes, stopping once it is longer than ten
/// bytes.
pub fn blank(data: String, length: usize) -> (r: String)
    ensures
        r@ == blank_spec(data@, length as nat),
{
    let mut d = chars_of(data.as_str());
    let b = byte_len_chars(&d);
    let len = length as u128;
    let count: u128 = if b >= len {
        0
    } else if b >= 10 {
        1
    } else if len - b < 11 - b {
        len - b
    } else {
        11 - b
    };
    assert(count == pad_count(b as nat, length as nat));
    let mut k: u128 = 0;
    while k < count
        invariant
            k <= count <= 11,
            d@ == data@ + spaces(k as nat),
        decreases count - k,
    {
        d.push(' ');
        k = k + 1;
        assert(d@ =~= data@ + spaces(k as nat));
    }
    string_of(&d)
}

/// A word with its first character in upper case.
pub open spec fn capitalized(w: Seq<char>) -> Seq<char> {
    if w.len() == 0 {
        w
    } else {
        uppercase(w[0]) + w.drop_first()
    }
}

/// The words, each capitalized and followed by a space.
pub open spec fn capitalized_words(ws: Seq<Seq<char>>) -> Seq<char>
    decreases ws.len(),
{
    if ws.len() == 0 {
        Seq::empty()
    } else {
        capitalized_words(ws.drop_last()) + capitalized(ws.last()) + seq![' ']
    }
}

/// `s` with the first character of each space-separated word in upper case, without leading
/// and trailing whitespace.
pub open spec fn uppercase_first_spec(s: Seq<char>) -> Seq<char> {
    trim(capitalized_words(split(s, seq![' '])))
}

/// Capitalizes each space-separated word of `s`.
pub fn uppercase_first(s: &String) -> (r: String)
    ensures
        r@ == uppercase_first_spec(s@),
{
    let sp = vec![' '];
    let words = split_chars(&chars_of(s.as_str()), &sp);
    assert(sp@ =~= seq![' ']);
    let ghost ws = split(s@, seq![' ']);
    let mut out: Vec<char> = Vec::new();
    let mut i: usize = 0;
    while i < words.len()
        invariant
            i <= words@.len(),
            views(words@) == ws,
            out@ == capitalized_words(ws.take(i as int)),
        decreases words@.len() - i,
    {
        let w = &words[i];
        assert(ws[i as int] == w@);
        let ghost before = out@;
        if w.len() > 0 {
            let up = uppercase_char(w[0]);
            push_chars(&mut out, &up);
            let mut j: usize = 1;
            while j < w.len()
                invariant
                    1 <= j <= w@.len(),
                    out@ == before + uppercase(w@[0]) + w@.subrange(1, j as int),
                decreases w@.len() - j,
            {
                out.push(w[j]);
                j = j + 1;
                assert(out@ =~= before + uppercase(w@[0]) + w@.subrange(1, j as int));
            }
            assert(w@.subrange(1, w@.len() as int) =~= w@.drop_first());
        }
        out.push(' ');
        assert(ws.take(i + 1).drop_last() =~= ws.take(i as int));
        assert(out@ =~= before + capitalized(w@) + seq![' ']);
        i = i + 1;
    }
    assert(ws.take(words@.len() as int) =~= ws);
    string_of(&trim_chars(&out))
}

/// A wishlist count as text: `?` when unknown.
pub open spec fn c_spec(c: Option<u32>) -> Seq<char> {
    match c {
        None => seq!['?'],
        Some(d) => decimal(d as nat),
    }
}

/// A wishlist count as text, `?` when unknown.
pub fn c(count: &Option<u32>) -> (r: String)
    ensures
        r@ == c_spec(*count),
{
    match count {
        None => string_of(&vec!['?']),
        Some(d) => string_of(&decimal_chars(*d as u128)),
    }
}

/// A generation as shown in a reply: nothing when unknown.
pub open spec fn g_spec(g: Option<u16>) -> Seq<char> {
    match g {
        None => Seq::empty(),
        Some(d) => "• `ɢ"@ + blank_spec(decimal(d as nat), 4) + "` "@,
    }
}

/// A generation as shown in a reply, nothing when unknown.
pub fn g(gen: &Option<u16>) -> (r: String)
    ensures
        r@ == g_spec(*gen),
{
    match gen {
        None => String::new(),
        Some(d) => {
            let mut out: Vec<char> = Vec::new();
            push_str(&mut out, "• `ɢ");
            let num = blank(string_of(&decimal_chars(*d as u128)), 4);
            push_str(&mut out, num.as_str());
            push_str(&mut out, "` ");
            string_of(&out)
        },
    }
}


/// One line of a wishlist reply: position, wishlist count, generation, name and series.
pub open spec fn card_line(
    index: Seq<char>,
    wl: Option<u32>,
    gen: Option<u16>,
    name: Seq<char>,
    series: Seq<char>,
) -> Seq<char> {
    "`"@ + index + "]` • "@ + WLEMOJI@ + " `"@ + blank_spec(c_spec(wl), 4) + "` "@ + g_spec(gen)
        + "• **"@ + uppercase_first_spec(name) + "** • "@ + uppercase_first_spec(series)
}

/// Appends one line of a wishlist reply (see [`card_line`]).
pub fn push_card_line(
    out: &mut Vec<char>,
    index: &str,
    wl: &Option<u32>,
    gen: &Option<u16>,
    name: &String,
    series: &String,
)
    ensures
        final(out)@ == old(out)@ + card_line(index@, *wl, *gen, name@, series@),
{
    push_str(out, "`");
    push_str(out, index);
    push_str(out, "]` • ");
    push_str(out, WLEMOJI);
    push_str(out, " `");
    push_str(out, blank(c(wl), 4).as_str());
    push_str(out, "` ");
    push_str(out, g(gen).as_str());
    push_str(out, "• **");
    push_str(out, uppercase_first(name).as_str());
    push_str(out, "** • ");
    push_str(out, uppercase_first(series).as_str());
    assert(out@ =~= old(out)@ + card_line(index@, *wl, *gen, name@, series@));
}

/// The reply to a drop: one line per card, then the mention and the time taken when asked for.
pub open spec fn drop_message(
    cards: Seq<CharacterView>,
    ping: bool,
    show_time: bool,
    userid: Seq<char>,
    time: nat,
) -> Seq<char> {
    card_line("1"@, cards[0].wl, cards[0].gen, cards[0].name, cards[0].series) + "\n"@ + card_line(
        "2"@,
        cards[1].wl,
        cards[1].gen,
        cards[1].name,
        cards[1].series,
    ) + "\n"@ + card_line("3"@, cards[2].wl, cards[2].gen, cards[2].name, cards[2].series) + "\n"@
        + (if ping {
        "<@"@ + userid + "> "@
    } else {
        Seq::empty()
    }) + (if show_time {
        "Took "@ + decimal(time) + "ms to produce."@
    } else {
        Seq::empty()
    })
}

/// The reply to a drop of (at least) three cards; every message type gets the same layout.
pub fn get_message(
    typ: &u8,
    cards: &Vec<Character>,
    ping: &bool,
    show_time: &bool,
    userid: &str,
    time: &u128,
) -> (r: String)
    requires
        cards@.len() >= 3,
    ensures
        r@ == drop_message(
            cards@.map_values(|c: Character| c@),
            *ping,
            *show_time,
            userid@,
            *time as nat,
        ),
{
    let ghost cv = cards@.map_values(|c: Character| c@);
    let mut out: Vec<char> = Vec::new();
    push_card_line(&mut out, "1", &cards[0].wl, &cards[0].gen, &cards[0].name, &cards[0].series);
    push_str(&mut out, "\n");
    push_card_line(&mut out, "2", &cards[1].wl, &cards[1].gen, &cards[1].name, &cards[1].series);
    push_str(&mut out, "\n");
    push_card_line(&mut out, "3", &cards[2].wl, &cards[2].gen, &cards[2].name, &cards[2].series);
    push_str(&mut out, "\n");
    let ghost lines = out@;
    if *ping {
        push_str(&mut out, "<@");
        push_str(&mut out, userid);
        push_str(&mut out, "> ");
    }
    let ghost with_ping = out@;
    if *show_time {
        push_str(&mut out, "Took ");
        push_chars(&mut out, &decimal_chars(*time));
        push_str(&mut out, "ms to produce.");
    }
    assert(cv[0] == cards@[0]@ && cv[1] == cards@[1]@ && cv[2] == cards@[2]@);
    assert(out@ =~= drop_message(cv, *ping, *show_time, userid@, *time as nat));
    string_of(&out)
}

/// The user a drop is for: the text between the first `<@` and the next `>` of its content,
/// the bot owner's id when there is none.
pub open spec fn drop_user_id_spec(content: Seq<char>) -> Seq<char> {
    let after = match split_once(content, "<@"@) {
        Some((_, b)) => b,
        None => Seq::empty(),
    };
    match split_once(after, ">"@) {
        Some((a, _)) => a,
        None => "353623899184824330"@,
    }
}

/// The user a drop is for (see [`drop_user_id_spec`]).
pub fn drop_user_id(content: &str) -> (r: String)
    ensures
        r@ == drop_user_id_spec(content@),
{
    let after = match split_once_chars(&chars_of(content), &chars_of("<@")) {
        Some((_, b)) => b,
        None => Vec::new(),
    };
    match split_once_chars(&after, &chars_of(">")) {
        Some((a, _)) => string_of(&a),
        None => String::from_str("353623899184824330"),
    }
}

/// A name or series as a drop's embed shows it, made comparable: code fences and line breaks
/// removed, trimmed, in ASCII lower case, and a trailing `-` (a cut-off text) written `...`.
pub open spec fn field_piece(x: Seq<char>) -> Seq<char> {
    let r = ascii_lowercase(
        trim(replace(replace(x, "```"@, Seq::empty()), "\n"@, Seq::empty())),
    );
    if r.len() > 0 && r.last() == '-' {
        r.drop_last() + "..."@
    } else {
        r
    }
}

/// Normalizes a name or series of a drop's embed (see [`field_piece`]).
pub fn read_field_piece(x: &Vec<char>) -> (r: Vec<char>)
    ensures
        r@ == field_piece(x@),
{
    proof {
        reveal_strlit("```");
        reveal_strlit("\n");
    }
    let empty: Vec<char> = Vec::new();
    let a = replace_chars(x, &chars_of("```"), &empty);
    let b = replace_chars(&a, &chars_of("\n"), &empty);
    assert(empty@ =~= Seq::<char>::empty());
    let mut r = ascii_lowercase_chars(&trim_chars(&b));
    let n = r.len();
    if n > 0 && r[n - 1] == '-' {
        r.pop();
        push_str(&mut r, "...");
    }
    r
}

/// The generation a drop's embed field names: the number after `Gen ` in the field's name,
/// 0 when it is no number up to 65535. `None` when the name has no `Gen `.
pub open spec fn field_gen(name: Seq<char>) -> Option<u16> {
    let pieces = split(name, "Gen "@);
    if pieces.len() < 2 {
        None
    } else {
        match parse_unsigned(trim(pieces[1]), 65535) {
            Some(g) => Some(g as u16),
            None => Some(0),
        }
    }
}

/// The card a drop's embed field shows: its value holds the name and the series, apart by an
/// empty line, and its name the generation. `None` when the value has no empty line, or the
/// name has no `Gen `.
pub open spec fn field_card(name: Seq<char>, value: Seq<char>) -> Option<CharacterView> {
    let ns = split(value, "\n\n"@);
    if ns.len() < 2 {
        None
    } else {
        match field_gen(name) {
            Some(g) => Some(
                CharacterView {
                    name: field_piece(ns[0]),
                    series: field_piece(ns[1]),
                    gen: Some(g),
                    wl: None,
                },
            ),
            None => None,
        }
    }
}

/// Reads the card of a drop's embed field (see [`field_card`]).
pub fn card_from_field(field: &EmbedFieldInfo) -> (r: Option<Character>)
    ensures
        match r {
            Some(c) => field_card(field.name@, field.value@) == Some(c@),
            None => field_card(field.name@, field.value@) is None,
        },
{
    proof {
        reveal_strlit("\n\n");
        reveal_strlit("Gen ");
    }
    let ns = split_chars(&chars_of(field.value.as_str()), &chars_of("\n\n"));
    assert(views(ns@).len() == ns@.len());
    if ns.len() < 2 {
        return None;
    }
    let pieces = split_chars(&chars_of(field.name.as_str()), &chars_of("Gen "));
    assert(views(pieces@).len() == pieces@.len());
    if pieces.len() < 2 {
        return None;
    }
    assert(views(pieces@)[1] == pieces@[1]@);
    assert(views(ns@)[0] == ns@[0]@);
    assert(views(ns@)[1] == ns@[1]@);
    let gen: u16 = match parse_unsigned_chars(&trim_chars(&pieces[1]), 65535) {
        Some(g) => g as u16,
        None => 0,
    };
    let name = read_field_piece(&ns[0]);
    let series = read_field_piece(&ns[1]);
    Some(Character { name: string_of(&name), series: string_of(&series), gen: Some(gen), wl: None })
}

/// The three cards of a drop's embed, read from its first three fields; `None` when there
/// are fewer fields or one of them cannot be read (see [`field_card`]).
pub open spec fn embed_cards(fields: Seq<EmbedFieldInfo>) -> Option<Seq<CharacterView>> {
    if fields.len() < 3 {
        None
    } else {
        match (
            field_card(fields[0].name@, fields[0].value@),
            field_card(fields[1].name@, fields[1].value@),
            field_card(fields[2].name@, fields[2].value@),
        ) {
            (Some(a), Some(b), Some(c)) => Some(seq![a, b, c]),
            _ => None,
        }
    }
}

/// Reads the three cards of a drop's embed (see [`embed_cards`]).
pub fn cards_from_fields(fields: &Vec<EmbedFieldInfo>) -> (r: Option<Vec<Character>>)
    ensures
        match r {
            Some(v) => embed_cards(fields@) == Some(v@.map_values(|c: Character| c@)),
            None => embed_cards(fields@) is None,
        },
{
    if fields.len() < 3 {
        return None;
    }
    let a = match card_from_field(&fields[0]) {
        Some(a) => a,
        None => return None,
    };
    let b = match card_from_field(&fields[1]) {
        Some(b) => b,
        None => return None,
    };
    let c = match card_from_field(&fields[2]) {
        Some(c) => c,
        None => return None,
    };
    let ghost views = seq![a@, b@, c@];
    let v = vec![a, b, c];
    assert(v@.map_values(|c: Character| c@) =~= views);
    Some(v)
}

/// Where the cards of a drop are read from.
pub enum DropSource {
    /// The drop's image at this address.
    Image(String),
    /// The drop's embed fields.
    Embed,
}

/// Where to read a drop's cards: the given image address, else the message's first
/// attachment, else its embed.
pub fn drop_source(attachment_urls: &Vec<String>, link: Option<String>) -> (r: DropSource)
    ensures
        match link {
            Some(l) => r == DropSource::Image(l),
            None => if attachment_urls@.len() > 0 {
                r matches DropSource::Image(u) && u@ == attachment_urls@[0]@
            } else {
                r is Embed
            },
        },
{
    match link {
        Some(l) => DropSource::Image(l),
        None => if attachment_urls.len() > 0 {
            DropSource::Image(attachment_urls[0].clone())
        } else {
            DropSource::Embed
        },
    }
}

/// Whether a drop starts a drop reminder: an extra drop does not.
pub fn drop_sets_reminder(content: &str) -> (r: bool)
    ensures
        r == !contains(content@, "Your extra drop is being used."@),
{
    !contains_chars(&chars_of(content), &chars_of("Your extra drop is being used."))
}

/// A drop's analysis settings, as the user's analysis configuration gives them.
pub struct DropSettings {
    /// Whether to read generations from a drop's image; `None` when the setting is no
    /// `true` or `false` (an image drop cannot be read then).
    pub show_gen: Option<bool>,
    /// The layout of the reply.
    pub typ: u8,
    /// Whether to mention the user.
    pub ping: bool,
    /// Whether to show how long the analysis took.
    pub show_time: bool,
    /// Whether to delete the reply after a minute.
    pub expire_delete: bool,
}

/// What a user's analysis configuration says of a drop.
pub enum DropConfig {
    /// Analysis is off.
    Disabled,
    /// Analysis is on, with these settings.
    Enabled(DropSettings),
    /// A setting is missing, or its value is not of the kind it should be.
    Unreadable,
}

/// The `value` field of the setting `key` of an analysis configuration.
pub open spec fn analysis_value(config: ConfigDataView, key: Seq<char>) -> Option<Seq<char>> {
    value_from_all(config, key, "value"@)
}

/// What the analysis configuration `config` says of a drop: off unless `enabled` is `true`;
/// the layout a number up to 255, `ping` and `show-time` each `true` or `false`.
pub open spec fn drop_config_spec(config: ConfigDataView) -> DropConfig {
    match analysis_value(config, "enabled"@) {
        None => DropConfig::Unreadable,
        Some(e) => if e != "true"@ {
            DropConfig::Disabled
        } else {
            match (
                analysis_value(config, "show-gen"@),
                analysis_value(config, "type"@),
                analysis_value(config, "ping"@),
                analysis_value(config, "show-time"@),
                analysis_value(config, "expire-delete"@),
            ) {
                (Some(sg), Some(t), Some(p), Some(st), Some(ed)) => match (
                    parse_unsigned(t, 255),
                    parse_bool(p),
                    parse_bool(st),
                ) {
                    (Some(t), Some(p), Some(st)) => DropConfig::Enabled(
                        DropSettings {
                            show_gen: parse_bool(sg),
                            typ: t as u8,
                            ping: p,
                            show_time: st,
                            expire_delete: ed == "true"@,
                        },
                    ),
                    _ => DropConfig::Unreadable,
                },
                _ => DropConfig::Unreadable,
            }
        },
    }
}

/// Law: analysis is off exactly when its `enabled` setting reads as anything but `true`; when it
/// is on, each setting of the drop is read from the configuration entry of its own name: the
/// mention from `ping`, the timing line from `show-time`, the deletion from `expire-delete`, the
/// generations from `show-gen` and the layout from `type`.
pub proof fn law_drop_config_reads_each_setting(config: ConfigDataView)
    ensures
        (drop_config_spec(config) is Disabled) <==> (analysis_value(config, "enabled"@) is Some
            && analysis_value(config, "enabled"@) != Some("true"@)),
        drop_config_spec(config) matches DropConfig::Enabled(st) ==> {
            &&& analysis_value(config, "enabled"@) == Some("true"@)
            &&& analysis_value(config, "ping"@) matches Some(p) && parse_bool(p) == Some(st.ping)
            &&& analysis_value(config, "show-time"@) matches Some(t) && parse_bool(t) == Some(st.show_time)
            &&& analysis_value(config, "expire-delete"@) matches Some(d) && st.expire_delete == (d
                == "true"@)
            &&& analysis_value(config, "show-gen"@) matches Some(g) && st.show_gen == parse_bool(g)
            &&& analysis_value(config, "type"@) matches Some(y) && parse_unsigned(y, 255) == Some(
                st.typ as nat,
            )
        },
{
}

/// Reads a drop's settings from the user's analysis configuration (see [`drop_config_spec`]).
pub fn drop_config(config: &ConfigData) -> (r: DropConfig)
    ensures
        r == drop_config_spec(config@),
{
    let enabled = match get_value_from_all(config, "enabled", "value") {
        Some(e) => e,
        None => return DropConfig::Unreadable,
    };
    if !str_equal(enabled.as_str(), "true") {
        return DropConfig::Disabled;
    }
    let sg = match get_value_from_all(config, "show-gen", "value") {
        Some(v) => v,
        None => return DropConfig::Unreadable,
    };
    let t = match get_value_from_all(config, "type", "value") {
        Some(v) => v,
        None => return DropConfig::Unreadable,
    };
    let p = match get_value_from_all(config, "ping", "value") {
        Some(v) => v,
        None => return DropConfig::Unreadable,
    };
    let st = match get_value_from_all(config, "show-time", "value") {
        Some(v) => v,
        None => return DropConfig::Unreadable,
    };
    let ed = match get_value_from_all(config, "expire-delete", "value") {
        Some(v) => v,
        None => return DropConfig::Unreadable,
    };
    let typ = match parse_unsigned_chars(&chars_of(t.as_str()), 255) {
        Some(v) => v as u8,
        None => return DropConfig::Unreadable,
    };
    let ping = match parse_bool_chars(&chars_of(p.as_str())) {
        Some(v) => v,
        None => return DropConfig::Unreadable,
    };
    let show_time = match parse_bool_chars(&chars_of(st.as_str())) {
        Some(v) => v,
        None => return DropConfig::Unreadable,
    };
    DropConfig::Enabled(
        DropSettings {
            show_gen: parse_bool_chars(&chars_of(sg.as_str())),
            typ,
            ping,
            show_time,
            expire_delete: str_equal(ed.as_str(), "true"),
        },
    )
}

/// `s` with every character that starts a space-separated word in ASCII upper case.
pub open spec fn capitalize_chars(s: Seq<char>) -> Seq<char> {
    Seq::new(
        s.len(),
        |i: int|
            if i == 0 || s[i - 1] == ' ' {
                ascii_upper(s[i])
            } else {
                s[i]
            },
    )
}

proof fn lemma_ascii_upper(c: char)
    requires
        is_ascii(c),
    ensures
        is_ascii(ascii_upper(c)),
        ascii_upper(ascii_upper(c)) == ascii_upper(c),
        ascii_upper(c) == ' ' <==> c == ' ',
        is_whitespace(ascii_upper(c)) <==> is_whitespace(c),
{
}

proof fn lemma_capitalized_ascii(w: Seq<char>)
    requires
        all_ascii(w),
    ensures
        capitalized(w) == Seq::new(w.len(), |i: int| if i == 0 { ascii_upper(w[0]) } else { w[i] }),
{
    if w.len() > 0 {
        assert(is_ascii(w[0]));
        assert(capitalized(w) =~= Seq::new(w.len(), |i: int| if i == 0 { ascii_upper(w[0]) } else { w[i] }));
    } else {
        assert(capitalized(w) =~= Seq::new(w.len(), |i: int| if i == 0 { ascii_upper(w[0]) } else { w[i] }));
    }
}

proof fn lemma_capitalized_words_append(a: Seq<Seq<char>>, b: Seq<Seq<char>>)
    ensures
        capitalized_words(a + b) == capitalized_words(a) + capitalized_words(b),
    decreases b.len(),
{
    if b.len() == 0 {
        assert(a + b =~= a);
        assert(capitalized_words(a) + capitalized_words(b) =~= capitalized_words(a));
    } else {
        assert((a + b).drop_last() =~= a + b.drop_last());
        assert((a + b).last() == b.last());
        lemma_capitalized_words_append(a, b.drop_last());
        assert(capitalized_words(a + b) =~= capitalized_words(a) + capitalized_words(b));
    }
}

proof fn lemma_capitalized_words_one(w: Seq<char>)
    ensures
        capitalized_words(seq![w]) == capitalized(w) + seq![' '],
{
    let ws = seq![w];
    assert(ws.drop_last() =~= Seq::<Seq<char>>::empty());
    assert(capitalized_words(ws.drop_last()) == Seq::<char>::empty());
    assert(ws.last() == w);
    assert(capitalized_words(ws) =~= capitalized(w) + seq![' ']);
}

/// Capitalizing the space-separated words of ASCII text, each followed by a space, is
/// capitalizing its characters that start a word, then adding a space.
proof fn lemma_capitalized_words_split(s: Seq<char>)
    requires
        all_ascii(s),
    ensures
        capitalized_words(split(s, seq![' '])) == capitalize_chars(s).push(' '),
    decreases s.len(),
{
    let sp = seq![' '];
    lemma_find(s, sp);
    match find(s, sp) {
        Some(k) => {
            let k = k as int;
            assert(s.subrange(k, k + 1)[0] == s[k]);
            let w = s.take(k);
            let rest = s.skip(k + 1);
            assert(s =~= w + sp + rest);
            assert(!w.contains(' ')) by {
                if w.contains(' ') {
                    let j = choose|j: int| 0 <= j < w.len() && w[j] == ' ';
                    assert(s.subrange(j, j + 1) =~= sp);
                    assert(occurs_at(s, sp, j));
                }
            }
            lemma_split_single(w, ' ', rest);
            assert(split(s, sp) == seq![w] + split(rest, sp));
            lemma_capitalized_words_append(seq![w], split(rest, sp));
            lemma_capitalized_words_one(w);
            assert(all_ascii(rest)) by {
                assert forall|i: int| 0 <= i < rest.len() implies is_ascii(#[trigger] rest[i]) by {
                    assert(rest[i] == s[i + k + 1]);
                }
            }
            assert(all_ascii(w)) by {
                assert forall|i: int| 0 <= i < w.len() implies is_ascii(#[trigger] w[i]) by {
                    assert(w[i] == s[i]);
                }
            }
            lemma_capitalized_words_split(rest);
            lemma_capitalized_ascii(w);
            let lhs = capitalize_chars(s).push(' ');
            let rhs = capitalized(w) + seq![' '] + capitalize_chars(rest).push(' ');
            assert forall|i: int| 0 <= i < lhs.len() implies lhs[i] == rhs[i] by {
                if i < k {
                    assert(s[i] == w[i]);
                    if i > 0 {
                        assert(s[i - 1] == w[i - 1]);
                        assert(w[i - 1] != ' ');
                    }
                } else if i == k {
                    assert(is_ascii(s[k]));
                    lemma_ascii_upper(s[k]);
                } else if i < s.len() {
                    assert(s[i] == rest[i - k - 1]);
                    if i > k + 1 {
                        assert(s[i - 1] == rest[i - k - 2]);
                    }
                }
            }
            assert(lhs =~= rhs);
        },
        None => {
            assert(!s.contains(' ')) by {
                if s.contains(' ') {
                    let j = choose|j: int| 0 <= j < s.len() && s[j] == ' ';
                    assert(s.subrange(j, j + 1) =~= sp);
                    assert(occurs_at(s, sp, j));
                }
            }
            lemma_split_no_sep(s, ' ');
            lemma_capitalized_words_one(s);
            lemma_capitalized_ascii(s);
            assert forall|i: int| 0 <= i < s.len() implies #[trigger] s[i] != ' ' by {
                assert(s.contains(s[i]));
            }
            assert(capitalize_chars(s).push(' ') =~= capitalized(s) + seq![' ']);
        },
    }
}

/// The whitespace that `trim_start` takes off: `trim_start(x)` is `x` from `a` on.
proof fn lemma_trim_start(x: Seq<char>) -> (a: int)
    ensures
        0 <= a <= x.len(),
        trim_start(x) == x.skip(a),
        forall|i: int| 0 <= i < a ==> is_whitespace(#[trigger] x[i]),
        a < x.len() ==> !is_whitespace(x[a]),
    decreases x.len(),
{
    if x.len() > 0 && is_whitespace(x[0]) {
        let a0 = lemma_trim_start(x.drop_first());
        assert(x.drop_first().skip(a0) =~= x.skip(a0 + 1));
        assert forall|i: int| 0 <= i < a0 + 1 implies is_whitespace(#[trigger] x[i]) by {
            if i > 0 {
                assert(x[i] == x.drop_first()[i - 1]);
            }
        }
        a0 + 1
    } else {
        assert(x.skip(0) =~= x);
        0
    }
}

/// The whitespace that `trim_end` takes off: `trim_end(y)` is `y` up to `b`.
proof fn lemma_trim_end(y: Seq<char>) -> (b: int)
    ensures
        0 <= b <= y.len(),
        trim_end(y) == y.take(b),
        forall|i: int| b <= i < y.len() ==> is_whitespace(#[trigger] y[i]),
        b > 0 ==> !is_whitespace(y[b - 1]),
    decreases y.len(),
{
    if y.len() > 0 && is_whitespace(y.last()) {
        let b0 = lemma_trim_end(y.drop_last());
        assert(y.drop_last().take(b0) =~= y.take(b0));
        assert forall|i: int| b0 <= i < y.len() implies is_whitespace(#[trigger] y[i]) by {
            if i < y.len() - 1 {
                assert(y[i] == y.drop_last()[i]);
            }
        }
        b0
    } else {
        assert(y.take(y.len() as int) =~= y);
        y.len() as int
    }
}

/// Law: capitalizing the words of ASCII text whose only whitespace is the space a second time
/// changes nothing.
pub proof fn law_uppercase_first_idempotent(s: Seq<char>)
    requires
        all_ascii(s),
        forall|i: int| 0 <= i < s.len() ==> (is_whitespace(#[trigger] s[i]) ==> s[i] == ' '),
    ensures
        uppercase_first_spec(uppercase_first_spec(s)) == uppercase_first_spec(s),
{
    let u = capitalize_chars(s).push(' ');
    lemma_capitalized_words_split(s);
    assert(uppercase_first_spec(s) == trim(u));
    assert forall|i: int| 0 <= i < u.len() implies is_ascii(#[trigger] u[i]) && (is_whitespace(u[i])
        <==> u[i] == ' ') by {
        if i < s.len() {
            assert(is_ascii(s[i]));
            lemma_ascii_upper(s[i]);
        }
    }
    let a = lemma_trim_start(u);
    let y = u.skip(a);
    let b = lemma_trim_end(y);
    let t = y.take(b);
    assert(uppercase_first_spec(s) == t);
    // `t` is `u` from `a` to `a + b`.
    assert forall|i: int| 0 <= i < t.len() implies #[trigger] t[i] == u[a + i] by {}
    assert(all_ascii(t)) by {
        assert forall|i: int| 0 <= i < t.len() implies is_ascii(#[trigger] t[i]) by {
            assert(t[i] == u[a + i]);
        }
    }
    // Its characters are already capitalized.
    assert forall|i: int| 0 <= i < t.len() implies #[trigger] capitalize_chars(t)[i] == t[i] by {
        assert(t[i] == u[a + i]);
        if i == 0 {
            // Everything before `a` is a space, so `u[a]` starts a word.
            if a < s.len() {
                if a > 0 {
                    assert(is_whitespace(u[a - 1]));
                    assert(u[a - 1] == capitalize_chars(s)[a - 1]);
                    assert(is_ascii(s[a - 1]));
                    lemma_ascii_upper(s[a - 1]);
                    if s[a - 1] != ' ' {
                        assert(capitalize_chars(s)[a - 1] == s[a - 1] || capitalize_chars(s)[a - 1]
                            == ascii_upper(s[a - 1]));
                    }
                }
                assert(is_ascii(s[a]));
                lemma_ascii_upper(s[a]);
            }
        } else if t[i - 1] == ' ' {
            assert(t[i - 1] == u[a + i - 1]);
            if a + i < s.len() {
                assert(u[a + i - 1] == capitalize_chars(s)[a + i - 1]);
                assert(is_ascii(s[a + i - 1]));
                lemma_ascii_upper(s[a + i - 1]);
                if s[a + i - 1] != ' ' {
                    assert(capitalize_chars(s)[a + i - 1] == s[a + i - 1] || capitalize_chars(s)[a
                        + i - 1] == ascii_upper(s[a + i - 1]));
                }
                assert(is_ascii(s[a + i]));
                lemma_ascii_upper(s[a + i]);
            }
        }
    }
    assert(capitalize_chars(t) =~= t);
    lemma_capitalized_words_split(t);
    assert(uppercase_first_spec(t) == trim(t.push(' ')));
    // `t` starts and ends with no whitespace, so trimming `t` and a space gives `t`.
    if t.len() == 0 {
        assert(trim_start(t.push(' ')) == trim_start(t.push(' ').drop_first()));
        assert(t.push(' ').drop_first() =~= Seq::<char>::empty());
    } else {
        assert(t[0] == y[0]);
        assert(!is_whitespace(t[0]));
        assert(t.push(' ')[0] == t[0]);
        assert(trim_start(t.push(' ')) == t.push(' '));
        assert(t.push(' ').drop_last() =~= t);
        assert(trim_end(t.push(' ')) == trim_end(t));
        assert(t.last() == y[b - 1]);
        assert(trim_end(t) == t);
    }
}

} // verus!

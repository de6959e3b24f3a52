use vstd::prelude::*;

use crate::operations::message::{
    first_description_contains, first_title_contains, opt_text, text_contains, text_is, EmbedInfo,
    MessageInfo, SOFI_ID,
};
use crate::text::{
    chars_of, contains, contains_chars, parse_unsigned, parse_unsigned_chars, split, split_chars,
    split_once, split_once_chars, starts_with, starts_with_chars, string_of, trim, trim_chars, views,
};
use crate::utils::cards_handler::{Character, CharacterView};
use crate::utils::series_handler::{Series, SeriesView};

verus! {

/// Any message of the card game's bot, which may carry wishlist counts.
pub open spec fn is_from_sofi(m: MessageInfo) -> bool {
    m.author_id == SOFI_ID
}

/// Whether `message` comes from the card game's bot.
pub fn filter(message: &MessageInfo) -> (r: bool)
    ensures
        r == is_from_sofi(*message),
{
    message.author_id == SOFI_ID
}


/// A wishlist count read from a message: for a card or for a series.
pub enum WishlistUpdate {
    Card(Character),
    Series(Series),
}

pub enum UpdateView {
    Card(CharacterView),
    Series(SeriesView),
}

impl View for WishlistUpdate {
    type V = UpdateView;

    open spec fn view(&self) -> UpdateView {
        match self {
            WishlistUpdate::Card(c) => UpdateView::Card(c@),
            WishlistUpdate::Series(s) => UpdateView::Series(s@),
        }
    }
}

/// The updates read from a message, in order, and whether reading reached its end (it stops at
/// the first piece it cannot read; the updates before it are still sent).
pub struct Scan {
    pub updates: Vec<WishlistUpdate>,
    pub complete: bool,
}

/// The text after the first `open`, trimmed.
pub open spec fn after(x: Seq<char>, open: Seq<char>) -> Option<Seq<char>> {
    match split_once(x, open) {
        Some((_, rest)) => Some(trim(rest)),
        None => None,
    }
}

/// The text between the first `open` and the first `close` after it, trimmed.
pub open spec fn between(x: Seq<char>, open: Seq<char>, close: Seq<char>) -> Option<Seq<char>> {
    match split_once(x, open) {
        Some((_, rest)) => match split_once(rest, close) {
            Some((mid, _)) => Some(trim(mid)),
            None => None,
        },
        None => None,
    }
}

/// The count written between `open` and `close`.
pub open spec fn count_between(x: Seq<char>, open: Seq<char>, close: Seq<char>) -> Option<u32> {
    match between(x, open, close) {
        Some(t) => match parse_unsigned(t, u32::MAX as nat) {
            Some(v) => Some(v as u32),
            None => None,
        },
        None => None,
    }
}

pub fn after_chars(x: &Vec<char>, open: &str) -> (r: Option<Vec<char>>)
    ensures
        match r {
            Some(v) => after(x@, open@) == Some(v@),
            None => after(x@, open@) is None,
        },
{
    match split_once_chars(x, &chars_of(open)) {
        Some((_, rest)) => Some(trim_chars(&rest)),
        None => None,
    }
}

pub fn between_chars(x: &Vec<char>, open: &str, close: &str) -> (r: Option<Vec<char>>)
    ensures
        match r {
            Some(v) => between(x@, open@, close@) == Some(v@),
            None => between(x@, open@, close@) is None,
        },
{
    match split_once_chars(x, &chars_of(open)) {
        Some((_, rest)) => match split_once_chars(&rest, &chars_of(close)) {
            Some((mid, _)) => Some(trim_chars(&mid)),
            None => None,
        },
        None => None,
    }
}

pub fn count_between_chars(x: &Vec<char>, open: &str, close: &str) -> (r: Option<u32>)
    ensures
        r == count_between(x@, open@, close@),
{
    match between_chars(x, open, close) {
        Some(t) => match parse_unsigned_chars(&t, 4294967295u64) {
            Some(v) => Some(v as u32),
            None => None,
        },
        None => None,
    }
}

/// How the lines of a wishlist listing are read.
#[derive(PartialEq, Eq, Structural, Clone, Copy)]
pub enum LineKind {
    /// A card of a series collection: `**name**` and `❤️ `count``.
    CollectedCard,
    /// A line of a characters lookup: `` ` •  **name** ``, `• *series*` and `❤️ count``.
    CharactersLookup,
    /// A line of a series listing: `**name**` and `❤️ `count``; the listing ends at the first
    /// line without `❤️ ``.
    SeriesList,
    /// A line of the characters leaderboard: `` ` • **name** • *series* `` and `> `count``.
    LeaderboardCharacters,
    /// A line of a wishlist-sorted listing: `**name**`, `•  *series*` and `> `count``.
    SortedByWishlist,
    /// A line of the series leaderboard: `` ` • **name** `` and `> `count``.
    LeaderboardSeries,
}

pub open spec fn card_update(name: Option<Seq<char>>, series: Option<Seq<char>>, wl: Option<u32>) -> Option<
    Option<UpdateView>,
> {
    match (name, series, wl) {
        (Some(n), Some(s), Some(w)) => Some(
            Some(UpdateView::Card(CharacterView { name: n, series: s, gen: None, wl: Some(w) })),
        ),
        _ => None,
    }
}

pub open spec fn series_update(name: Option<Seq<char>>, wl: Option<u32>) -> Option<Option<UpdateView>> {
    match (name, wl) {
        (Some(n), Some(w)) => Some(Some(UpdateView::Series(SeriesView { name: n, wl: Some(w) }))),
        _ => None,
    }
}

/// What one line gives: `None` where it cannot be read, `Some(None)` where the listing ends.
/// `series` is the series of a collection.
pub open spec fn read_line(kind: LineKind, x: Seq<char>, series: Seq<char>) -> Option<Option<UpdateView>> {
    match kind {
        LineKind::CollectedCard => card_update(
            between(x, "**"@, "**"@),
            Some(series),
            count_between(x, "❤️ `"@, "`"@),
        ),
        LineKind::CharactersLookup => card_update(
            between(x, "` •  **"@, "**"@),
            between(x, "• *"@, "*"@),
            count_between(x, "❤️ "@, "`"@),
        ),
        LineKind::SeriesList => if !contains(x, "❤️ `"@) {
            Some(None)
        } else {
            series_update(between(x, "**"@, "**"@), count_between(x, "❤️ `"@, "`"@))
        },
        LineKind::LeaderboardCharacters => card_update(
            between(x, "` • **"@, "** • *"@),
            between(x, "** • *"@, "*"@),
            count_between(x, "> `"@, "`"@),
        ),
        LineKind::SortedByWishlist => card_update(
            between(x, "**"@, "**"@),
            between(x, "•  *"@, "*"@),
            count_between(x, "> `"@, "`"@),
        ),
        LineKind::LeaderboardSeries => series_update(
            between(x, "` • **"@, "**"@),
            count_between(x, "> `"@, "`"@),
        ),
    }
}

fn make_card(name: Option<Vec<char>>, series: Option<Vec<char>>, wl: Option<u32>) -> (r: Option<Option<WishlistUpdate>>)
    ensures
        match r {
            Some(Some(u)) => card_update(
                match name { Some(n) => Some(n@), None => None },
                match series { Some(s) => Some(s@), None => None },
                wl,
            ) == Some(Some(u@)),
            Some(None) => false,
            None => card_update(
                match name { Some(n) => Some(n@), None => None },
                match series { Some(s) => Some(s@), None => None },
                wl,
            ) is None,
        },
{
    match (name, series, wl) {
        (Some(n), Some(s), Some(w)) => Some(
            Some(WishlistUpdate::Card(Character { name: string_of(&n), series: string_of(&s), gen: None, wl: Some(w) })),
        ),
        _ => None,
    }
}

fn make_series(name: Option<Vec<char>>, wl: Option<u32>) -> (r: Option<Option<WishlistUpdate>>)
    ensures
        match r {
            Some(Some(u)) => series_update(match name { Some(n) => Some(n@), None => None }, wl) == Some(Some(u@)),
            Some(None) => false,
            None => series_update(match name { Some(n) => Some(n@), None => None }, wl) is None,
        },
{
    match (name, wl) {
        (Some(n), Some(w)) => Some(Some(WishlistUpdate::Series(Series { name: string_of(&n), wl: Some(w) }))),
        _ => None,
    }
}

/// Reads one line (see [`read_line`]).
pub fn read_line_chars(kind: LineKind, x: &Vec<char>, series: &Vec<char>) -> (r: Option<Option<WishlistUpdate>>)
    ensures
        match r {
            Some(Some(u)) => read_line(kind, x@, series@) == Some(Some(u@)),
            Some(None) => read_line(kind, x@, series@) == Some(None::<UpdateView>),
            None => read_line(kind, x@, series@) is None,
        },
{
    match kind {
        LineKind::CollectedCard => make_card(
            between_chars(x, "**", "**"),
            Some(series.clone()),
            count_between_chars(x, "❤️ `", "`"),
        ),
        LineKind::CharactersLookup => make_card(
            between_chars(x, "` •  **", "**"),
            between_chars(x, "• *", "*"),
            count_between_chars(x, "❤️ ", "`"),
        ),
        LineKind::SeriesList => if !contains_chars(x, &chars_of("❤️ `")) {
            Some(None)
        } else {
            make_series(between_chars(x, "**", "**"), count_between_chars(x, "❤️ `", "`"))
        },
        LineKind::LeaderboardCharacters => make_card(
            between_chars(x, "` • **", "** • *"),
            between_chars(x, "** • *", "*"),
            count_between_chars(x, "> `", "`"),
        ),
        LineKind::SortedByWishlist => make_card(
            between_chars(x, "**", "**"),
            between_chars(x, "•  *", "*"),
            count_between_chars(x, "> `", "`"),
        ),
        LineKind::LeaderboardSeries => make_series(
            between_chars(x, "` • **", "**"),
            count_between_chars(x, "> `", "`"),
        ),
    }
}

/// The updates of a listing, line by line, up to its end or to the first line that cannot be
/// read; and whether it was read to its end.
pub open spec fn read_lines(kind: LineKind, lines: Seq<Seq<char>>, series: Seq<char>) -> (Seq<UpdateView>, bool)
    decreases lines.len(),
{
    if lines.len() == 0 {
        (Seq::empty(), true)
    } else {
        match read_line(kind, lines[0], series) {
            None => (Seq::empty(), false),
            Some(None) => (Seq::empty(), true),
            Some(Some(u)) => {
                let rest = read_lines(kind, lines.drop_first(), series);
                (seq![u] + rest.0, rest.1)
            },
        }
    }
}

pub open spec fn updates_view(v: Seq<WishlistUpdate>) -> Seq<UpdateView> {
    v.map_values(|u: WishlistUpdate| u@)
}

/// Reads the lines of `text` (see [`read_lines`]), appending the updates to `out`; returns
/// whether the listing was read to its end.
pub fn read_listing(kind: LineKind, text: &Vec<char>, series: &Vec<char>, out: &mut Vec<WishlistUpdate>) -> (complete: bool)
    ensures
        updates_view(final(out)@) == updates_view(old(out)@) + read_lines(kind, split(text@, seq!['\n']), series@).0,
        complete == read_lines(kind, split(text@, seq!['\n']), series@).1,
{
    let nl = vec!['\n'];
    assert(nl@ =~= seq!['\n']);
    let lines = split_chars(text, &nl);
    let ghost ls = split(text@, seq!['\n']);
    let mut i: usize = 0;
    assert(ls.skip(0) =~= ls);
    assert(updates_view(out@) =~= updates_view(old(out)@) + Seq::<UpdateView>::empty());
    while i < lines.len()
        invariant
            i <= lines@.len(),
            views(lines@) == ls,
            ls == split(text@, seq!['\n']),
            updates_view(out@) + read_lines(kind, ls.skip(i as int), series@).0 == updates_view(old(out)@)
                + read_lines(kind, ls, series@).0,
            read_lines(kind, ls.skip(i as int), series@).1 == read_lines(kind, ls, series@).1,
        decreases lines@.len() - i,
    {
        let ghost rest = ls.skip(i as int);
        assert(rest[0] == lines@[i as int]@);
        assert(rest.drop_first() =~= ls.skip(i + 1));
        let ghost before = out@;
        match read_line_chars(kind, &lines[i], series) {
            None => {
                assert(read_line(kind, rest[0], series@) is None);
                assert(read_lines(kind, rest, series@).0 =~= Seq::<UpdateView>::empty());
                assert(!read_lines(kind, rest, series@).1);
                assert(updates_view(out@) + read_lines(kind, rest, series@).0 =~= updates_view(out@));
                return false;
            },
            Some(None) => {
                assert(updates_view(out@) =~= updates_view(out@) + Seq::<UpdateView>::empty());
                return true;
            },
            Some(Some(u)) => {
                let ghost uv = u@;
                out.push(u);
                assert(updates_view(out@) =~= updates_view(before).push(uv));
                assert(updates_view(out@) + read_lines(kind, ls.skip(i + 1), series@).0 =~= updates_view(
                    before,
                ) + read_lines(kind, rest, series@).0);
            },
        }
        i = i + 1;
    }
    assert(ls.skip(i as int) =~= Seq::<Seq<char>>::empty());
    assert(updates_view(out@) =~= updates_view(out@) + Seq::<UpdateView>::empty());
    true
}


/// Whether a line of a card lookup carries one of the wanted labels.
pub open spec fn is_labeled(x: Seq<char>) -> bool {
    starts_with(x, "**`Wishlisted"@) || starts_with(x, "**Series"@) || starts_with(x, "**Name"@)
}

/// The labeled lines, in order.
pub open spec fn labeled(lines: Seq<Seq<char>>) -> Seq<Seq<char>>
    decreases lines.len(),
{
    if lines.len() == 0 {
        lines
    } else if is_labeled(lines.last()) {
        labeled(lines.drop_last()).push(lines.last())
    } else {
        labeled(lines.drop_last())
    }
}

/// The card of a card lookup: the name from the second labeled line, the series from the
/// first, the count from the third.
pub open spec fn lookup_card(d: Seq<char>) -> Option<CharacterView> {
    let f = labeled(split(d, seq!['\n']));
    if f.len() < 3 {
        None
    } else {
        match (after(f[1], ": ** "@), after(f[0], ": ** "@), count_between(f[2], "➜** `"@, "`"@)) {
            (Some(n), Some(s), Some(w)) => Some(CharacterView { name: n, series: s, gen: None, wl: Some(w) }),
            _ => None,
        }
    }
}

/// The updates of a series collection: each card listed in its first field, then the series
/// with its total wishlist count.
pub open spec fn collection_updates(e: EmbedInfo) -> (Seq<UpdateView>, bool) {
    match opt_text(e.description) {
        None => (Seq::empty(), false),
        Some(d) => match between(d, "__**"@, "**__"@) {
            None => (Seq::empty(), false),
            Some(series) => if e.fields@.len() == 0 {
                (Seq::empty(), false)
            } else {
                let (cards, ok) = read_lines(
                    LineKind::CollectedCard,
                    split(e.fields@[0].value@, seq!['\n']),
                    series,
                );
                if !ok {
                    (cards, false)
                } else {
                    match count_between(d, "*Total Wishlist:* **"@, "**"@) {
                        Some(w) => (cards.push(UpdateView::Series(SeriesView { name: series, wl: Some(w) })), true),
                        None => (cards, false),
                    }
                }
            },
        },
    }
}

/// The updates of a listing in the description of `e`.
pub open spec fn listing_updates(kind: LineKind, e: EmbedInfo) -> (Seq<UpdateView>, bool) {
    match opt_text(e.description) {
        None => (Seq::empty(), false),
        Some(d) => read_lines(kind, split(d, seq!['\n']), Seq::empty()),
    }
}

/// The wishlist counts that a new message of the card game's bot carries.
pub open spec fn message_updates(embeds: Seq<EmbedInfo>) -> (Seq<UpdateView>, bool) {
    if embeds.len() == 0 {
        (Seq::empty(), true)
    } else if opt_text(embeds[0].title) == Some("LOOKUP"@) {
        match opt_text(embeds[0].description) {
            None => (Seq::empty(), false),
            Some(d) => match lookup_card(d) {
                Some(c) => (seq![UpdateView::Card(c)], true),
                None => (Seq::empty(), false),
            },
        }
    } else if first_description_contains(embeds, "Cards Collected:"@) {
        collection_updates(embeds[0])
    } else if first_title_contains(embeds, "__Characters Lookup__"@) {
        listing_updates(LineKind::CharactersLookup, embeds[0])
    } else if first_title_contains(embeds, "SERIES"@) {
        listing_updates(LineKind::SeriesList, embeds[0])
    } else if opt_text(embeds[0].title) == Some("WISHLIST LEADERBOARD - CHARACTERS"@) {
        listing_updates(LineKind::LeaderboardCharacters, embeds[0])
    } else {
        (Seq::empty(), true)
    }
}

fn lookup_card_chars(d: &Vec<char>) -> (r: Option<Character>)
    ensures
        match r {
            Some(c) => lookup_card(d@) == Some(c@),
            None => lookup_card(d@) is None,
        },
{
    let nl = vec!['\n'];
    assert(nl@ =~= seq!['\n']);
    let lines = split_chars(d, &nl);
    let ghost ls = split(d@, seq!['\n']);
    let mut f: Vec<Vec<char>> = Vec::new();
    let mut i: usize = 0;
    let wl = chars_of("**`Wishlisted");
    let se = chars_of("**Series");
    let na = chars_of("**Name");
    assert(ls.take(0) =~= Seq::<Seq<char>>::empty());
    while i < lines.len()
        invariant
            i <= lines@.len(),
            views(lines@) == ls,
            views(f@) == labeled(ls.take(i as int)),
            wl@ == "**`Wishlisted"@,
            se@ == "**Series"@,
            na@ == "**Name"@,
        decreases lines@.len() - i,
    {
        let x = &lines[i];
        assert(ls.take(i + 1).drop_last() =~= ls.take(i as int));
        assert(ls.take(i + 1).last() == x@);
        if starts_with_chars(x, &wl) || starts_with_chars(x, &se) || starts_with_chars(x, &na) {
            let ghost before = f@;
            f.push(x.clone());
            assert(views(f@) =~= views(before).push(x@));
        }
        i = i + 1;
    }
    assert(ls.take(lines@.len() as int) =~= ls);
    if f.len() < 3 {
        return None;
    }
    assert(views(f@)[0] == f@[0]@ && views(f@)[1] == f@[1]@ && views(f@)[2] == f@[2]@);
    let name = after_chars(&f[1], ": ** ");
    let series = after_chars(&f[0], ": ** ");
    let count = count_between_chars(&f[2], "➜** `", "`");
    match (name, series, count) {
        (Some(n), Some(s), Some(w)) => Some(Character { name: string_of(&n), series: string_of(&s), gen: None, wl: Some(w) }),
        _ => None,
    }
}

pub fn collection_scan(e: &EmbedInfo) -> (r: Scan)
    ensures
        updates_view(r.updates@) == collection_updates(*e).0,
        r.complete == collection_updates(*e).1,
{
    let mut out: Vec<WishlistUpdate> = Vec::new();
    assert(updates_view(out@) =~= Seq::<UpdateView>::empty());
    let d = match &e.description {
        Some(d) => chars_of(d.as_str()),
        None => return Scan { updates: out, complete: false },
    };
    let series = match between_chars(&d, "__**", "**__") {
        Some(s) => s,
        None => return Scan { updates: out, complete: false },
    };
    if e.fields.len() == 0 {
        return Scan { updates: out, complete: false };
    }
    let ok = read_listing(LineKind::CollectedCard, &chars_of(e.fields[0].value.as_str()), &series, &mut out);
    assert(updates_view(out@) =~= read_lines(LineKind::CollectedCard, split(e.fields@[0].value@, seq!['\n']), series@).0);
    if !ok {
        return Scan { updates: out, complete: false };
    }
    match count_between_chars(&d, "*Total Wishlist:* **", "**") {
        Some(w) => {
            let ghost before = out@;
            out.push(WishlistUpdate::Series(Series { name: string_of(&series), wl: Some(w) }));
            assert(updates_view(out@) =~= updates_view(before).push(
                UpdateView::Series(SeriesView { name: series@, wl: Some(w) }),
            ));
            Scan { updates: out, complete: true }
        },
        None => Scan { updates: out, complete: false },
    }
}

pub fn listing_scan(kind: LineKind, e: &EmbedInfo) -> (r: Scan)
    ensures
        updates_view(r.updates@) == listing_updates(kind, *e).0,
        r.complete == listing_updates(kind, *e).1,
{
    let mut out: Vec<WishlistUpdate> = Vec::new();
    assert(updates_view(out@) =~= Seq::<UpdateView>::empty());
    match &e.description {
        Some(d) => {
            let empty: Vec<char> = Vec::new();
            assert(empty@ =~= Seq::<char>::empty());
            let ok = read_listing(kind, &chars_of(d.as_str()), &empty, &mut out);
            assert(updates_view(out@) =~= read_lines(kind, split(d@, seq!['\n']), Seq::empty()).0);
            Scan { updates: out, complete: ok }
        },
        None => Scan { updates: out, complete: false },
    }
}

/// The wishlist counts that a new message of the card game's bot carries, in the order in which
/// they are sent (see [`message_updates`]).
pub fn read_message_updates(embeds: &Vec<EmbedInfo>) -> (r: Scan)
    ensures
        updates_view(r.updates@) == message_updates(embeds@).0,
        r.complete == message_updates(embeds@).1,
{
    if embeds.len() == 0 {
        let out: Vec<WishlistUpdate> = Vec::new();
        assert(updates_view(out@) =~= Seq::<UpdateView>::empty());
        return Scan { updates: out, complete: true };
    }
    let e = &embeds[0];
    if text_is(&e.title, "LOOKUP") {
        let mut out: Vec<WishlistUpdate> = Vec::new();
        assert(updates_view(out@) =~= Seq::<UpdateView>::empty());
        match &e.description {
            None => Scan { updates: out, complete: false },
            Some(d) => match lookup_card_chars(&chars_of(d.as_str())) {
                Some(c) => {
                    let ghost cv = c@;
                    out.push(WishlistUpdate::Card(c));
                    assert(updates_view(out@) =~= seq![UpdateView::Card(cv)]);
                    Scan { updates: out, complete: true }
                },
                None => Scan { updates: out, complete: false },
            },
        }
    } else if text_contains(&e.description, "Cards Collected:") {
        collection_scan(e)
    } else if text_contains(&e.title, "__Characters Lookup__") {
        listing_scan(LineKind::CharactersLookup, e)
    } else if text_contains(&e.title, "SERIES") {
        listing_scan(LineKind::SeriesList, e)
    } else if text_is(&e.title, "WISHLIST LEADERBOARD - CHARACTERS") {
        listing_scan(LineKind::LeaderboardCharacters, e)
    } else {
        let out: Vec<WishlistUpdate> = Vec::new();
        assert(updates_view(out@) =~= Seq::<UpdateView>::empty());
        Scan { updates: out, complete: true }
    }
}

} // verus!

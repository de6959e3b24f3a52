use vstd::prelude::*;

use crate::operations::drop::{blank, blank_spec, WLEMOJI};
use crate::operations::message::{MessageInfo, SOFI_ID, opt_text, text_starts_with};
use crate::text::{
    chars_of, decimal, decimal_chars, push_str, split, split_chars, starts_with, string_of, trim,
    trim_chars, views,
};
use crate::utils::series_handler::{Series, SeriesView};

verus! {

/// A vote for a series drop of the card game's bot.
pub open spec fn is_series_vote(m: MessageInfo) -> bool {
    m.author_id == SOFI_ID && m.embeds@.len() > 0 && match opt_text(m.embeds@[0].description) {
        Some(d) => starts_with(d, "**I will drop cards from the most voted series"@),
        None => false,
    }
}

/// Whether `message` announces a series drop vote of the card game's bot.
pub fn filter(message: &MessageInfo) -> (r: bool)
    ensures
        r == is_series_vote(*message),
{
    message.author_id == SOFI_ID && message.embeds.len() > 0 && text_starts_with(
        &message.embeds[0].description,
        "**I will drop cards from the most voted series",
    )
}

/// A wishlist count as a series vote reply shows it: 0 when unknown.
pub open spec fn c_spec(c: Option<u32>) -> Seq<char> {
    match c {
        None => seq!['0'],
        Some(d) => decimal(d as nat),
    }
}

/// A wishlist count as text, 0 when unknown.
pub fn c(count: &Option<u32>) -> (r: String)
    ensures
        r@ == c_spec(*count),
{
    match count {
        None => string_of(&vec!['0']),
        Some(d) => string_of(&decimal_chars(*d as u128)),
    }
}

/// The lines of a vote between its first and its last line.
pub open spec fn inner_lines(lines: Seq<Seq<char>>) -> Seq<Seq<char>> {
    if lines.len() >= 2 {
        lines.subrange(1, lines.len() - 1)
    } else {
        Seq::empty()
    }
}

/// Whether a vote line has a `]` to read its series after.
pub open spec fn has_bracket(x: Seq<char>) -> bool {
    split(x, "]"@).len() >= 2
}

/// The series a vote line names: after the first `]`, up to the next `**`, trimmed.
pub open spec fn vote_line_name(x: Seq<char>) -> Seq<char> {
    trim(split(split(x, "]"@)[1], "**"@)[0])
}

/// The three series a vote lists, one per line between its first and its last line. `None`
/// when one of those lines has no `]`, or when there are fewer than three.
pub open spec fn vote_names(description: Seq<char>) -> Option<Seq<Seq<char>>> {
    let m = inner_lines(split(description, "\n"@));
    if m.len() >= 3 && forall|i: int| 0 <= i < m.len() ==> has_bracket(#[trigger] m[i]) {
        Some(seq![vote_line_name(m[0]), vote_line_name(m[1]), vote_line_name(m[2])])
    } else {
        None
    }
}

fn read_vote_line(x: &Vec<char>) -> (r: Option<String>)
    ensures
        match r {
            Some(n) => has_bracket(x@) && n@ == vote_line_name(x@),
            None => !has_bracket(x@),
        },
{
    proof {
        reveal_strlit("]");
        reveal_strlit("**");
    }
    let p = split_chars(x, &chars_of("]"));
    assert(views(p@).len() == p@.len());
    if p.len() < 2 {
        return None;
    }
    assert(views(p@)[1] == p@[1]@);
    let q = split_chars(&p[1], &chars_of("**"));
    proof {
        crate::bot::lemma_split_nonempty(p@[1]@, "**"@);
    }
    assert(views(q@)[0] == q@[0]@);
    Some(string_of(&trim_chars(&q[0])))
}

/// The three series of a vote, with no wishlist count yet (see [`vote_names`]).
pub fn vote_series(description: &str) -> (r: Option<Vec<Series>>)
    ensures
        match r {
            Some(v) => vote_names(description@) matches Some(ns) && v@.len() == 3 && forall|i: int|
                0 <= i < 3 ==> #[trigger] v@[i]@ == (SeriesView { name: ns[i], wl: None }),
            None => vote_names(description@) is None,
        },
{
    proof {
        reveal_strlit("\n");
    }
    let lines = split_chars(&chars_of(description), &chars_of("\n"));
    let ghost ls = split(description@, "\n"@);
    assert(views(lines@) == ls);
    assert(views(lines@).len() == lines@.len());
    let ghost m = inner_lines(ls);
    if lines.len() < 5 {
        return None;
    }
    let mut names: Vec<Series> = Vec::new();
    let mut i: usize = 1;
    while i < lines.len() - 1
        invariant
            1 <= i <= lines@.len() - 1,
            lines@.len() >= 5,
            views(lines@) == ls,
            ls == split(description@, "\n"@),
            m == inner_lines(ls),
            m.len() == lines@.len() - 2,
            forall|k: int| 0 <= k < i - 1 ==> has_bracket(#[trigger] m[k]),
            names@.len() == if i - 1 < 3 { i - 1 } else { 3 },
            forall|k: int| 0 <= k < names@.len() ==> #[trigger] names@[k]@ == (SeriesView {
                name: vote_line_name(m[k]),
                wl: None,
            }),
        decreases lines@.len() - i,
    {
        assert(m[i - 1] == lines@[i as int]@);
        match read_vote_line(&lines[i]) {
            Some(n) => {
                if names.len() < 3 {
                    names.push(Series { name: n, wl: None });
                }
            },
            None => {
                assert(!has_bracket(m[i - 1]));
                assert(!(forall|k: int| 0 <= k < m.len() ==> has_bracket(#[trigger] m[k])));
                return None;
            },
        }
        i = i + 1;
    }
    assert(forall|k: int| 0 <= k < m.len() ==> has_bracket(#[trigger] m[k]));
    Some(names)
}

/// The reply to a series vote: one line per series, its wishlist count and its name.
pub open spec fn vote_reply(series: Seq<SeriesView>) -> Seq<char> {
    "`1]` • "@ + WLEMOJI@ + " `"@ + blank_spec(c_spec(series[0].wl), 4) + "` • "@ + series[0].name
        + "\n`2]` • "@ + WLEMOJI@ + " `"@ + blank_spec(c_spec(series[1].wl), 4) + "` • "@
        + series[1].name + "\n`3]` • "@ + WLEMOJI@ + " `"@ + blank_spec(c_spec(series[2].wl), 4)
        + "` • "@ + series[2].name
}

/// The reply to a series vote, given the three series found (see [`vote_reply`]).
pub fn series_vote_reply(found: &Vec<Series>) -> (r: String)
    requires
        found@.len() >= 3,
    ensures
        r@ == vote_reply(found@.map_values(|s: Series| s@)),
{
    let ghost fv = found@.map_values(|s: Series| s@);
    let mut out: Vec<char> = Vec::new();
    push_str(&mut out, "`1]` • ");
    push_str(&mut out, WLEMOJI);
    push_str(&mut out, " `");
    push_str(&mut out, blank(c(&found[0].wl), 4).as_str());
    push_str(&mut out, "` • ");
    push_str(&mut out, found[0].name.as_str());
    push_str(&mut out, "\n`2]` • ");
    push_str(&mut out, WLEMOJI);
    push_str(&mut out, " `");
    push_str(&mut out, blank(c(&found[1].wl), 4).as_str());
    push_str(&mut out, "` • ");
    push_str(&mut out, found[1].name.as_str());
    push_str(&mut out, "\n`3]` • ");
    push_str(&mut out, WLEMOJI);
    push_str(&mut out, " `");
    push_str(&mut out, blank(c(&found[2].wl), 4).as_str());
    push_str(&mut out, "` • ");
    push_str(&mut out, found[2].name.as_str());
    assert(fv[0] == found@[0]@ && fv[1] == found@[1]@ && fv[2] == found@[2]@);
    assert(out@ =~= vote_reply(fv));
    string_of(&out)
}

} // verus!

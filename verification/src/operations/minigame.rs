use vstd::prelude::*;

use crate::operations::drop::{c, c_spec, WLEMOJI};
use crate::operations::message::{first_title_is, opt_text, MessageInfo, SOFI_ID, text_is};
use crate::text::{chars_of, push_str, split, split_chars, string_of, views};

verus! {

/// A minigame of the card game's bot.
pub open spec fn is_minigame(m: MessageInfo) -> bool {
    m.author_id == SOFI_ID && first_title_is(m, "MINIGAME"@)
}

/// Whether `message` is a minigame of the card game's bot.
pub fn filter(message: &MessageInfo) -> (r: bool)
    ensures
        r == is_minigame(*message),
{
    message.author_id == SOFI_ID && message.embeds.len() > 0 && text_is(&message.embeds[0].title, "MINIGAME")
}

/// The character and the series a minigame's description shows: the name between the first
/// two `**`, the series between the first `*(` and the next `)*`. `None` when there is no
/// description, or a marker is missing.
pub open spec fn minigame_card_spec(description: Option<Seq<char>>) -> Option<(Seq<char>, Seq<char>)> {
    match description {
        None => None,
        Some(d) => {
            let sp = split(d, "*("@);
            let np = split(d, "**"@);
            if sp.len() < 2 || np.len() < 2 {
                None
            } else {
                Some((split(np[1], "**"@)[0], split(sp[1], ")*"@)[0]))
            }
        },
    }
}

/// Reads the character and the series of a minigame (see [`minigame_card_spec`]).
pub fn minigame_card(description: &Option<String>) -> (r: Option<(String, String)>)
    ensures
        match r {
            Some((n, s)) => minigame_card_spec(opt_text(*description)) == Some((n@, s@)),
            None => minigame_card_spec(opt_text(*description)) is None,
        },
{
    let d = match description {
        Some(d) => chars_of(d.as_str()),
        None => return None,
    };
    proof {
        reveal_strlit("*(");
        reveal_strlit("**");
        reveal_strlit(")*");
    }
    let sp = split_chars(&d, &chars_of("*("));
    let np = split_chars(&d, &chars_of("**"));
    assert(views(sp@).len() == sp@.len());
    assert(views(np@).len() == np@.len());
    if sp.len() < 2 || np.len() < 2 {
        return None;
    }
    assert(views(sp@)[1] == sp@[1]@);
    assert(views(np@)[1] == np@[1]@);
    let names = split_chars(&np[1], &chars_of("**"));
    let series = split_chars(&sp[1], &chars_of(")*"));
    proof {
        crate::bot::lemma_split_nonempty(np@[1]@, "**"@);
        crate::bot::lemma_split_nonempty(sp@[1]@, ")*"@);
    }
    assert(views(names@)[0] == names@[0]@);
    assert(views(series@)[0] == series@[0]@);
    Some((string_of(&names[0]), string_of(&series[0])))
}

/// The reply to a minigame: the wishlist count of its card, its name and its series.
pub open spec fn minigame_reply_spec(wl: Option<u32>, name: Seq<char>, series: Seq<char>) -> Seq<char> {
    "`1]` • "@ + WLEMOJI@ + " "@ + c_spec(wl) + " • **"@ + name + "** • "@ + series
}

/// The reply to a minigame (see [`minigame_reply_spec`]).
pub fn minigame_reply(wl: &Option<u32>, name: &str, series: &str) -> (r: String)
    ensures
        r@ == minigame_reply_spec(*wl, name@, series@),
{
    let mut out: Vec<char> = Vec::new();
    push_str(&mut out, "`1]` • ");
    push_str(&mut out, WLEMOJI);
    push_str(&mut out, " ");
    push_str(&mut out, c(wl).as_str());
    push_str(&mut out, " • **");
    push_str(&mut out, name);
    push_str(&mut out, "** • ");
    push_str(&mut out, series);
    assert(out@ =~= minigame_reply_spec(*wl, name@, series@));
    string_of(&out)
}

} // verus!

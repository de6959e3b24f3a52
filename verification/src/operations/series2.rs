use vstd::prelude::*;

use crate::operations::drop::{card_line, push_card_line};
use crate::operations::message::{MessageInfo, SOFI_ID};
use crate::text::{push_str, str_equal, string_of};
use crate::utils::cards_handler::{Character, CharacterView};

verus! {

/// A series drop of the card game's bot.
pub open spec fn is_series_drop(m: MessageInfo) -> bool {
    m.author_id == SOFI_ID && m.content@ == "**Series drop**"@
}

/// Whether `message` is a series drop of the card game's bot.
pub fn filter(message: &MessageInfo) -> (r: bool)
    ensures
        r == is_series_drop(*message),
{
    message.author_id == SOFI_ID && str_equal(message.content.as_str(), "**Series drop**")
}

/// The reply to a series drop: the two cards read from its image, each with the wishlist
/// count found for it.
pub open spec fn series_drop_reply_spec(found: Seq<CharacterView>, read: Seq<CharacterView>) -> Seq<char> {
    card_line("1"@, found[0].wl, read[0].gen, read[0].name, read[0].series) + "\n"@ + card_line(
        "2"@,
        found[1].wl,
        read[1].gen,
        read[1].name,
        read[1].series,
    )
}

/// The reply to a series drop (see [`series_drop_reply_spec`]).
pub fn series_drop_reply(found: &Vec<Character>, read: &Vec<Character>) -> (r: String)
    requires
        found@.len() >= 2,
        read@.len() >= 2,
    ensures
        r@ == series_drop_reply_spec(
            found@.map_values(|c: Character| c@),
            read@.map_values(|c: Character| c@),
        ),
{
    let ghost fv = found@.map_values(|c: Character| c@);
    let ghost rv = read@.map_values(|c: Character| c@);
    let mut out: Vec<char> = Vec::new();
    push_card_line(&mut out, "1", &found[0].wl, &read[0].gen, &read[0].name, &read[0].series);
    push_str(&mut out, "\n");
    push_card_line(&mut out, "2", &found[1].wl, &read[1].gen, &read[1].name, &read[1].series);
    assert(fv[0] == found@[0]@ && fv[1] == found@[1]@);
    assert(rv[0] == read@[0]@ && rv[1] == read@[1]@);
    assert(out@ =~= series_drop_reply_spec(fv, rv));
    string_of(&out)
}

} // verus!

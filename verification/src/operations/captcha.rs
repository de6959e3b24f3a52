use vstd::prelude::*;

use crate::operations::drop::{card_line, push_card_line};
use crate::operations::message::{first_title_is, MessageInfo, SOFI_ID, text_is};
use crate::text::string_of;
use crate::utils::cards_handler::Character;

verus! {

/// A captcha drop of the card game's bot.
pub open spec fn is_captcha(m: MessageInfo) -> bool {
    m.author_id == SOFI_ID && first_title_is(m, "Captcha Drop"@)
}

/// Whether `message` is a captcha drop of the card game's bot.
pub fn filter(message: &MessageInfo) -> (r: bool)
    ensures
        r == is_captcha(*message),
{
    message.author_id == SOFI_ID && message.embeds.len() > 0 && text_is(&message.embeds[0].title, "Captcha Drop")
}

/// The reply to a captcha drop: the card read from its image, with the wishlist count `wl`
/// found for it.
pub fn captcha_reply(wl: &Option<u32>, card: &Character) -> (r: String)
    ensures
        r@ == card_line("1"@, *wl, card.gen, card.name@, card.series@),
{
    let mut out: Vec<char> = Vec::new();
    push_card_line(&mut out, "1", wl, &card.gen, &card.name, &card.series);
    assert(out@ =~= card_line("1"@, *wl, card.gen, card.name@, card.series@));
    string_of(&out)
}

} // verus!

use vstd::prelude::*;

use crate::text::{chars_of, contains, contains_chars, str_equal, starts_with, starts_with_chars};

verus! {

/// The user id of the card game's bot.
pub const SOFI_ID: u64 = 853629533855809596;

/// The user id of the bot's owner.
pub const OWNER_ID: u64 = 353623899184824330;

/// A field of an embed.
pub struct EmbedFieldInfo {
    pub name: String,
    pub value: String,
}

/// What the bot reads of an embed.
pub struct EmbedInfo {
    pub title: Option<String>,
    pub description: Option<String>,
    pub fields: Vec<EmbedFieldInfo>,
    pub image_url: Option<String>,
}

/// What the bot reads of a message.
pub struct MessageInfo {
    pub author_id: u64,
    pub author_bot: bool,
    pub content: String,
    pub embeds: Vec<EmbedInfo>,
    pub attachment_urls: Vec<String>,
}

/// The view of an optional text.
pub open spec fn opt_text(t: Option<String>) -> Option<Seq<char>> {
    match t {
        Some(s) => Some(s@),
        None => None,
    }
}

/// Whether the first embed's title is `lit`.
pub open spec fn first_title_is(m: MessageInfo, lit: Seq<char>) -> bool {
    m.embeds@.len() > 0 && opt_text(m.embeds@[0].title) == Some(lit)
}

/// Whether the first embed's title contains `lit`.
pub open spec fn first_title_contains(embeds: Seq<EmbedInfo>, lit: Seq<char>) -> bool {
    embeds.len() > 0 && match opt_text(embeds[0].title) {
        Some(t) => contains(t, lit),
        None => false,
    }
}

/// Whether the first embed's description contains `lit`.
pub open spec fn first_description_contains(embeds: Seq<EmbedInfo>, lit: Seq<char>) -> bool {
    embeds.len() > 0 && match opt_text(embeds[0].description) {
        Some(t) => contains(t, lit),
        None => false,
    }
}

/// Whether `t` is present and equal to `lit`.
pub fn text_is(t: &Option<String>, lit: &str) -> (r: bool)
    ensures
        r == (opt_text(*t) == Some(lit@)),
{
    match t {
        Some(s) => str_equal(s.as_str(), lit),
        None => false,
    }
}

/// Whether `t` is present and contains `lit`.
pub fn text_contains(t: &Option<String>, lit: &str) -> (r: bool)
    ensures
        r == match opt_text(*t) {
            Some(s) => contains(s, lit@),
            None => false,
        },
{
    match t {
        Some(s) => contains_chars(&chars_of(s.as_str()), &chars_of(lit)),
        None => false,
    }
}

/// Whether `t` is present and starts with `lit`.
pub fn text_starts_with(t: &Option<String>, lit: &str) -> (r: bool)
    ensures
        r == match opt_text(*t) {
            Some(s) => starts_with(s, lit@),
            None => false,
        },
{
    match t {
        Some(s) => starts_with_chars(&chars_of(s.as_str()), &chars_of(lit)),
        None => false,
    }
}


/// Which handler a new message goes to.
#[derive(PartialEq, Eq, Structural, Debug, Clone, Copy)]
pub enum Route {
    Drop,
    Eval,
    Minigame,
    Captcha,
    Series1,
    Series2,
    Wishlist,
    /// The message is left alone.
    Nothing,
}

/// The handler of a new message: messages of other bots are left alone; otherwise the first
/// handler, in the order drop, owner command, minigame, captcha, series vote, series drop and
/// wishlist update, whose filter accepts the message.
pub open spec fn route_spec(m: MessageInfo) -> Route {
    if m.author_bot && m.author_id != SOFI_ID {
        Route::Nothing
    } else if crate::operations::drop::is_drop(m) {
        Route::Drop
    } else if crate::operations::eval::is_owner_command(m) {
        Route::Eval
    } else if crate::operations::minigame::is_minigame(m) {
        Route::Minigame
    } else if crate::operations::captcha::is_captcha(m) {
        Route::Captcha
    } else if crate::operations::series1::is_series_vote(m) {
        Route::Series1
    } else if crate::operations::series2::is_series_drop(m) {
        Route::Series2
    } else if crate::operations::wishlist_updaters::is_from_sofi(m) {
        Route::Wishlist
    } else {
        Route::Nothing
    }
}

/// The handler of a new message (see [`route_spec`]).
pub fn route(message: &MessageInfo) -> (r: Route)
    ensures
        r == route_spec(*message),
{
    if message.author_bot && message.author_id != SOFI_ID {
        Route::Nothing
    } else if crate::operations::drop::filter(message) {
        Route::Drop
    } else if crate::operations::eval::filter(message) {
        Route::Eval
    } else if crate::operations::minigame::filter(message) {
        Route::Minigame
    } else if crate::operations::captcha::filter(message) {
        Route::Captcha
    } else if crate::operations::series1::filter(message) {
        Route::Series1
    } else if crate::operations::series2::filter(message) {
        Route::Series2
    } else if crate::operations::wishlist_updaters::filter(message) {
        Route::Wishlist
    } else {
        Route::Nothing
    }
}

} // verus!

use vstd::prelude::*;

use crate::operations::message::{MessageInfo, SOFI_ID};
use crate::text::{chars_of, contains, contains_chars, split, split_chars, string_of, views};

verus! {

/// A battle or a grab reported by the card game's bot.
pub open spec fn is_grab(m: MessageInfo) -> bool {
    m.author_id == SOFI_ID && (contains(m.content@, "battled"@) || contains(m.content@, "took the card"@))
}

/// Whether `message` reports a battle or a grab.
pub fn filter(message: &MessageInfo) -> (r: bool)
    ensures
        r == is_grab(*message),
{
    let content = chars_of(message.content.as_str());
    message.author_id == SOFI_ID && (contains_chars(&content, &chars_of("battled")) || contains_chars(
        &content,
        &chars_of("took the card"),
    ))
}

/// The text up to the first `>` of the piece after the first `<@` of `t`; `None` when `t` has
/// no `<@`.
pub open spec fn mention_in(t: Seq<char>) -> Option<Seq<char>> {
    let pieces = split(t, "<@"@);
    if pieces.len() >= 2 {
        Some(split(pieces[1], ">"@)[0])
    } else {
        None
    }
}

/// The user a battle or grab report is about: the first mention before `battled` in a battle,
/// the first mention of the text otherwise.
pub open spec fn grab_user_spec(content: Seq<char>) -> Option<Seq<char>> {
    if contains(content, "battled"@) {
        mention_in(split(content, "battled"@)[0])
    } else {
        mention_in(content)
    }
}

fn mention_in_chars(t: &Vec<char>) -> (r: Option<String>)
    ensures
        match r {
            Some(u) => mention_in(t@) == Some(u@),
            None => mention_in(t@) is None,
        },
{
    proof {
        reveal_strlit("<@");
        reveal_strlit(">");
    }
    let pieces = split_chars(t, &chars_of("<@"));
    assert(views(pieces@).len() == pieces@.len());
    if pieces.len() >= 2 {
        assert(views(pieces@)[1] == pieces@[1]@);
        let parts = split_chars(&pieces[1], &chars_of(">"));
        proof {
            crate::bot::lemma_split_nonempty(pieces@[1]@, ">"@);
        }
        assert(views(parts@)[0] == parts@[0]@);
        Some(string_of(&parts[0]))
    } else {
        None
    }
}

/// The user a battle or grab report is about (see [`grab_user_spec`]).
pub fn grab_user_id(content: &str) -> (r: Option<String>)
    ensures
        match r {
            Some(u) => grab_user_spec(content@) == Some(u@),
            None => grab_user_spec(content@) is None,
        },
{
    let text = chars_of(content);
    let battled = chars_of("battled");
    if contains_chars(&text, &battled) {
        proof {
            reveal_strlit("battled");
            crate::bot::lemma_split_nonempty(content@, "battled"@);
        }
        let pieces = split_chars(&text, &battled);
        assert(views(pieces@).len() == pieces@.len());
        assert(views(pieces@)[0] == pieces@[0]@);
        mention_in_chars(&pieces[0])
    } else {
        mention_in_chars(&text)
    }
}

} // verus!

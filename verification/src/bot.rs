use vstd::prelude::*;

use crate::text::{
    chars_of, parse_unsigned, parse_unsigned_chars, split, split_chars, starts_with,
    starts_with_chars, string_of, views,
};

verus! {

/// The database named by a connection URL: the text after the last `/`, up to the first `?`.
pub open spec fn database_name_spec(url: Seq<char>) -> Seq<char> {
    split(split(url, "/"@).last(), "?"@)[0]
}

/// The database named by the connection URL `url` (see [`database_name_spec`]).
pub fn database_name(url: &str) -> (r: String)
    ensures
        r@ == database_name_spec(url@),
{
    let slash = chars_of("/");
    let question = chars_of("?");
    proof {
        reveal_strlit("/");
        reveal_strlit("?");
    }
    let pieces = split_chars(&chars_of(url), &slash);
    assert(views(pieces@).len() == pieces@.len());
    proof {
        lemma_split_nonempty(url@, "/"@);
    }
    let last = &pieces[pieces.len() - 1];
    assert(views(pieces@)[pieces@.len() - 1] == last@);
    let parts = split_chars(last, &question);
    proof {
        lemma_split_nonempty(last@, "?"@);
    }
    assert(views(parts@)[0] == parts@[0]@);
    string_of(&parts[0])
}

/// Splitting gives at least one piece.
pub proof fn lemma_split_nonempty(s: Seq<char>, sep: Seq<char>)
    ensures
        split(s, sep).len() >= 1,
{
}

/// Whether a component's custom id belongs to a configuration screen.
pub fn is_config_component(custom_id: &str) -> (r: bool)
    ensures
        r == starts_with(custom_id@, "config"@),
{
    starts_with_chars(&chars_of(custom_id), &chars_of("config"))
}

/// Whether a configuration component with custom id `custom_id` is too old to act on at time
/// `now` (seconds): its id ends, after the last `_`, in the time it was made, and it expires
/// once more than 60 seconds have passed. `None` when that time is no number up to
/// `u64::MAX`, or lies after `now`.
pub open spec fn component_expired_spec(custom_id: Seq<char>, now: u64) -> Option<bool> {
    match parse_unsigned(split(custom_id, "_"@).last(), u64::MAX as nat) {
        Some(t) => if t <= now {
            Some(now - t > 60)
        } else {
            None
        },
        None => None,
    }
}

/// Whether a configuration component is expired (see [`component_expired_spec`]).
pub fn component_expired(custom_id: &str, now: u64) -> (r: Option<bool>)
    ensures
        r == component_expired_spec(custom_id@, now),
{
    let underscore = chars_of("_");
    proof {
        reveal_strlit("_");
        lemma_split_nonempty(custom_id@, "_"@);
    }
    let pieces = split_chars(&chars_of(custom_id), &underscore);
    assert(views(pieces@).len() == pieces@.len());
    let last = &pieces[pieces.len() - 1];
    assert(views(pieces@)[pieces@.len() - 1] == last@);
    match parse_unsigned_chars(last, 18446744073709551615u64) {
        Some(t) => if t <= now {
            Some(now - t > 60)
        } else {
            None
        },
        None => None,
    }
}

} // verus!

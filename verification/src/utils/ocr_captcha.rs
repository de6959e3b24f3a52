use vstd::prelude::*;

use crate::text::{chars_of, parse_unsigned, parse_unsigned_chars};
use crate::utils::cards_handler::{Character, CharacterView};

verus! {

/// A rectangle of a card image that is read as one line of text.
#[derive(PartialEq, Eq, Structural, Debug, Clone, Copy)]
pub struct Region {
    pub x: u32,
    pub y: u32,
    pub width: u32,
    pub height: u32,
}

/// The regions of a captcha image: the name, the series and the generation.
pub open spec fn captcha_regions_spec() -> Seq<Region> {
    seq![
        Region { x: 18, y: 460, width: 290, height: 27 },
        Region { x: 18, y: 488, width: 290, height: 27 },
        Region { x: 41, y: 430, width: 108, height: 27 },
    ]
}

/// The regions of a captcha image that are read (see [`captcha_regions_spec`]).
pub fn captcha_regions() -> (r: Vec<Region>)
    ensures
        r@ == captcha_regions_spec(),
{
    let r = vec![
        Region { x: 18, y: 460, width: 290, height: 27 },
        Region { x: 18, y: 488, width: 290, height: 27 },
        Region { x: 41, y: 430, width: 108, height: 27 },
    ];
    assert(r@ =~= captcha_regions_spec());
    r
}

/// The characters the text recognition may see in a region: the generation boxes, 108 pixels
/// wide, hold digits only; elsewhere every character is allowed (the empty list).
pub open spec fn char_whitelist_spec(region: Region) -> Seq<char> {
    if region.width == 108 {
        "1234567890"@
    } else {
        Seq::empty()
    }
}

/// The characters the text recognition may see in `region` (see [`char_whitelist_spec`]).
pub fn char_whitelist(region: &Region) -> (r: &'static str)
    ensures
        r@ == char_whitelist_spec(*region),
{
    proof {
        reveal_strlit("");
    }
    if region.width == 108 {
        "1234567890"
    } else {
        ""
    }
}

/// A generation as the text recognition read it: 0 when nothing was read; 0 means none.
/// `None` when the text is no number up to 65535.
pub open spec fn read_gen_spec(text: Option<Seq<char>>) -> Option<Option<u16>> {
    let t = match text {
        Some(t) => t,
        None => "0"@,
    };
    match parse_unsigned(t, 65535) {
        None => None,
        Some(g) => if g == 0 {
            Some(None)
        } else {
            Some(Some(g as u16))
        },
    }
}

/// Reads a generation (see [`read_gen_spec`]).
pub fn read_gen(text: Option<&String>) -> (r: Option<Option<u16>>)
    ensures
        r == read_gen_spec(
            match text {
                Some(t) => Some(t@),
                None => None,
            },
        ),
{
    let t = match text {
        Some(t) => chars_of(t.as_str()),
        None => chars_of("0"),
    };
    match parse_unsigned_chars(&t, 65535) {
        None => None,
        Some(g) => if g == 0 {
            Some(None)
        } else {
            Some(Some(g as u16))
        },
    }
}

/// The text read from the `i`-th region, when there is one.
pub open spec fn output_at(output: Seq<String>, i: int) -> Option<Seq<char>> {
    if 0 <= i < output.len() {
        Some(output[i]@)
    } else {
        None
    }
}

/// The card of a captcha image, from the texts read from its regions in order: name, series,
/// generation. `None` when the name or the series is missing, or the generation is no number
/// up to 65535.
pub open spec fn captcha_card_spec(output: Seq<String>) -> Option<CharacterView> {
    if output.len() < 2 {
        None
    } else {
        match read_gen_spec(output_at(output, 2)) {
            Some(g) => Some(CharacterView { name: output[0]@, series: output[1]@, gen: g, wl: None }),
            None => None,
        }
    }
}

/// The card of a captcha image (see [`captcha_card_spec`]).
pub fn captcha_card(output: &Vec<String>) -> (r: Option<Character>)
    ensures
        match r {
            Some(c) => captcha_card_spec(output@) == Some(c@),
            None => captcha_card_spec(output@) is None,
        },
{
    if output.len() < 2 {
        return None;
    }
    let gen_text = if output.len() > 2 {
        Some(&output[2])
    } else {
        None
    };
    match read_gen(gen_text) {
        Some(g) => Some(
            Character { name: output[0].clone(), series: output[1].clone(), gen: g, wl: None },
        ),
        None => None,
    }
}

} // verus!

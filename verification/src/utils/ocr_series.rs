use vstd::prelude::*;

use crate::utils::cards_handler::{Character, CharacterView};
use crate::utils::ocr_captcha::{output_at, read_gen, read_gen_spec, Region};

verus! {

/// The regions of a series drop image: the name and the series of the first card, those of
/// the second, then the two generations.
pub open spec fn series_regions_spec() -> Seq<Region> {
    seq![
        Region { x: 26, y: 457, width: 287, height: 27 },
        Region { x: 26, y: 486, width: 287, height: 27 },
        Region { x: 379, y: 457, width: 287, height: 27 },
        Region { x: 379, y: 486, width: 287, height: 27 },
        Region { x: 50, y: 427, width: 108, height: 27 },
        Region { x: 403, y: 427, width: 108, height: 27 },
    ]
}

/// The regions of a series drop image that are read (see [`series_regions_spec`]).
pub fn series_regions() -> (r: Vec<Region>)
    ensures
        r@ == series_regions_spec(),
{
    let r = vec![
        Region { x: 26, y: 457, width: 287, height: 27 },
        Region { x: 26, y: 486, width: 287, height: 27 },
        Region { x: 379, y: 457, width: 287, height: 27 },
        Region { x: 379, y: 486, width: 287, height: 27 },
        Region { x: 50, y: 427, width: 108, height: 27 },
        Region { x: 403, y: 427, width: 108, height: 27 },
    ];
    assert(r@ =~= series_regions_spec());
    r
}

/// The `i`-th card (0 or 1) of a series drop, from the texts read from its regions: name and
/// series at `2i` and `2i + 1`; its generation is looked for at `6 + i`, past the six texts
/// read, so it is none unless more texts are given.
pub open spec fn series_card_spec(output: Seq<String>, i: int) -> Option<CharacterView> {
    if output.len() < 2 * i + 2 {
        None
    } else {
        match read_gen_spec(output_at(output, 6 + i)) {
            Some(g) => Some(
                CharacterView { name: output[2 * i]@, series: output[2 * i + 1]@, gen: g, wl: None },
            ),
            None => None,
        }
    }
}

/// The two cards of a series drop; `None` when either cannot be read (see
/// [`series_card_spec`]).
pub open spec fn series_cards_spec(output: Seq<String>) -> Option<Seq<CharacterView>> {
    match (series_card_spec(output, 0), series_card_spec(output, 1)) {
        (Some(a), Some(b)) => Some(seq![a, b]),
        _ => None,
    }
}

fn series_card(output: &Vec<String>, i: usize) -> (r: Option<Character>)
    requires
        i < 2,
    ensures
        match r {
            Some(c) => series_card_spec(output@, i as int) == Some(c@),
            None => series_card_spec(output@, i as int) is None,
        },
{
    if output.len() < 2 * i + 2 {
        return None;
    }
    let gen_text = if output.len() > 6 + i {
        Some(&output[6 + i])
    } else {
        None
    };
    match read_gen(gen_text) {
        Some(g) => Some(
            Character {
                name: output[2 * i].clone(),
                series: output[2 * i + 1].clone(),
                gen: g,
                wl: None,
            },
        ),
        None => None,
    }
}

/// The two cards of a series drop (see [`series_cards_spec`]).
pub fn series_cards(output: &Vec<String>) -> (r: Option<Vec<Character>>)
    ensures
        match r {
            Some(v) => series_cards_spec(output@) == Some(v@.map_values(|c: Character| c@)),
            None => series_cards_spec(output@) is None,
        },
{
    let a = match series_card(output, 0) {
        Some(a) => a,
        None => return None,
    };
    let b = match series_card(output, 1) {
        Some(b) => b,
        None => return None,
    };
    let ghost cv = seq![a@, b@];
    let v = vec![a, b];
    assert(v@.map_values(|c: Character| c@) =~= cv);
    Some(v)
}

} // verus!

use nori::utils::cards_handler::{process_string, sub_find_chars, CardError, CardIndex, Character};
use nori::utils::series_handler::{Series, SeriesIndex};

fn card(name: &str, series: &str, gen: Option<u16>, wl: Option<u32>) -> Character {
    Character { name: name.to_string(), series: series.to_string(), gen, wl }
}

fn chars(s: &str) -> Vec<char> {
    s.chars().collect()
}

fn text(v: &Vec<char>) -> String {
    v.iter().collect()
}

#[test]
fn process_string_compared_form() {
    assert_eq!(text(&process_string(&chars("Hello World!..."))), "helloworld");
    assert_eq!(text(&process_string(&chars("Rem’s 'X'"))), "remsx");
    assert_eq!(text(&process_string(&chars("ÉLAN"))), "élan");
}

#[test]
fn sub_find_exact_and_different() {
    assert_eq!(sub_find_chars(&chars("rem"), &chars("rem"), false), Ok(true));
    assert_eq!(sub_find_chars(&chars("rem"), &chars("ram"), false), Ok(false));
}

#[test]
fn sub_find_tolerates_one_confusion() {
    assert_eq!(sub_find_chars(&chars("r0m"), &chars("rom"), false), Ok(true));
    assert_eq!(sub_find_chars(&chars("iwaouesug1"), &chars("iwaouesugi"), false), Ok(true));
}

#[test]
fn sub_find_truncated_and_starred() {
    assert_eq!(sub_find_chars(&chars("iwaoue"), &chars("iwaouesugi"), true), Ok(true));
    assert_eq!(sub_find_chars(&chars("rem"), &chars("rem★"), false), Ok(true));
    assert_eq!(sub_find_chars(&chars("remrin"), &chars("rem..."), false), Ok(true));
}

#[test]
fn sub_find_char_boundary_error() {
    assert_eq!(sub_find_chars(&chars("ébx"), &chars("écx"), false), Err(CardError::CharBoundary));
}

#[test]
fn card_index_update_then_find() {
    let mut idx = CardIndex::new();
    let written = idx.update_card(card("Iwao Uesugi", "Kimi Ga Aruji", None, Some(5))).unwrap().unwrap();
    assert_eq!(written.name, "iwaouesugi");
    assert_eq!(written.series, "kimigaaruji");
    assert_eq!(written.wl, Some(5));
    assert_eq!(idx.len(), 1);
    let found = idx.find_card(&card("Iwao Uesugi", "Kimi Ga Aruji", Some(1717), None)).unwrap();
    assert_eq!(found.wl, Some(5));
    assert_eq!(found.gen, Some(1717));
    assert_eq!(found.name, "Iwao Uesugi");
}

#[test]
fn card_index_update_changes_count() {
    let mut idx = CardIndex::new();
    idx.update_card(card("Rem", "Re:Zero", None, Some(5))).unwrap();
    let w = idx.update_card(card("Rem", "Re:Zero", None, Some(9))).unwrap().unwrap();
    assert_eq!(w.wl, Some(9));
    assert_eq!(idx.len(), 1);
    assert_eq!(idx.find_card(&card("Rem", "Re:Zero", None, None)).unwrap().wl, Some(9));
}

#[test]
fn card_index_truncated_lookup_and_miss() {
    let mut idx = CardIndex::new();
    idx.load(card("iwaouesugi", "kimigaaruji", None, Some(3)));
    let found = idx.find_card(&card("Iwao Ue...", "Kimi Ga...", None, None)).unwrap();
    assert_eq!(found.wl, Some(3));
    let missed = idx.find_card(&card("Crona", "Soul Eater", None, None)).unwrap();
    assert_eq!(missed.wl, None);
    assert_eq!(missed.name, "Crona");
}

#[test]
fn card_index_truncated_update_adds_nothing() {
    let mut idx = CardIndex::new();
    assert!(idx.update_card(card("Iwao Ue...", "Kimi", None, Some(1))).unwrap().is_none());
    assert_eq!(idx.len(), 0);
}

#[test]
fn card_index_load_strips_series_marks() {
    let mut idx = CardIndex::new();
    idx.load(card("rem", "re:zero!", None, Some(4)));
    assert_eq!(idx.find_card(&card("Rem", "Rezero", None, None)).unwrap().wl, Some(4));
}

#[test]
fn card_index_dot_error() {
    let idx = CardIndex::new();
    assert!(matches!(idx.find_card(&card("..", "x", None, None)), Err(CardError::DotIndex)));
}

#[test]
fn card_index_find_cards_in_order() {
    let mut idx = CardIndex::new();
    idx.update_card(card("Rem", "Re:Zero", None, Some(1))).unwrap();
    idx.update_card(card("Ram", "Re:Zero", None, Some(2))).unwrap();
    let found = idx
        .find_cards(&vec![card("Ram", "Re:Zero", None, None), card("Emilia", "Re:Zero", None, None), card("Rem", "Re:Zero", None, None)])
        .unwrap();
    let wls: Vec<Option<u32>> = found.iter().map(|c| c.wl).collect();
    assert_eq!(wls, vec![Some(2), None, Some(1)]);
}

#[test]
fn series_index_update_then_find() {
    let mut idx = SeriesIndex::new();
    let w = idx.update_series(Series { name: "persona 4".to_string(), wl: Some(7) }).unwrap();
    assert_eq!(w.wl, Some(7));
    assert_eq!(idx.len(), 1);
    assert_eq!(idx.find_one(&Series { name: "persona 4".to_string(), wl: None }).wl, Some(7));
    idx.update_series(Series { name: "persona 4".to_string(), wl: Some(8) });
    assert_eq!(idx.len(), 1);
    assert_eq!(idx.find_one(&Series { name: "persona 4".to_string(), wl: None }).wl, Some(8));
}

#[test]
fn series_index_truncated_names() {
    let mut idx = SeriesIndex::new();
    idx.load(Series { name: "the owl house".to_string(), wl: Some(3) });
    assert!(idx.update_series(Series { name: "persona...".to_string(), wl: Some(1) }).is_none());
    assert_eq!(idx.len(), 1);
    let found = idx.find_one(&Series { name: "the owl...".to_string(), wl: None });
    assert_eq!(found.wl, None);
    idx.load(Series { name: "the owl...".to_string(), wl: Some(6) });
    let found = idx.find_series(&vec![Series { name: "the owl house".to_string(), wl: None }]);
    assert_eq!(found[0].wl, Some(3));
    let found = idx.find_one(&Series { name: "the owl...".to_string(), wl: None });
    assert_eq!(found.wl, Some(6));
    let miss = idx.find_one(&Series { name: "ring my bell".to_string(), wl: None });
    assert_eq!(miss.name, "ring my bell");
    assert_eq!(miss.wl, None);
}

#[test]
fn card_index_unique_match_after_update() {
    let mut idx = CardIndex::new();
    idx.load(card("ram", "rezero", None, Some(2)));
    idx.update_card(card("Rem", "Re:Zero", None, Some(7))).unwrap();
    let found = idx.find_cards(&vec![card("Rem", "Re:Zero", Some(3), None)]).unwrap();
    assert_eq!(found.len(), 1);
    assert_eq!(found[0].wl, Some(7));
}

#[test]
fn card_index_starred_name_does_not_match_itself() {
    let mut idx = CardIndex::new();
    idx.update_card(card("Rem★", "Re:Zero", None, Some(5))).unwrap();
    assert_eq!(idx.len(), 1);
    assert_eq!(idx.find_card(&card("Rem★", "Re:Zero", None, None)).unwrap().wl, None);
}

#[test]
fn sub_find_swapped_names_agree() {
    for (a, b) in [("rem", "ram"), ("r0m", "rom"), ("remrin", "rem"), ("iwaouesug1", "iwaouesugi"), ("abc", "abd")] {
        assert_eq!(
            sub_find_chars(&chars(a), &chars(b), false),
            sub_find_chars(&chars(b), &chars(a), false)
        );
    }
}

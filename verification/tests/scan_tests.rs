use nori::bot::{component_expired, database_name, is_config_component};
use nori::operations::message::{EmbedFieldInfo, EmbedInfo};
use nori::operations::wishlist_updaters::{read_message_updates, Scan, WishlistUpdate};
use nori::operations::wl_edit_updater::{filter as edit_filter, read_edit_updates};
use nori::utils::ocr_captcha::{captcha_card, captcha_regions, char_whitelist, read_gen, Region};
use nori::utils::ocr_series::{series_cards, series_regions};

fn embed(title: Option<&str>, description: Option<&str>, fields: Vec<(&str, &str)>) -> EmbedInfo {
    EmbedInfo {
        title: title.map(|t| t.to_string()),
        description: description.map(|d| d.to_string()),
        fields: fields
            .into_iter()
            .map(|(n, v)| EmbedFieldInfo { name: n.to_string(), value: v.to_string() })
            .collect(),
        image_url: None,
    }
}

fn summary(s: &Scan) -> Vec<String> {
    s.updates
        .iter()
        .map(|u| match u {
            WishlistUpdate::Card(c) => format!("card {}|{}|{:?}|{:?}", c.name, c.series, c.gen, c.wl),
            WishlistUpdate::Series(s) => format!("series {}|{:?}", s.name, s.wl),
        })
        .collect()
}

#[test]
fn database_names() {
    assert_eq!(database_name("mongodb://localhost:27017/nori?retryWrites=true&w=majority"), "nori");
    assert_eq!(database_name("mongodb://host"), "host");
    assert_eq!(database_name(""), "");
}

#[test]
fn config_components() {
    assert!(is_config_component("config_analysis_user_enabled_1"));
    assert!(is_config_component("configTypeSelector_user_5"));
    assert!(!is_config_component("help"));
}

#[test]
fn component_expiry() {
    assert_eq!(component_expired("config_x_100", 160), Some(false));
    assert_eq!(component_expired("config_x_100", 161), Some(true));
    assert_eq!(component_expired("config_x_abc", 5), None);
    assert_eq!(component_expired("config_x_200", 100), None);
}

#[test]
fn regions() {
    assert_eq!(captcha_regions()[2], Region { x: 41, y: 430, width: 108, height: 27 });
    assert_eq!(captcha_regions().len(), 3);
    let s = series_regions();
    assert_eq!(s.len(), 6);
    assert_eq!(s[3], Region { x: 379, y: 486, width: 287, height: 27 });
    assert_eq!(char_whitelist(&s[4]), "1234567890");
    assert_eq!(char_whitelist(&s[0]), "");
}

#[test]
fn generations_read() {
    assert_eq!(read_gen(Some(&"1234".to_string())), Some(Some(1234)));
    assert_eq!(read_gen(Some(&"0".to_string())), Some(None));
    assert_eq!(read_gen(None), Some(None));
    assert_eq!(read_gen(Some(&String::new())), None);
    assert_eq!(read_gen(Some(&"99999".to_string())), None);
}

fn strings(v: &[&str]) -> Vec<String> {
    v.iter().map(|s| s.to_string()).collect()
}

#[test]
fn captcha_cards() {
    let c = captcha_card(&strings(&["Rem", "Re:Zero", "1234"])).unwrap();
    assert_eq!((c.name.as_str(), c.series.as_str(), c.gen, c.wl), ("Rem", "Re:Zero", Some(1234), None));
    assert_eq!(captcha_card(&strings(&["Rem", "Re:Zero"])).unwrap().gen, None);
    assert!(captcha_card(&strings(&["Rem", "Re:Zero", ""])).is_none());
    assert!(captcha_card(&strings(&["Rem"])).is_none());
}

#[test]
fn series_drop_cards() {
    let v = series_cards(&strings(&["Rem", "Re:Zero", "Crona", "Soul Eater", "12", "34"])).unwrap();
    assert_eq!(v.len(), 2);
    assert_eq!((v[0].name.as_str(), v[0].series.as_str(), v[0].gen), ("Rem", "Re:Zero", None));
    assert_eq!((v[1].name.as_str(), v[1].series.as_str(), v[1].gen), ("Crona", "Soul Eater", None));
    let v = series_cards(&strings(&["a", "b", "c", "d", "", "", "12", "0"])).unwrap();
    assert_eq!((v[0].gen, v[1].gen), (Some(12), None));
    assert!(series_cards(&strings(&["a", "b", "c"])).is_none());
}

#[test]
fn lookup_updates_card() {
    let d = "**Series: ** Re:Zero\n**Name: ** Rem\nother\n**`Wishlisted ➜** `1234`";
    let s = read_message_updates(&vec![embed(Some("LOOKUP"), Some(d), vec![])]);
    assert!(s.complete);
    assert_eq!(summary(&s), vec!["card Rem|Re:Zero|None|Some(1234)"]);
}

#[test]
fn collection_updates_cards_and_series() {
    let d = "__**Re:Zero**__\nCards Collected: 2\n*Total Wishlist:* **500**";
    let f = "`1` **Rem** ❤️ `300`\n`2` **Ram** ❤️ `200`";
    let s = read_message_updates(&vec![embed(Some("x"), Some(d), vec![("Cards", f)])]);
    assert!(s.complete);
    assert_eq!(
        summary(&s),
        vec!["card Rem|Re:Zero|None|Some(300)", "card Ram|Re:Zero|None|Some(200)", "series Re:Zero|Some(500)"]
    );
}

#[test]
fn collection_stops_at_unreadable_line() {
    let d = "__**Re:Zero**__\nCards Collected: 2\n*Total Wishlist:* **500**";
    let f = "`1` **Rem** ❤️ `300`\nbroken";
    let s = read_message_updates(&vec![embed(None, Some(d), vec![("Cards", f)])]);
    assert!(!s.complete);
    assert_eq!(summary(&s), vec!["card Rem|Re:Zero|None|Some(300)"]);
}

#[test]
fn listings_update() {
    let s = read_message_updates(&vec![embed(
        Some("__Characters Lookup__"),
        Some("`1` •  **Rem** • *Re:Zero* ❤️ 12`"),
        vec![],
    )]);
    assert_eq!(summary(&s), vec!["card Rem|Re:Zero|None|Some(12)"]);
    let s = read_message_updates(&vec![embed(Some("SERIES"), Some("`1` **Re:Zero** ❤️ `500`\nPage 1"), vec![])]);
    assert!(s.complete);
    assert_eq!(summary(&s), vec!["series Re:Zero|Some(500)"]);
    let s = read_message_updates(&vec![embed(
        Some("WISHLIST LEADERBOARD - CHARACTERS"),
        Some("`1` • **Rem** • *Re:Zero* > `900`"),
        vec![],
    )]);
    assert_eq!(summary(&s), vec!["card Rem|Re:Zero|None|Some(900)"]);
    let s = read_message_updates(&vec![embed(Some("Random"), Some("text"), vec![])]);
    assert!(s.complete);
    assert!(s.updates.is_empty());
    assert!(read_message_updates(&Vec::new()).updates.is_empty());
}

#[test]
fn edits_update() {
    assert!(edit_filter(&Some(vec![embed(Some("WISHLIST LEADERBOARD - SERIES"), None, vec![])])));
    assert!(!edit_filter(&None));
    assert!(!edit_filter(&Some(vec![embed(Some("Other"), None, vec![])])));
    let s = read_edit_updates(&vec![embed(Some("Cards (Sort By: Wishlist)"), Some("**Rem** •  *Re:Zero* > `77`"), vec![])]);
    assert_eq!(summary(&s), vec!["card Rem|Re:Zero|None|Some(77)"]);
    let s = read_edit_updates(&vec![embed(Some("WISHLIST LEADERBOARD - SERIES"), Some("`1` • **Re:Zero** > `500`"), vec![])]);
    assert_eq!(summary(&s), vec!["series Re:Zero|Some(500)"]);
}

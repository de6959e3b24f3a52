use nori::operations::drop::{
    blank, c, card_from_field, cards_from_fields, drop_config, drop_sets_reminder, drop_source,
    drop_user_id, g, get_message, read_field_piece, uppercase_first, DropConfig, DropSource,
    WLEMOJI,
};
use nori::operations::message::EmbedFieldInfo;
use nori::utils::cards_handler::Character;
use nori::utils::config_data::{get_config_data, ConfigData, ConfigDoc, ConfigValue, Setting};

fn card(name: &str, series: &str, gen: Option<u16>, wl: Option<u32>) -> Character {
    Character { name: name.to_string(), series: series.to_string(), gen, wl }
}

fn field(name: &str, value: &str) -> EmbedFieldInfo {
    EmbedFieldInfo { name: name.to_string(), value: value.to_string() }
}

#[test]
fn blank_pads_to_length() {
    assert_eq!(blank("5".to_string(), 4), "5   ");
    assert_eq!(blank("53".to_string(), 4), "53  ");
    assert_eq!(blank("?".to_string(), 4), "?   ");
}

#[test]
fn blank_leaves_long_text() {
    assert_eq!(blank("12345".to_string(), 4), "12345");
    assert_eq!(blank("1234".to_string(), 4), "1234");
}

#[test]
fn blank_stops_after_ten_bytes() {
    assert_eq!(blank(String::new(), 20), " ".repeat(11));
    assert_eq!(blank("1234567890".to_string(), 20), "1234567890 ");
}

#[test]
fn blank_counts_bytes() {
    assert_eq!(blank("ɢ".to_string(), 4), "ɢ  ");
}

#[test]
fn uppercase_first_capitalizes_words() {
    assert_eq!(uppercase_first(&"hello world".to_string()), "Hello World");
    assert_eq!(uppercase_first(&"kimi ga aruji...".to_string()), "Kimi Ga Aruji...");
}

#[test]
fn uppercase_first_keeps_inner_spaces_and_trims() {
    assert_eq!(uppercase_first(&"  a  b".to_string()), "A  B");
    assert_eq!(uppercase_first(&String::new()), "");
}

#[test]
fn uppercase_first_uses_full_uppercase() {
    assert_eq!(uppercase_first(&"ßa".to_string()), "SSa");
    assert_eq!(uppercase_first(&"émilie".to_string()), "Émilie");
}

#[test]
fn c_writes_counts() {
    assert_eq!(c(&None), "?");
    assert_eq!(c(&Some(42)), "42");
    assert_eq!(c(&Some(0)), "0");
    assert_eq!(c(&Some(4294967295)), "4294967295");
}

#[test]
fn g_writes_generations() {
    assert_eq!(g(&None), "");
    assert_eq!(g(&Some(7)), "• `ɢ7   ` ");
    assert_eq!(g(&Some(12345)), "• `ɢ12345` ");
}

#[test]
fn get_message_with_ping_and_time() {
    let cards = vec![
        card("iwao uesugi", "kimi ga aruji...", Some(1717), Some(0)),
        card("crona", "soul eater", Some(1171), Some(53)),
        card("takumi", "ao-chan", None, None),
    ];
    let expected = format!(
        "`1]` • {WLEMOJI} `0   ` • `ɢ1717` • **Iwao Uesugi** • Kimi Ga Aruji...\n`2]` • {WLEMOJI} `53  ` • `ɢ1171` • **Crona** • Soul Eater\n`3]` • {WLEMOJI} `?   ` • **Takumi** • Ao-chan\n<@42> Took 1140ms to produce."
    );
    assert_eq!(get_message(&1, &cards, &true, &true, "42", &1140), expected);
}

#[test]
fn get_message_without_ping_or_time() {
    let cards = vec![
        card("a", "b", None, Some(1)),
        card("c", "d", None, Some(2)),
        card("e", "f", None, Some(3)),
    ];
    let expected = format!(
        "`1]` • {WLEMOJI} `1   ` • **A** • B\n`2]` • {WLEMOJI} `2   ` • **C** • D\n`3]` • {WLEMOJI} `3   ` • **E** • F\n"
    );
    assert_eq!(get_message(&2, &cards, &false, &false, "42", &5), expected);
}

#[test]
fn drop_user_id_reads_mention() {
    assert_eq!(drop_user_id("<@123> is dropping the cards"), "123");
    assert_eq!(drop_user_id("Hey <@77>, <@88> is dropping the cards"), "77");
}

#[test]
fn drop_user_id_defaults_to_owner() {
    assert_eq!(drop_user_id("Your extra drop is being used."), "353623899184824330");
    assert_eq!(drop_user_id("<@12 without end"), "353623899184824330");
}

#[test]
fn read_field_piece_normalizes() {
    let r: Vec<char> = read_field_piece(&"```\nIwao Uesugi```".chars().collect());
    assert_eq!(r.iter().collect::<String>(), "iwao uesugi");
    let r: Vec<char> = read_field_piece(&"```Kimi Ga Aruji-```".chars().collect());
    assert_eq!(r.iter().collect::<String>(), "kimi ga aruji...");
}

#[test]
fn card_from_field_reads_card() {
    let f = field("Card 1 • Gen 1717", "```Iwao Uesugi```\n\n```Kimi Ga Aruji-```");
    let c = card_from_field(&f).unwrap();
    assert_eq!(c.name, "iwao uesugi");
    assert_eq!(c.series, "kimi ga aruji...");
    assert_eq!(c.gen, Some(1717));
    assert_eq!(c.wl, None);
}

#[test]
fn card_from_field_unreadable_generation_is_zero() {
    let f = field("Gen abc", "Rem\n\nRe:Zero");
    let c = card_from_field(&f).unwrap();
    assert_eq!(c.gen, Some(0));
    assert_eq!(c.name, "rem");
    assert_eq!(c.series, "re:zero");
}

#[test]
fn card_from_field_fails_without_markers() {
    assert!(card_from_field(&field("Card 1", "Rem\n\nRe:Zero")).is_none());
    assert!(card_from_field(&field("Gen 5", "Rem Re:Zero")).is_none());
}

#[test]
fn cards_from_fields_needs_three() {
    let f1 = field("Gen 1", "A\n\nB");
    let f2 = field("Gen 2", "C\n\nD");
    let f3 = field("Gen 3", "E\n\nF");
    assert!(cards_from_fields(&vec![field("Gen 1", "A\n\nB"), field("Gen 2", "C\n\nD")]).is_none());
    let cards = cards_from_fields(&vec![f1, f2, f3]).unwrap();
    assert_eq!(cards.len(), 3);
    assert_eq!(cards[2].name, "e");
    assert_eq!(cards[2].gen, Some(3));
}

#[test]
fn drop_config_defaults() {
    let data = get_config_data("analysis", false, None, None, "_all").unwrap();
    match drop_config(&data) {
        DropConfig::Enabled(s) => {
            assert_eq!(s.show_gen, Some(true));
            assert_eq!(s.typ, 1);
            assert!(s.ping);
            assert!(s.show_time);
            assert!(!s.expire_delete);
        }
        _ => panic!("analysis is on by default"),
    }
}

#[test]
fn drop_config_disabled_by_user() {
    let user = ConfigDoc { entries: vec![("enabled".to_string(), ConfigValue::Bool(false))] };
    let data = get_config_data("analysis", true, Some(&user), None, "_all").unwrap();
    assert!(matches!(drop_config(&data), DropConfig::Disabled));
}

#[test]
fn drop_config_unreadable_type() {
    let user = ConfigDoc { entries: vec![("type".to_string(), ConfigValue::Int32(300))] };
    let data = get_config_data("analysis", true, Some(&user), None, "_all").unwrap();
    assert!(matches!(drop_config(&data), DropConfig::Unreadable));
    let single = ConfigData::Single(Setting { server_default: true, value: ConfigValue::Bool(true) });
    assert!(matches!(drop_config(&single), DropConfig::Unreadable));
}

#[test]
fn drop_source_prefers_link() {
    let urls = vec!["http://a".to_string()];
    match drop_source(&urls, Some("http://b".to_string())) {
        DropSource::Image(u) => assert_eq!(u, "http://b"),
        DropSource::Embed => panic!("a link is given"),
    }
    match drop_source(&urls, None) {
        DropSource::Image(u) => assert_eq!(u, "http://a"),
        DropSource::Embed => panic!("an attachment is there"),
    }
    assert!(matches!(drop_source(&Vec::new(), None), DropSource::Embed));
}

#[test]
fn extra_drop_sets_no_reminder() {
    assert!(!drop_sets_reminder("Your extra drop is being used."));
    assert!(drop_sets_reminder("<@1> is dropping the cards"));
}

#[test]
fn uppercase_first_twice_is_once() {
    for s in ["soul eater", "  hello   world  ", "kimi ga aruji...", "a-b c:d 1x"] {
        let once = uppercase_first(&s.to_string());
        assert_eq!(uppercase_first(&once), once);
    }
    assert_eq!(uppercase_first(&"soul eater".to_string()), "Soul Eater");
}

use nori::operations::captcha::captcha_reply;
use nori::operations::drop::WLEMOJI;
use nori::operations::eval::{
    parse_eval, EvalCommand, DEFAULT_CAPTCHA_IMAGE, DEFAULT_DROP_IMAGE, DEFAULT_SERIES_IMAGE,
    DEFAULT_SERIES_VOTE, GRAB_TEST_CONTENT,
};
use nori::operations::grab_reminder::grab_user_id;
use nori::operations::message::{route, EmbedInfo, MessageInfo, Route, OWNER_ID, SOFI_ID};
use nori::operations::minigame::{minigame_card, minigame_reply};
use nori::operations::series1::{series_vote_reply, vote_series};
use nori::operations::series2::series_drop_reply;
use nori::utils::cards_handler::Character;
use nori::utils::series_handler::Series;

fn message(author_id: u64, author_bot: bool, content: &str, embeds: Vec<EmbedInfo>) -> MessageInfo {
    MessageInfo {
        author_id,
        author_bot,
        content: content.to_string(),
        embeds,
        attachment_urls: Vec::new(),
    }
}

fn embed(title: Option<&str>, description: Option<&str>) -> EmbedInfo {
    EmbedInfo {
        title: title.map(|t| t.to_string()),
        description: description.map(|d| d.to_string()),
        fields: Vec::new(),
        image_url: None,
    }
}

#[test]
fn route_drop_first() {
    let m = message(SOFI_ID, true, "<@1> is dropping the cards", vec![embed(Some("MINIGAME"), None)]);
    assert_eq!(route(&m), Route::Drop);
    let m = message(SOFI_ID, true, "Your extra drop is being used.", vec![]);
    assert_eq!(route(&m), Route::Drop);
}

#[test]
fn route_each_kind() {
    assert_eq!(route(&message(OWNER_ID, false, "ne drop", vec![])), Route::Eval);
    assert_eq!(route(&message(SOFI_ID, true, "", vec![embed(Some("MINIGAME"), None)])), Route::Minigame);
    assert_eq!(route(&message(SOFI_ID, true, "", vec![embed(Some("Captcha Drop"), None)])), Route::Captcha);
    let vote = embed(None, Some("**I will drop cards from the most voted series :smugsofi:\nx"));
    assert_eq!(route(&message(SOFI_ID, true, "", vec![vote])), Route::Series1);
    assert_eq!(route(&message(SOFI_ID, true, "**Series drop**", vec![])), Route::Series2);
    assert_eq!(route(&message(SOFI_ID, true, "hello", vec![])), Route::Wishlist);
}

#[test]
fn route_ignores_other_bots_and_users() {
    assert_eq!(route(&message(5, true, "ne drop", vec![])), Route::Nothing);
    assert_eq!(route(&message(5, false, "ne drop", vec![])), Route::Nothing);
    assert_eq!(route(&message(OWNER_ID, false, "hello", vec![])), Route::Nothing);
}

fn command_text(c: &EvalCommand) -> (&'static str, String) {
    match c {
        EvalCommand::Drop(s) => ("drop", s.clone()),
        EvalCommand::Captcha(s) => ("captcha", s.clone()),
        EvalCommand::Series1(s) => ("series1", s.clone()),
        EvalCommand::Series2(s) => ("series2", s.clone()),
        EvalCommand::Stop => ("stop", String::new()),
        EvalCommand::GrabReminder(s) => ("grabrem", s.clone()),
        EvalCommand::Say(s) => ("say", s.clone()),
        EvalCommand::Unknown => ("unknown", String::new()),
    }
}

#[test]
fn eval_defaults() {
    assert_eq!(command_text(&parse_eval("ne drop")), ("drop", DEFAULT_DROP_IMAGE.to_string()));
    assert_eq!(command_text(&parse_eval("ne captcha")), ("captcha", DEFAULT_CAPTCHA_IMAGE.to_string()));
    assert_eq!(command_text(&parse_eval("ne series1")), ("series1", DEFAULT_SERIES_VOTE.to_string()));
    assert_eq!(command_text(&parse_eval("ne series2")), ("series2", DEFAULT_SERIES_IMAGE.to_string()));
    assert_eq!(
        command_text(&parse_eval("ne grabrem anything")),
        ("grabrem", GRAB_TEST_CONTENT.to_string())
    );
}

#[test]
fn eval_with_input() {
    assert_eq!(command_text(&parse_eval("ne drop http://x/y.png")), ("drop", "http://x/y.png".to_string()));
    assert_eq!(command_text(&parse_eval("ne say hello there")), ("say", "hello there".to_string()));
    assert_eq!(command_text(&parse_eval("ne stop")), ("stop", String::new()));
    assert_eq!(command_text(&parse_eval("ne foo bar")), ("unknown", String::new()));
    assert_eq!(command_text(&parse_eval("ne  drop")), ("unknown", String::new()));
}

#[test]
fn grab_user_from_grab() {
    assert_eq!(
        grab_user_id("<@353623899184824330> took the card Hikari Kohinata | mvgxn7 | :woodw: Wood"),
        Some("353623899184824330".to_string())
    );
    assert_eq!(grab_user_id("someone took the card"), None);
}

#[test]
fn grab_user_from_battle() {
    assert_eq!(grab_user_id("<@1> battled <@2>"), Some("1".to_string()));
    assert_eq!(grab_user_id("nobody battled <@2>"), None);
}

#[test]
fn minigame_reads_card() {
    let d = Some("**Rem** *(Re:Zero)*".to_string());
    assert_eq!(minigame_card(&d), Some(("Rem".to_string(), "Re:Zero".to_string())));
    assert_eq!(minigame_card(&None), None);
    assert_eq!(minigame_card(&Some("no markers".to_string())), None);
}

#[test]
fn minigame_reply_text() {
    assert_eq!(
        minigame_reply(&Some(12), "Rem", "Re:Zero"),
        format!("`1]` • {WLEMOJI} 12 • **Rem** • Re:Zero")
    );
    assert_eq!(minigame_reply(&None, "A", "B"), format!("`1]` • {WLEMOJI} ? • **A** • B"));
}

#[test]
fn vote_series_reads_three() {
    let d = "header\n1] Ring My Bell\n2] The Owl House\n3] Persona 4**\nfooter";
    let v = vote_series(d).unwrap();
    let names: Vec<String> = v.iter().map(|s| s.name.clone()).collect();
    assert_eq!(names, vec!["Ring My Bell", "The Owl House", "Persona 4"]);
    assert!(v.iter().all(|s| s.wl.is_none()));
}

#[test]
fn vote_series_fails_where_lines_are_missing() {
    assert!(vote_series(DEFAULT_SERIES_VOTE).is_none());
    assert!(vote_series("h\n1] A\nB\n3] C\nf").is_none());
    let v = vote_series("h\n1] A\n2] B\n3] C\n4] D\nf").unwrap();
    assert_eq!(v.len(), 3);
    assert_eq!(v[2].name, "C");
}

#[test]
fn series1_counts_default_to_zero() {
    assert_eq!(nori::operations::series1::c(&None), "0");
    assert_eq!(nori::operations::series1::c(&Some(9)), "9");
}

#[test]
fn series_vote_reply_text() {
    let found = vec![
        Series { name: "Ring My Bell".to_string(), wl: Some(5) },
        Series { name: "The Owl House".to_string(), wl: None },
        Series { name: "Persona 4".to_string(), wl: Some(12345) },
    ];
    let expected = format!(
        "`1]` • {WLEMOJI} `5   ` • Ring My Bell\n`2]` • {WLEMOJI} `0   ` • The Owl House\n`3]` • {WLEMOJI} `12345` • Persona 4"
    );
    assert_eq!(series_vote_reply(&found), expected);
}

#[test]
fn captcha_reply_text() {
    let read = Character { name: "rem".to_string(), series: "re:zero".to_string(), gen: Some(5), wl: None };
    assert_eq!(
        captcha_reply(&Some(3), &read),
        format!("`1]` • {WLEMOJI} `3   ` • `ɢ5   ` • **Rem** • Re:zero")
    );
}

#[test]
fn series_drop_reply_text() {
    let found = vec![
        Character { name: "x".to_string(), series: "y".to_string(), gen: None, wl: Some(10) },
        Character { name: "x".to_string(), series: "y".to_string(), gen: None, wl: None },
    ];
    let read = vec![
        Character { name: "rem".to_string(), series: "re:zero".to_string(), gen: None, wl: None },
        Character { name: "ram".to_string(), series: "re:zero".to_string(), gen: Some(12), wl: None },
    ];
    assert_eq!(
        series_drop_reply(&found, &read),
        format!("`1]` • {WLEMOJI} `10  ` • **Rem** • Re:zero\n`2]` • {WLEMOJI} `?   ` • `ɢ12  ` • **Ram** • Re:zero")
    );
}

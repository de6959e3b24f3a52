use vstd::prelude::*;

use crate::operations::message::{MessageInfo, OWNER_ID};
use crate::text::{
    chars_equal, chars_of, contains, lemma_find, split_once, split_once_chars, starts_with,
    starts_with_chars, string_of,
};

verus! {

/// A command of the owner to the bot.
pub open spec fn is_owner_command(m: MessageInfo) -> bool {
    m.author_id == OWNER_ID && starts_with(m.content@, "ne "@)
}

/// Whether `message` is a command of the owner (it starts with `ne `).
pub fn filter(message: &MessageInfo) -> (r: bool)
    ensures
        r == is_owner_command(*message),
{
    message.author_id == OWNER_ID && starts_with_chars(&chars_of(message.content.as_str()), &chars_of("ne "))
}

/// The image a test drop reads when none is given.
pub const DEFAULT_DROP_IMAGE: &'static str = "https://cdn.discordapp.com/attachments/1071872668938293340/1087771735341940748/31058602-b753-467c-a2b3-889acfdcb28f.webp";

/// The image a test captcha drop shows when none is given.
pub const DEFAULT_CAPTCHA_IMAGE: &'static str = "https://cdn.discordapp.com/attachments/1060674994859933846/1089522639413981264/card.png";

/// The description a test series vote shows when none is given.
pub const DEFAULT_SERIES_VOTE: &'static str = "**I will drop cards from the most voted series :smugsofi:\n            1] Ring My Bell\n            2] The Owl House\n            3] Persona 4**";

/// The image a test series drop sends when none is given.
pub const DEFAULT_SERIES_IMAGE: &'static str = "https://cdn.discordapp.com/attachments/1060674994859933846/1076450380633878528/drop.png";

/// The message a test grab reminder reads.
pub const GRAB_TEST_CONTENT: &'static str = "<@353623899184824330> took the card Hikari Kohinata | mvgxn7 | :woodw: Wood";

/// A command of the owner, with what it works on.
pub enum EvalCommand {
    /// Analyse a drop whose image is at this address.
    Drop(String),
    /// Show a captcha drop with this image, then analyse it.
    Captcha(String),
    /// Show a series vote with this description, then analyse it.
    Series1(String),
    /// Send a series drop with this image, then analyse it.
    Series2(String),
    /// Stop the reminders.
    Stop,
    /// Handle a grab reported by this message text.
    GrabReminder(String),
    /// Say this text.
    Say(String),
    /// A command the bot does not know: nothing is done.
    Unknown,
}

/// The value of an [`EvalCommand`].
pub enum EvalCommandView {
    Drop(Seq<char>),
    Captcha(Seq<char>),
    Series1(Seq<char>),
    Series2(Seq<char>),
    Stop,
    GrabReminder(Seq<char>),
    Say(Seq<char>),
    Unknown,
}

impl View for EvalCommand {
    type V = EvalCommandView;

    open spec fn view(&self) -> EvalCommandView {
        match self {
            EvalCommand::Drop(s) => EvalCommandView::Drop(s@),
            EvalCommand::Captcha(s) => EvalCommandView::Captcha(s@),
            EvalCommand::Series1(s) => EvalCommandView::Series1(s@),
            EvalCommand::Series2(s) => EvalCommandView::Series2(s@),
            EvalCommand::Stop => EvalCommandView::Stop,
            EvalCommand::GrabReminder(s) => EvalCommandView::GrabReminder(s@),
            EvalCommand::Say(s) => EvalCommandView::Say(s@),
            EvalCommand::Unknown => EvalCommandView::Unknown,
        }
    }
}

/// The command word and its input: the text after the first space is split at its own first
/// space (the input is empty when there is none).
pub open spec fn eval_parts(content: Seq<char>) -> (Seq<char>, Seq<char>) {
    let c = split_once(content, " "@).unwrap().1;
    match split_once(c, " "@) {
        Some((a, b)) => (a, b),
        None => (c, Seq::empty()),
    }
}

/// `input`, or `default` when it is empty.
pub open spec fn or_default(input: Seq<char>, default: Seq<char>) -> Seq<char> {
    if input.len() == 0 {
        default
    } else {
        input
    }
}

/// The owner's command written in `content`.
pub open spec fn eval_command(content: Seq<char>) -> EvalCommandView {
    let (typ, input) = eval_parts(content);
    if typ == "drop"@ {
        EvalCommandView::Drop(or_default(input, DEFAULT_DROP_IMAGE@))
    } else if typ == "captcha"@ {
        EvalCommandView::Captcha(or_default(input, DEFAULT_CAPTCHA_IMAGE@))
    } else if typ == "series1"@ {
        EvalCommandView::Series1(or_default(input, DEFAULT_SERIES_VOTE@))
    } else if typ == "series2"@ {
        EvalCommandView::Series2(or_default(input, DEFAULT_SERIES_IMAGE@))
    } else if typ == "stop"@ {
        EvalCommandView::Stop
    } else if typ == "grabrem"@ {
        EvalCommandView::GrabReminder(GRAB_TEST_CONTENT@)
    } else if typ == "say"@ {
        EvalCommandView::Say(input)
    } else {
        EvalCommandView::Unknown
    }
}

fn input_or(input: &Vec<char>, default: &str) -> (r: String)
    ensures
        r@ == or_default(input@, default@),
{
    if input.len() == 0 {
        string_of(&chars_of(default))
    } else {
        string_of(input)
    }
}

/// Reads the owner's command in `content`, which holds a space (every owner command starts
/// with `ne `); see [`eval_command`].
pub fn parse_eval(content: &str) -> (r: EvalCommand)
    requires
        contains(content@, " "@),
    ensures
        r@ == eval_command(content@),
{
    let space = chars_of(" ");
    proof {
        lemma_find(content@, " "@);
    }
    let c = match split_once_chars(&chars_of(content), &space) {
        Some((_, b)) => b,
        None => Vec::new(),
    };
    let (typ, input) = match split_once_chars(&c, &space) {
        Some((a, b)) => (a, b),
        None => (c, Vec::new()),
    };
    if chars_equal(&typ, &chars_of("drop")) {
        EvalCommand::Drop(input_or(&input, DEFAULT_DROP_IMAGE))
    } else if chars_equal(&typ, &chars_of("captcha")) {
        EvalCommand::Captcha(input_or(&input, DEFAULT_CAPTCHA_IMAGE))
    } else if chars_equal(&typ, &chars_of("series1")) {
        EvalCommand::Series1(input_or(&input, DEFAULT_SERIES_VOTE))
    } else if chars_equal(&typ, &chars_of("series2")) {
        EvalCommand::Series2(input_or(&input, DEFAULT_SERIES_IMAGE))
    } else if chars_equal(&typ, &chars_of("stop")) {
        EvalCommand::Stop
    } else if chars_equal(&typ, &chars_of("grabrem")) {
        EvalCommand::GrabReminder(string_of(&chars_of(GRAB_TEST_CONTENT)))
    } else if chars_equal(&typ, &chars_of("say")) {
        EvalCommand::Say(string_of(&input))
    } else {
        EvalCommand::Unknown
    }
}

} // verus!

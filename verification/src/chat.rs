//! Messages from a chat and the commands they carry.

use crate::text::{lowercase_text, lowercased, str_eq, trim_text, trimmed};
use vstd::prelude::*;
use vstd::string::*;

verus! {

/// A message as a chat delivers it.
#[derive(Debug, Clone)]
pub struct ChatMessage {
    pub username: String,
    pub user_id: Option<String>,
    pub message: String,
    pub channel: String,
}

/// What a message asks for.
#[derive(Debug, Clone, PartialEq)]
pub enum ChatCommand {
    /// An answer to the question: one of the letters a, b, c, d.
    Answer { username: String, user_id: Option<String>, answer: String },
    /// A vote to use the card of that name.
    UseCard { username: String, user_id: Option<String>, card_name: String },
    /// Anything else.
    Unknown,
}

/// The mathematical content of a [`ChatCommand`].
pub enum CommandView {
    Answer { username: Seq<char>, user_id: Option<Seq<char>>, answer: Seq<char> },
    UseCard { username: Seq<char>, user_id: Option<Seq<char>>, card_name: Seq<char> },
    Unknown,
}

/// The content of a text that may be missing.
pub open spec fn optional_text(s: Option<String>) -> Option<Seq<char>> {
    match s {
        Some(t) => Some(t@),
        None => None,
    }
}

impl View for ChatCommand {
    type V = CommandView;

    open spec fn view(&self) -> CommandView {
        match *self {
            ChatCommand::Answer { username, user_id, answer } => CommandView::Answer {
                username: username@,
                user_id: optional_text(user_id),
                answer: answer@,
            },
            ChatCommand::UseCard { username, user_id, card_name } => CommandView::UseCard {
                username: username@,
                user_id: optional_text(user_id),
                card_name: card_name@,
            },
            ChatCommand::Unknown => CommandView::Unknown,
        }
    }
}

/// Whether the text is one of the four answer letters.
pub open spec fn is_answer(msg: Seq<char>) -> bool {
    msg == "a"@ || msg == "b"@ || msg == "c"@ || msg == "d"@
}

/// What follows `use ` at the start of a text, if the text starts so.
pub open spec fn after_use(msg: Seq<char>) -> Option<Seq<char>> {
    if msg.len() >= 4 && msg.take(4) == "use "@ {
        Some(msg.skip(4))
    } else {
        None
    }
}

/// The command of a message by `username` whose text, trimmed and in lower
/// case, is `msg`, and whose card name, where the text starts with `use `,
/// is what follows, trimmed.
pub open spec fn command_of(
    username: Seq<char>,
    user_id: Option<Seq<char>>,
    msg: Seq<char>,
    card_name: Option<Seq<char>>,
) -> CommandView {
    if is_answer(msg) {
        CommandView::Answer { username, user_id, answer: msg }
    } else {
        match card_name {
            Some(name) => if name.len() > 0 {
                CommandView::UseCard { username, user_id, card_name: name }
            } else {
                CommandView::Unknown
            },
            None => CommandView::Unknown,
        }
    }
}

/// The card name in a text that is trimmed and in lower case.
pub open spec fn card_name_in(msg: Seq<char>) -> Option<Seq<char>> {
    match after_use(msg) {
        Some(rest) => Some(trimmed(rest)),
        None => None,
    }
}

/// What follows `use ` at the start of a text, if the text starts so.
pub fn strip_use(msg: &str) -> (r: Option<&str>)
    ensures
        match after_use(msg@) {
            Some(rest) => r matches Some(x) && x@ == rest,
            None => r is None,
        },
{
    let n = msg.unicode_len();
    if n >= 4 && str_eq(msg.substring_char(0, 4), "use ") {
        Some(msg.substring_char(4, n))
    } else {
        None
    }
}

fn copy_optional(s: &Option<String>) -> (r: Option<String>)
    ensures
        optional_text(r) == optional_text(*s),
{
    match s {
        Some(t) => Some(t.clone()),
        None => None,
    }
}

impl ChatMessage {
    /// The command of this message, given its text trimmed and in lower
    /// case, and the trimmed card name that the text holds behind `use `.
    pub fn command_from(&self, msg: String, card_name: Option<String>) -> (r: ChatCommand)
        ensures
            r@ == command_of(
                self.username@,
                optional_text(self.user_id),
                msg@,
                optional_text(card_name),
            ),
    {
        if str_eq(msg.as_str(), "a") || str_eq(msg.as_str(), "b") || str_eq(msg.as_str(), "c")
            || str_eq(msg.as_str(), "d") {
            return ChatCommand::Answer {
                username: self.username.clone(),
                user_id: copy_optional(&self.user_id),
                answer: msg,
            };
        }
        match card_name {
            Some(name) => {
                if name.as_str().unicode_len() > 0 {
                    ChatCommand::UseCard {
                        username: self.username.clone(),
                        user_id: copy_optional(&self.user_id),
                        card_name: name,
                    }
                } else {
                    ChatCommand::Unknown
                }
            },
            None => ChatCommand::Unknown,
        }
    }

    /// The command that the message carries: an answer, where its text,
    /// trimmed and in lower case, is one of the letters a, b, c, d; the use
    /// of a card, where that text starts with `use ` and a name follows.
    pub fn parse_command(&self) -> (r: ChatCommand)
        ensures
            r@ == command_of(
                self.username@,
                optional_text(self.user_id),
                lowercased(trimmed(self.message@)),
                card_name_in(lowercased(trimmed(self.message@))),
            ),
    {
        let msg = lowercase_text(trim_text(self.message.as_str()));
        let card_name: Option<String> = match strip_use(msg.as_str()) {
            Some(rest) => Some(trim_text(rest).to_string()),
            None => None,
        };
        self.command_from(msg, card_name)
    }
}

} // verus!

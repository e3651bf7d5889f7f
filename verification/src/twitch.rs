//! Lines of the Twitch chat protocol.
//!
//! A message line has the form
//! `:user!user@user.tmi.twitch.tv PRIVMSG #channel :text`, with optional tags
//! before it: `@key=value;key=value :user!...`.

use crate::chat::{optional_text, ChatMessage};
use crate::text::{
    chars_of, find_char, index_of_from, lemma_search_from, search, search_from, str_eq,
};
use vstd::prelude::*;
use vstd::string::*;

verus! {

/// The mathematical content of a [`ChatMessage`].
pub struct MessageView {
    pub username: Seq<char>,
    pub user_id: Option<Seq<char>>,
    pub message: Seq<char>,
    pub channel: Seq<char>,
}

impl View for ChatMessage {
    type V = MessageView;

    open spec fn view(&self) -> MessageView {
        MessageView {
            username: self.username@,
            user_id: optional_text(self.user_id),
            message: self.message@,
            channel: self.channel@,
        }
    }
}

/// The user id that one tag holds: what follows `user-id=`, unless that is
/// empty.
pub open spec fn tag_user_id(tag: Seq<char>) -> Option<Seq<char>> {
    let eq = index_of_from(tag, '=', 0);
    if 0 <= eq < tag.len() && tag.take(eq) == "user-id"@ && tag.len() > eq + 1 {
        Some(tag.skip(eq + 1))
    } else {
        None
    }
}

/// The user id that the tags between the positions `from` and `end` of a
/// line hold, or `found` if they hold none. Tags are separated by `;`; the
/// last tag that holds a user id decides.
pub open spec fn tags_user_id(
    line: Seq<char>,
    from: int,
    end: int,
    found: Option<Seq<char>>,
) -> Option<Seq<char>>
    decreases end - from,
{
    if from < 0 || from > end || end > line.len() {
        found
    } else {
        let semi = index_of_from(line, ';', from);
        let stop = if from <= semi < end {
            semi
        } else {
            end
        };
        let here = match tag_user_id(line.subrange(from, stop)) {
            Some(id) => Some(id),
            None => found,
        };
        if stop >= end {
            here
        } else {
            tags_user_id(line, stop + 1, end, here)
        }
    }
}

/// Where the tags of a line end: at the first space before a colon, if the
/// line starts with `@` and holds one.
pub open spec fn tags_end(line: Seq<char>) -> Option<int> {
    if line.len() > 0 && line[0] == '@' {
        search_from(line, " :"@, 0)
    } else {
        None
    }
}

/// The message in the part of a line from position `start` on, sent by the
/// user of that id: the part has the form `:user!... PRIVMSG channel :text`.
pub open spec fn message_from(line: Seq<char>, start: int, user_id: Option<Seq<char>>) -> Option<
    MessageView,
> {
    if 0 <= start < line.len() && line[start] == ':' {
        let bang = index_of_from(line, '!', start + 1);
        if bang < line.len() {
            match search_from(line, " PRIVMSG "@, bang + 1) {
                Some(at) => match search_from(line, " :"@, at + 9) {
                    Some(colon) => Some(
                        MessageView {
                            username: line.subrange(start + 1, bang),
                            user_id,
                            message: line.skip(colon + 2),
                            channel: line.subrange(at + 9, colon),
                        },
                    ),
                    None => None,
                },
                None => None,
            }
        } else {
            None
        }
    } else {
        None
    }
}

/// The message that a line carries, if it is a message line.
pub open spec fn parse_line(line: Seq<char>) -> Option<MessageView> {
    match tags_end(line) {
        Some(end) => message_from(line, end + 1, tags_user_id(line, 1, end, None)),
        None => message_from(line, 0, None),
    }
}

/// The user id that one tag holds.
fn user_id_of_tag(tag: &str) -> (r: Option<String>)
    ensures
        optional_text(r) == tag_user_id(tag@),
{
    let chars = chars_of(tag);
    let eq = find_char(&chars, '=', 0);
    if eq < chars.len() && str_eq(tag.substring_char(0, eq), "user-id") && chars.len() > eq + 1 {
        Some(tag.substring_char(eq + 1, chars.len()).to_string())
    } else {
        None
    }
}

/// The user id that the tags between the positions 1 and `end` of a line
/// hold.
fn user_id_of_tags(line: &str, chars: &Vec<char>, end: usize) -> (r: Option<String>)
    requires
        chars@ == line@,
        1 <= end <= chars.len(),
    ensures
        optional_text(r) == tags_user_id(line@, 1, end as int, None),
{
    let mut found: Option<String> = None;
    let mut from: usize = 1;
    loop
        invariant
            chars@ == line@,
            1 <= from <= end <= chars.len(),
            tags_user_id(line@, 1, end as int, None) == tags_user_id(
                line@,
                from as int,
                end as int,
                optional_text(found),
            ),
        decreases end - from,
    {
        let semi = find_char(chars, ';', from);
        let stop: usize = if semi < end {
            semi
        } else {
            end
        };
        match user_id_of_tag(line.substring_char(from, stop)) {
            Some(id) => {
                found = Some(id);
            },
            None => {},
        }
        if stop >= end {
            return found;
        }
        from = stop + 1;
    }
}

/// The message in the part of a line from position `start` on.
fn message_at(line: &str, chars: &Vec<char>, start: usize, user_id: Option<String>) -> (r: Option<
    ChatMessage,
>)
    requires
        chars@ == line@,
    ensures
        match message_from(line@, start as int, optional_text(user_id)) {
            Some(m) => r matches Some(x) && x@ == m,
            None => r is None,
        },
{
    if start >= chars.len() || chars[start] != ':' {
        return None;
    }
    let bang = find_char(chars, '!', start + 1);
    if bang >= chars.len() {
        return None;
    }
    let privmsg = chars_of(" PRIVMSG ");
    let colon_mark = chars_of(" :");
    proof {
        reveal_strlit(" PRIVMSG ");
        reveal_strlit(" :");
    }
    match search(chars, &privmsg, bang + 1) {
        Some(at) => {
            proof {
                lemma_search_from(line@, " PRIVMSG "@, bang + 1);
            }
            match search(chars, &colon_mark, at + 9) {
                Some(colon) => {
                    proof {
                        lemma_search_from(line@, " :"@, at + 9);
                    }
                    Some(
                        ChatMessage {
                            username: line.substring_char(start + 1, bang).to_string(),
                            user_id,
                            message: line.substring_char(colon + 2, chars.len()).to_string(),
                            channel: line.substring_char(at + 9, colon).to_string(),
                        },
                    )
                },
                None => None,
            }
        },
        None => None,
    }
}

/// The message that a line of the chat protocol carries, if it is a message
/// line.
pub fn parse_privmsg(line: &str) -> (r: Option<ChatMessage>)
    ensures
        match parse_line(line@) {
            Some(m) => r matches Some(x) && x@ == m,
            None => r is None,
        },
{
    let chars = chars_of(line);
    if chars.len() > 0 && chars[0] == '@' {
        let colon_mark = chars_of(" :");
        match search(&chars, &colon_mark, 0) {
            Some(end) => {
                proof {
                    reveal_strlit(" :");
                    lemma_search_from(line@, " :"@, 0);
                    if end == 0 {
                        assert(line@.subrange(0, 2)[0] == line@[0]);
                    }
                }
                let user_id = user_id_of_tags(line, &chars, end);
                message_at(line, &chars, end + 1, user_id)
            },
            None => message_at(line, &chars, 0, None),
        }
    } else {
        message_at(line, &chars, 0, None)
    }
}

} // verus!

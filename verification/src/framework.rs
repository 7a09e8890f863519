use crate::text::{chars_of, decimal_digits, push_decimal};
use vstd::prelude::*;

verus! {

/// What the bot is told of, as far as it answers.
#[derive(Debug, Clone, Copy, PartialEq, Eq, Structural)]
pub enum Event {
    /// A message was deleted.
    MessageDelete,
    /// So many messages were deleted at once.
    MessageDeleteBulk(usize),
    /// Anything else.
    Other,
}

/// What the bot says in the channel where the event took place, if anything.
pub open spec fn answer(event: Event) -> Option<Seq<char>> {
    match event {
        Event::MessageDelete => Some("<deleted>"@),
        Event::MessageDeleteBulk(count) => Some("<"@ + decimal_digits(count as nat) + "x deleted>"@),
        Event::Other => None,
    }
}

/// Decides what the bot says in the channel where the event took place: that a message was
/// deleted, that so many were, or nothing.
pub fn event_handler(event: Event) -> (said: Option<String>)
    ensures
        match said {
            Some(text) => answer(event) == Some(text@),
            None => answer(event) is None,
        },
{
    match event {
        Event::MessageDelete => Some(String::from_str("<deleted>")),
        Event::MessageDeleteBulk(count) => {
            let mut text = String::from_str("<");
            push_decimal(&mut text, count as u64);
            text.append("x deleted>");
            Some(text)
        },
        Event::Other => None,
    }
}

/// A letter in lower case, where it is an ASCII letter in upper case; the character itself
/// elsewhere.
pub open spec fn lower(c: char) -> char {
    if 'A' <= c <= 'Z' {
        ((c as u32) + 32) as char
    } else {
        c
    }
}

/// Whether a setting says yes: it is `1`, or `true` in upper or lower case or both.
pub open spec fn says_yes(value: Seq<char>) -> bool {
    value == seq!['1'] || value.map_values(|c: char| lower(c)) == seq!['t', 'r', 'u', 'e']
}

fn to_lower(c: char) -> (l: char)
    ensures
        l == lower(c),
{
    if 'A' <= c && c <= 'Z' {
        ((c as u8) + 32) as char
    } else {
        c
    }
}

/// Whether the commands are registered for all guilds at once: where the setting is there
/// and says yes. Elsewhere they are registered guild by guild.
pub fn register_globally(setting: Option<&str>) -> (global: bool)
    ensures
        global == match setting {
            Some(value) => says_yes(value@),
            None => false,
        },
{
    match setting {
        Some(value) => {
            let chars = chars_of(value);
            if chars.len() == 1 {
                let yes = chars[0] == '1';
                assert(yes == (chars@ =~= seq!['1']));
                assert(chars@.map_values(|c: char| lower(c)).len() == 1);
                yes
            } else if chars.len() == 4 {
                let yes = to_lower(chars[0]) == 't' && to_lower(chars[1]) == 'r' && to_lower(
                    chars[2],
                ) == 'u' && to_lower(chars[3]) == 'e';
                let ghost lowered = chars@.map_values(|c: char| lower(c));
                assert(yes == (lowered =~= seq!['t', 'r', 'u', 'e'])) by {
                    assert(lowered[0] == lower(chars@[0]));
                    assert(lowered[1] == lower(chars@[1]));
                    assert(lowered[2] == lower(chars@[2]));
                    assert(lowered[3] == lower(chars@[3]));
                }
                yes
            } else {
                assert(chars@.map_values(|c: char| lower(c)).len() == chars@.len());
                false
            }
        },
        None => false,
    }
}

} // verus!

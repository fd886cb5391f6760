//! The input dispatcher: from a key press to an event of the selection model.

use vstd::prelude::*;
use crate::model::Event;

verus! {

/// A key press, as far as the picker tells keys apart.
#[derive(Clone, Copy, Debug, PartialEq, Eq, Structural)]
pub enum Key {
    Up,
    Down,
    Tab,
    Enter,
    Backspace,
    Char(char),
    Other,
}

/// Whether `char::is_alphanumeric` holds of `c`: this depends on the
/// character alone and is fixed by the Unicode tables.
pub uninterp spec fn is_alphanumeric(c: char) -> bool;

/// Calls `char::is_alphanumeric`. Trusted: the result is what that method
/// says of the character.
#[verifier::external_body]
pub(crate) fn alphanumeric(c: char) -> (r: bool)
    ensures
        r == is_alphanumeric(c),
{
    c.is_alphanumeric()
}

/// The event that a key press stands for. `modified` says that a modifier
/// key was held; `eligible` says, of a character key, that its character
/// may be typed into the search text.
pub open spec fn event_for(key: Key, modified: bool, eligible: bool) -> Event {
    if modified {
        Event::AnyOtherKey
    } else {
        match key {
            Key::Up => Event::MoveUp,
            Key::Down => Event::MoveDown,
            Key::Tab => Event::FastAccept,
            Key::Enter => Event::Commit,
            Key::Backspace => Event::Erase,
            Key::Char(c) => if eligible {
                Event::TypeChar(c)
            } else {
                Event::AnyOtherKey
            },
            Key::Other => Event::AnyOtherKey,
        }
    }
}

/// Whether `key` is a character key whose character may be typed.
pub open spec fn is_eligible(key: Key) -> bool {
    match key {
        Key::Char(c) => is_alphanumeric(c),
        _ => false,
    }
}

/// Maps a key press to its event, given whether its character is eligible.
pub fn classify(key: Key, modified: bool, eligible: bool) -> (e: Event)
    ensures
        e == event_for(key, modified, eligible),
{
    if modified {
        return Event::AnyOtherKey;
    }
    match key {
        Key::Up => Event::MoveUp,
        Key::Down => Event::MoveDown,
        Key::Tab => Event::FastAccept,
        Key::Enter => Event::Commit,
        Key::Backspace => Event::Erase,
        Key::Char(c) => if eligible {
            Event::TypeChar(c)
        } else {
            Event::AnyOtherKey
        },
        Key::Other => Event::AnyOtherKey,
    }
}

/// Maps a key press to its event: arrows move, Enter commits, Tab accepts,
/// Backspace erases, an alphanumeric character is typed, and everything
/// else, as every key pressed with a modifier, abandons the search.
pub fn dispatch(key: Key, modified: bool) -> (e: Event)
    ensures
        e == event_for(key, modified, is_eligible(key)),
        modified ==> e == Event::AnyOtherKey,
        !modified && !(key is Char) ==> e == event_for(key, false, false),
{
    let eligible = match key {
        Key::Char(c) => alphanumeric(c),
        _ => false,
    };
    classify(key, modified, eligible)
}

} // verus!

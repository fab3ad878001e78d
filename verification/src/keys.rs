//! The keys the game reacts to, and which of them mean what.
use vstd::prelude::*;

verus! {

/// A key press, as far as the game reads it.
#[derive(Clone, Copy, PartialEq, Eq, Debug, Structural)]
pub enum Key {
    Up,
    Down,
    Left,
    Right,
    Enter,
    Esc,
    Char(char),
    /// Any key the game has no use for.
    Other,
}

pub open spec fn spec_is_up(key: Key) -> bool {
    key == Key::Up || key == Key::Char('k')
}

pub open spec fn spec_is_down(key: Key) -> bool {
    key == Key::Down || key == Key::Char('j')
}

pub open spec fn spec_is_left(key: Key) -> bool {
    key == Key::Left || key == Key::Char('h')
}

pub open spec fn spec_is_right(key: Key) -> bool {
    key == Key::Right || key == Key::Char('l')
}

pub open spec fn spec_is_select(key: Key) -> bool {
    key == Key::Enter
}

pub open spec fn spec_is_exit(key: Key) -> bool {
    key == Key::Esc || key == Key::Char('q') || key == Key::Char('Q')
}

/// Up arrow or `k`.
pub fn is_up(key: Key) -> (r: bool)
    ensures
        r == spec_is_up(key),
{
    match key {
        Key::Up => true,
        Key::Char(c) => c == 'k',
        _ => false,
    }
}

/// Down arrow or `j`.
pub fn is_down(key: Key) -> (r: bool)
    ensures
        r == spec_is_down(key),
{
    match key {
        Key::Down => true,
        Key::Char(c) => c == 'j',
        _ => false,
    }
}

/// Left arrow or `h`.
pub fn is_left(key: Key) -> (r: bool)
    ensures
        r == spec_is_left(key),
{
    match key {
        Key::Left => true,
        Key::Char(c) => c == 'h',
        _ => false,
    }
}

/// Right arrow or `l`.
pub fn is_right(key: Key) -> (r: bool)
    ensures
        r == spec_is_right(key),
{
    match key {
        Key::Right => true,
        Key::Char(c) => c == 'l',
        _ => false,
    }
}

/// Enter.
pub fn is_select(key: Key) -> (r: bool)
    ensures
        r == spec_is_select(key),
{
    match key {
        Key::Enter => true,
        _ => false,
    }
}

/// Esc, `q` or `Q`.
pub fn is_exit(key: Key) -> (r: bool)
    ensures
        r == spec_is_exit(key),
{
    match key {
        Key::Esc => true,
        Key::Char(c) => c == 'q' || c == 'Q',
        _ => false,
    }
}

} // verus!

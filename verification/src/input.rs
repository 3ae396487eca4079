use vstd::prelude::*;

verus! {

/// A key press, as far as the interface tells keys apart.
#[derive(Clone, Copy, Debug, PartialEq, Eq, Structural)]
pub enum Key {
    Char(char),
    Up,
    Down,
    Enter,
    /// Any other key.
    Other,
}

/// The inputs that the interface reacts to.
#[derive(Clone, Copy, Debug, PartialEq, Eq, Structural)]
pub enum InputEvent {
    Quit,
    NextEnvironment,
    Up,
    Down,
    Select,
}

/// The input that a key stands for: `q` quits, `e` shows the next
/// environment, the arrows and `k`, `j` move the cursor, Enter selects.
/// Every other key stands for nothing.
pub open spec fn event_of(key: Key) -> Option<InputEvent> {
    match key {
        Key::Char(c) => if c == 'q' {
            Some(InputEvent::Quit)
        } else if c == 'k' {
            Some(InputEvent::Up)
        } else if c == 'j' {
            Some(InputEvent::Down)
        } else if c == 'e' {
            Some(InputEvent::NextEnvironment)
        } else {
            None
        },
        Key::Up => Some(InputEvent::Up),
        Key::Down => Some(InputEvent::Down),
        Key::Enter => Some(InputEvent::Select),
        Key::Other => None,
    }
}

/// The input that a key stands for, if any.
pub fn event_for_key(key: Key) -> (event: Option<InputEvent>)
    ensures
        event == event_of(key),
{
    match key {
        Key::Char('q') => Some(InputEvent::Quit),
        Key::Up | Key::Char('k') => Some(InputEvent::Up),
        Key::Down | Key::Char('j') => Some(InputEvent::Down),
        Key::Char('e') => Some(InputEvent::NextEnvironment),
        Key::Enter => Some(InputEvent::Select),
        _ => None,
    }
}

} // verus!

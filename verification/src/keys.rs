//! Which terminal events become which client events.
use vstd::prelude::*;
use crate::app::AppAction;

verus! {

/// The keys the client tells apart.
#[derive(Debug, Clone, PartialEq, Eq, Structural)]
pub enum Key {
    Char(char),
    Esc,
    Enter,
    Backspace,
    Delete,
    Up,
    Down,
    Left,
    Right,
    Other,
}

/// What the terminal reported.
#[derive(Debug, Clone)]
pub enum TermEvent {
    /// A key, with whether it was pressed (not released or repeated) and
    /// whether Control was held.
    Key { key: Key, press: bool, ctrl: bool },
    /// Text pasted in one piece.
    Paste(String),
    Other,
}

/// The client event a terminal event stands for: Ctrl+C quits, the editing
/// and arrow keys edit and move, other characters are typed, pastes are
/// pasted; key releases and everything else are ignored.
pub open spec fn action_of(e: TermEvent) -> Option<AppAction> {
    match e {
        TermEvent::Key { key, press, ctrl } => if !press {
            None
        } else if ctrl && key == Key::Char('c') {
            Some(AppAction::SigInt)
        } else {
            match key {
                Key::Esc => Some(AppAction::InputEscape),
                Key::Enter => Some(AppAction::InputSubmit),
                Key::Backspace => Some(AppAction::InputBackspace),
                Key::Delete => Some(AppAction::InputDelete),
                Key::Up => Some(AppAction::SelectPrevious),
                Key::Down => Some(AppAction::SelectNext),
                Key::Left => Some(AppAction::SelectLeft),
                Key::Right => Some(AppAction::SelectRight),
                Key::Char(c) => Some(AppAction::InputChar(c)),
                Key::Other => None,
            }
        },
        TermEvent::Paste(s) => Some(AppAction::Paste(s)),
        TermEvent::Other => None,
    }
}

/// The client event for a terminal event, if any.
pub fn action_for_event(e: TermEvent) -> (r: Option<AppAction>)
    ensures
        r == action_of(e),
{
    match e {
        TermEvent::Key { key, press, ctrl } => {
            if !press {
                return None;
            }
            let is_c = match key {
                Key::Char(c) => c == 'c',
                _ => false,
            };
            if ctrl && is_c {
                return Some(AppAction::SigInt);
            }
            match key {
                Key::Esc => Some(AppAction::InputEscape),
                Key::Enter => Some(AppAction::InputSubmit),
                Key::Backspace => Some(AppAction::InputBackspace),
                Key::Delete => Some(AppAction::InputDelete),
                Key::Up => Some(AppAction::SelectPrevious),
                Key::Down => Some(AppAction::SelectNext),
                Key::Left => Some(AppAction::SelectLeft),
                Key::Right => Some(AppAction::SelectRight),
                Key::Char(c) => Some(AppAction::InputChar(c)),
                Key::Other => None,
            }
        },
        TermEvent::Paste(s) => Some(AppAction::Paste(s)),
        TermEvent::Other => None,
    }
}

} // verus!

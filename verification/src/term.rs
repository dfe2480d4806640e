use vstd::prelude::*;

verus! {

/// A terminal event, as far as the dashboard cares.
#[derive(Debug, Clone, Copy, PartialEq, Eq, Structural)]
pub enum TermEvent {
    /// A key: the character it types, if any, and whether it was pressed
    /// (not released or repeated).
    Key { ch: Option<char>, press: bool },
    /// The terminal was resized.
    Resize,
    /// Anything else.
    Other,
}

/// What the dashboard does about a terminal event.
#[derive(Debug, Clone, Copy, PartialEq, Eq, Structural)]
pub enum TermAction {
    Quit,
    Render,
    Ignore,
}

/// Pressing `q` quits, a resize redraws, everything else is ignored.
pub fn on_terminal_event(event: TermEvent) -> (a: TermAction)
    ensures
        a == match event {
            TermEvent::Key { ch, press } => if ch == Some('q') && press {
                TermAction::Quit
            } else {
                TermAction::Ignore
            },
            TermEvent::Resize => TermAction::Render,
            TermEvent::Other => TermAction::Ignore,
        },
{
    match event {
        TermEvent::Key { ch: Some(c), press: true } => {
            if c == 'q' {
                TermAction::Quit
            } else {
                TermAction::Ignore
            }
        },
        TermEvent::Key { .. } => TermAction::Ignore,
        TermEvent::Resize => TermAction::Render,
        TermEvent::Other => TermAction::Ignore,
    }
}

} // verus!

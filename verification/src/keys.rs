//! Key and pointer input as the screens read it.
use vstd::prelude::*;

verus! {

/// Semantic key events fed into the screens. Character keys keep their raw value so a
/// screen can treat them as navigation or, while an input is open, as literal text.
#[derive(Debug, Clone, Copy, PartialEq, Eq, Structural)]
pub enum Key {
    Up,
    Down,
    Left,
    Right,
    Tab,
    /// Shift-Tab: the tab strip, backwards.
    BackTab,
    Enter,
    Escape,
    Backspace,
    PageUp,
    PageDown,
    Home,
    End,
    Char(char),
    /// A Ctrl-modified letter (lowercased), e.g. Ctrl-P. Ctrl-C is `Key::Quit`.
    Ctrl(char),
    /// Hard quit (Ctrl-C), honoured in every mode.
    Quit,
    /// The terminal was resized: no action, but it wakes the loop so it redraws.
    Redraw,
    /// A left click at (column, row).
    Click(u16, u16),
    /// The mouse wheel, one notch, over (column, row).
    ScrollUp(u16, u16),
    ScrollDown(u16, u16),
    /// An event with nothing to act on.
    Nothing,
}

impl Key {
    /// Whether the event came from the mouse.
    pub fn is_mouse(self) -> (r: bool)
        ensures
            r == (self is Click || self is ScrollUp || self is ScrollDown),
    {
        match self {
            Key::Click(..) | Key::ScrollUp(..) | Key::ScrollDown(..) => true,
            _ => false,
        }
    }
}

} // verus!

use vstd::prelude::*;

verus! {

/// Modifier held during a key or mouse event.
#[derive(Copy, Clone, Debug, PartialEq, Eq, Structural)]
pub enum KeyMod {
    Shift,
    Control,
    Alt,
    Plain,
}

#[derive(Copy, Clone, Debug, PartialEq, Eq, Structural)]
pub enum MouseButton {
    Left,
    Right,
    Middle,
}

#[derive(Copy, Clone, Debug, PartialEq, Eq, Structural)]
pub enum MouseEventKind {
    Down(MouseButton),
    Up(MouseButton),
    Drag(MouseButton),
    Moved,
    ScrollDown,
    ScrollUp,
}

/// A normalized mouse event; `column`/`row` are in the coordinate
/// frame of whichever widget receives it.
#[derive(Copy, Clone, Debug, PartialEq, Eq, Structural)]
pub struct MouseEvent {
    pub kind: MouseEventKind,
    pub column: u16,
    pub row: u16,
    pub keymod: KeyMod,
}

#[derive(Copy, Clone, Debug, PartialEq, Eq, Structural)]
pub enum KeyCode {
    Backspace,
    Enter,
    Left,
    Right,
    Up,
    Down,
    Home,
    End,
    PageUp,
    PageDown,
    Tab,
    BackTab,
    Delete,
    Insert,
    F(u8),
    Char(char),
    Esc,
    Null,
}

/// A normalized input event, decoupled from any terminal backend.
#[derive(Copy, Clone, Debug, PartialEq, Eq, Structural)]
pub enum Event {
    Mouse(MouseEvent),
    Key(KeyMod, KeyCode),
    Resize(u16, u16),
}

} // verus!

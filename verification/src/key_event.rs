use vstd::prelude::*;

verus! {

/// Frontend-agnostic key event; each frontend converts its native events
/// into this form before handing them to the core.
#[derive(Debug, Clone)]
pub struct AppKeyEvent {
    pub code: AppKeyCode,
    pub ctrl: bool,
    pub alt: bool,
    pub shift: bool,
}

/// Frontend-agnostic key code.
#[derive(Debug, Clone, PartialEq, Eq, Structural)]
pub enum AppKeyCode {
    Char(char),
    Backspace,
    Enter,
    Left,
    Right,
    Up,
    Down,
    Tab,
    BackTab,
    Delete,
    Home,
    End,
    Esc,
    Other,
}

impl AppKeyEvent {
    pub fn is_ctrl_c(&self) -> (r: bool)
        ensures
            r == (self.ctrl && self.code == AppKeyCode::Char('c')),
    {
        self.ctrl && matches!(self.code, AppKeyCode::Char(c) if c == 'c')
    }
}

} // verus!

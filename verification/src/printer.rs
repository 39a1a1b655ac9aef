use vstd::prelude::*;

use crate::scancode::{Key, KeyCode, ScanCodeType};

verus! {

/// What the console should do for a key code.
#[derive(Debug, Clone, Copy, PartialEq, Eq, Structural)]
pub enum PrintAction {
    /// The key code was not recognised: print "invalid key".
    InvalidKey,
    /// Nothing to print (a modifier changed, or a key was released).
    Nothing,
    /// Ctrl+U: clear the current row.
    ClearRow,
    /// Ctrl+L: clear the screen.
    ClearAll,
    /// Print this ASCII byte.
    PrintChar(u8),
}

/// The modifier keys the console printer tracks.
#[derive(Debug, Clone, Copy, PartialEq, Eq, Structural)]
pub struct PrinterState {
    pub ctrl_down: bool,
    pub shift_down: bool,
    pub alt_down: bool,
    pub caps_locked: bool,
}

pub open spec fn is_alt(k: Key) -> bool {
    k == Key::LeftAlt || k == Key::RightAlt
}

pub open spec fn is_shift(k: Key) -> bool {
    k == Key::LeftShift || k == Key::RightShift
}

pub open spec fn is_ctrl(k: Key) -> bool {
    k == Key::LeftCtrl || k == Key::RightCtrl
}

impl PrinterState {
    pub fn new() -> (s: Self)
        ensures
            !s.ctrl_down && !s.shift_down && !s.alt_down && !s.caps_locked,
    {
        PrinterState { ctrl_down: false, shift_down: false, alt_down: false, caps_locked: false }
    }

    /// Updates the modifiers for one key code and says what to print.
    /// Pressing caps lock toggles it; pressing or releasing alt, shift or ctrl
    /// sets it; other released keys print nothing; a pressed key prints its
    /// character (upper case while shift is held or caps lock is on), except
    /// that Ctrl+U clears the row and Ctrl+L clears the screen.
    pub fn print_key_code(&mut self, key_code_opt: Option<KeyCode>) -> (act: PrintAction)
        ensures
            match key_code_opt {
                None => act == PrintAction::InvalidKey && *final(self) == *old(self),
                Some(kc) => {
                    let k = kc.key;
                    let make = kc.code_type == ScanCodeType::MakeCode;
                    if make && k == Key::CapsLock {
                        act == PrintAction::Nothing && *final(self) == (PrinterState { caps_locked: !old(self).caps_locked, ..*old(self) })
                    } else if is_alt(k) {
                        act == PrintAction::Nothing && *final(self) == (PrinterState { alt_down: make, ..*old(self) })
                    } else if is_shift(k) {
                        act == PrintAction::Nothing && *final(self) == (PrinterState { shift_down: make, ..*old(self) })
                    } else if is_ctrl(k) {
                        act == PrintAction::Nothing && *final(self) == (PrinterState { ctrl_down: make, ..*old(self) })
                    } else {
                        &&& *final(self) == *old(self)
                        &&& act == (if !make {
                            PrintAction::Nothing
                        } else if old(self).ctrl_down && k == Key::U {
                            PrintAction::ClearRow
                        } else if old(self).ctrl_down && k == Key::L {
                            PrintAction::ClearAll
                        } else if old(self).shift_down || old(self).caps_locked {
                            PrintAction::PrintChar(kc.char_cap)
                        } else {
                            PrintAction::PrintChar(kc.char)
                        })
                    }
                },
            },
    {
        let key_code = match key_code_opt {
            None => { return PrintAction::InvalidKey; },
            Some(k) => k,
        };
        match key_code.code_type {
            ScanCodeType::MakeCode => {
                if key_code.key == Key::CapsLock {
                    self.caps_locked = !self.caps_locked;
                    return PrintAction::Nothing;
                }
                if key_code.key == Key::LeftAlt || key_code.key == Key::RightAlt {
                    self.alt_down = true;
                    return PrintAction::Nothing;
                }
                if key_code.key == Key::LeftShift || key_code.key == Key::RightShift {
                    self.shift_down = true;
                    return PrintAction::Nothing;
                }
                if key_code.key == Key::LeftCtrl || key_code.key == Key::RightCtrl {
                    self.ctrl_down = true;
                    return PrintAction::Nothing;
                }
            },
            ScanCodeType::BreakCode => {
                if key_code.key == Key::LeftAlt || key_code.key == Key::RightAlt {
                    self.alt_down = false;
                    return PrintAction::Nothing;
                }
                if key_code.key == Key::LeftShift || key_code.key == Key::RightShift {
                    self.shift_down = false;
                    return PrintAction::Nothing;
                }
                if key_code.key == Key::LeftCtrl || key_code.key == Key::RightCtrl {
                    self.ctrl_down = false;
                    return PrintAction::Nothing;
                }
            },
        }
        if key_code.code_type == ScanCodeType::BreakCode {
            return PrintAction::Nothing;
        }
        let mut char_to_print = key_code.char;
        if self.shift_down || self.caps_locked {
            char_to_print = key_code.char_cap;
        }
        if self.ctrl_down && key_code.key == Key::U {
            return PrintAction::ClearRow;
        }
        if self.ctrl_down && key_code.key == Key::L {
            return PrintAction::ClearAll;
        }
        PrintAction::PrintChar(char_to_print)
    }
}

} // verus!

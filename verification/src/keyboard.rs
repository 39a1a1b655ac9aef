use vstd::prelude::*;

use crate::blocking_queue::{ArrayBlockingQueue, BlockingQueue, PutOutcome};
use crate::scancode::{Key, KeyCode, ScanCodeType, spec_key_code};

verus! {

/// The keyboard: whether caps lock is on, whether a shift key is held, and
/// the last key entered.
#[derive(Debug, Clone, Copy, PartialEq, Eq, Structural)]
pub struct KeyBoard {
    pub caps_lock: bool,
    pub shift_down: bool,
    pub key: KeyCode,
}

impl KeyBoard {
    pub fn new() -> (k: Self)
        ensures
            !k.caps_lock,
            !k.shift_down,
            k.key == (KeyCode {
                scan_code: 0,
                key: Key::Null,
                code_type: ScanCodeType::MakeCode,
                char: 0,
                char_cap: 0,
            }),
    {
        Self { caps_lock: false, shift_down: false, key: KeyCode::empty() }
    }

    /// Enters one key: releasing caps lock toggles it, pressing or releasing a
    /// shift key sets whether shift is held; the key becomes the current key.
    pub fn enter(&mut self, keycode: KeyCode)
        ensures
            final(self).caps_lock == (if keycode.key == Key::CapsLock && keycode.code_type == ScanCodeType::BreakCode {
                !old(self).caps_lock
            } else {
                old(self).caps_lock
            }),
            final(self).shift_down == (if keycode.key == Key::LeftShift || keycode.key == Key::RightShift {
                keycode.code_type == ScanCodeType::MakeCode
            } else {
                old(self).shift_down
            }),
            final(self).key == keycode,
    {
        if keycode.key == Key::CapsLock {
            if keycode.code_type == ScanCodeType::BreakCode {
                self.caps_lock = !self.caps_lock;
            }
        }
        if keycode.key == Key::LeftShift || keycode.key == Key::RightShift {
            if keycode.code_type == ScanCodeType::MakeCode {
                self.shift_down = true;
            } else {
                self.shift_down = false;
            }
        }
        self.key = keycode;
    }

    /// The ASCII byte the current key types: its upper-case character when
    /// exactly one of caps lock and shift is on.
    pub fn get_ascii(&self) -> (c: u8)
        ensures
            c == (if self.caps_lock != self.shift_down { self.key.char_cap } else { self.key.char }),
    {
        if self.is_capital() {
            return self.key.char_cap;
        }
        self.key.char
    }

    /// Upper case is on when exactly one of caps lock and shift is on.
    pub fn is_capital(&self) -> (r: bool)
        ensures
            r == (self.caps_lock != self.shift_down),
    {
        if !self.caps_lock && !self.shift_down {
            return false;
        }
        if !self.caps_lock && self.shift_down {
            return true;
        }
        if self.caps_lock && !self.shift_down {
            return true;
        }
        if self.caps_lock && self.shift_down {
            return false;
        }
        return false;
    }
}

/// Joins the 0xE0 prefix byte with the byte after it.
#[derive(Debug, Clone, Copy, PartialEq, Eq, Structural)]
pub struct ScanCodeCombinator {
    pub received_ext: bool,
}

impl ScanCodeCombinator {
    pub fn new() -> (c: Self)
        ensures
            !c.received_ext,
    {
        Self { received_ext: false }
    }

    /// Feeds one byte from the keyboard. The prefix 0xE0 is remembered and
    /// yields `None`; any other byte is joined with a remembered prefix and
    /// decoded, and the decoded key code (itself `None` for an unknown key) is
    /// what the caller hands on.
    pub fn do_combine(&mut self, scan_code: u8) -> (r: Option<Option<KeyCode>>)
        ensures
            scan_code == 0xe0 ==> r == None::<Option<KeyCode>> && final(self).received_ext,
            scan_code != 0xe0 ==> !final(self).received_ext && r == Some(
                spec_key_code(if old(self).received_ext { (scan_code as u16) | 0xe000u16 } else { scan_code as u16 }),
            ),
    {
        if scan_code == 0xe0 {
            self.received_ext = true;
            return None;
        }
        let mut full_scan_code: u16 = scan_code as u16;
        if self.received_ext {
            full_scan_code = full_scan_code | 0xe000;
            self.received_ext = false;
        }
        let key_code = KeyCode::get_from_scan_code(full_scan_code);
        Some(key_code)
    }
}

/// Handles one byte from the keyboard: combines and decodes it, enters the key
/// into the keyboard and, for a key being pressed, queues the ASCII byte it
/// types. Returns what became of the queueing, or `None` when nothing was queued.
pub fn scan_code_handler(
    combinator: &mut ScanCodeCombinator,
    keyboard: &mut KeyBoard,
    queue: &mut ArrayBlockingQueue<u8>,
    scan_code: u8,
) -> (r: Option<PutOutcome>)
    requires
        old(queue).wf(),
        !old(queue).ended(),
    ensures
        final(queue).wf(),
        !final(queue).ended(),
        match old(combinator).do_combine_spec(scan_code) {
            Some(Some(kc)) => {
                &&& final(keyboard).key == kc
                &&& (kc.code_type == ScanCodeType::BreakCode ==> r == None::<PutOutcome> && final(queue).view() == old(queue).view())
                &&& (kc.code_type == ScanCodeType::MakeCode ==> {
                    let c = if final(keyboard).caps_lock != final(keyboard).shift_down { kc.char_cap } else { kc.char };
                    &&& r == Some(if old(queue).view().len() < old(queue).capacity() { PutOutcome::Done } else { PutOutcome::Blocked })
                    &&& (r == Some(PutOutcome::Done) ==> final(queue).view() == old(queue).view().push(c))
                    &&& (r == Some(PutOutcome::Blocked) ==> final(queue).view() == old(queue).view())
                })
            },
            _ => r == None::<PutOutcome> && *final(keyboard) == *old(keyboard) && final(queue).view() == old(queue).view(),
        },
{
    let combined = combinator.do_combine(scan_code);
    let key_code_opt = match combined {
        None => { return None; },
        Some(k) => k,
    };
    let keycode = match key_code_opt {
        None => { return None; },
        Some(k) => k,
    };
    keyboard.enter(keycode);
    if keycode.code_type == ScanCodeType::BreakCode {
        return None;
    }
    Some(queue.put(keyboard.get_ascii()))
}

impl ScanCodeCombinator {
    /// What `do_combine` yields for `scan_code` in this state.
    pub open spec fn do_combine_spec(&self, scan_code: u8) -> Option<Option<KeyCode>> {
        if scan_code == 0xe0 {
            None
        } else {
            Some(spec_key_code(if self.received_ext { (scan_code as u16) | 0xe000u16 } else { scan_code as u16 }))
        }
    }
}

} // verus!

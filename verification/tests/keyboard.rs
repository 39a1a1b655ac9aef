use lib::blocking_queue::{ArrayBlockingQueue, BlockingQueue, PutOutcome, TakeOutcome};
use lib::keyboard::{scan_code_handler, KeyBoard, ScanCodeCombinator};
use lib::printer::{PrintAction, PrinterState};
use lib::scancode::{key_of_code, Key, KeyCode, ScanCodeType};

#[test]
fn make_codes_of_keys() {
    assert_eq!(Key::A.code(), 0x1e);
    assert_eq!(Key::LeftShift.code(), 0x2a);
    assert_eq!(Key::CapsLock.code(), 0x3a);
    assert_eq!(Key::RightCtrl.code(), 0xe01d);
    assert_eq!(key_of_code(0x1e), Some(Key::A));
    assert_eq!(key_of_code(0xe038), Some(Key::RightAlt));
    assert_eq!(key_of_code(0x7f), None);
    assert_eq!(Key::A.chars(), (b'a', b'A'));
}

#[test]
fn decode_make_and_break() {
    let make = KeyCode::get_from_scan_code(0x1e).unwrap();
    assert_eq!(make, KeyCode::new(0x1e, Key::A, ScanCodeType::MakeCode, b'a', b'A'));
    let brk = KeyCode::get_from_scan_code(0x9e).unwrap();
    assert_eq!(brk.key, Key::A);
    assert_eq!(brk.code_type, ScanCodeType::BreakCode);
    assert_eq!(brk.scan_code, 0x9e);
    assert_eq!(KeyCode::get_from_scan_code(0x7f), None);
}

#[test]
fn combinator_joins_extended_prefix() {
    let mut c = ScanCodeCombinator::new();
    assert_eq!(c.do_combine(0xe0), None);
    assert!(c.received_ext);
    let k = c.do_combine(0x1d).unwrap().unwrap();
    assert_eq!(k.key, Key::RightCtrl);
    assert_eq!(k.scan_code, 0xe01d);
    assert!(!c.received_ext);
    assert_eq!(c.do_combine(0x1d).unwrap().unwrap().key, Key::LeftCtrl);
}

#[test]
fn keyboard_caps_lock_toggles_on_release() {
    let mut kb = KeyBoard::new();
    kb.enter(KeyCode::get_from_scan_code(0x3a).unwrap());
    assert!(!kb.caps_lock);
    kb.enter(KeyCode::get_from_scan_code(0xba).unwrap());
    assert!(kb.caps_lock);
    kb.enter(KeyCode::get_from_scan_code(0x1e).unwrap());
    assert_eq!(kb.get_ascii(), b'A');
    kb.enter(KeyCode::get_from_scan_code(0x2a).unwrap());
    assert!(kb.shift_down);
    assert!(!kb.is_capital());
    kb.enter(KeyCode::get_from_scan_code(0x1e).unwrap());
    assert_eq!(kb.get_ascii(), b'a');
}

#[test]
fn handler_queues_typed_characters() {
    let mut c = ScanCodeCombinator::new();
    let mut kb = KeyBoard::new();
    let mut q = ArrayBlockingQueue::new(vec![0u8; 2]);
    assert_eq!(scan_code_handler(&mut c, &mut kb, &mut q, 0x2a), Some(PutOutcome::Done));
    assert_eq!(scan_code_handler(&mut c, &mut kb, &mut q, 0x1e), Some(PutOutcome::Done));
    assert_eq!(scan_code_handler(&mut c, &mut kb, &mut q, 0x9e), None);
    assert_eq!(scan_code_handler(&mut c, &mut kb, &mut q, 0x1e), Some(PutOutcome::Blocked));
    assert_eq!(scan_code_handler(&mut c, &mut kb, &mut q, 0xe0), None);
    assert_eq!(scan_code_handler(&mut c, &mut kb, &mut q, 0x7f), None);
    assert_eq!(q.take(), TakeOutcome::Taken(Some(0x0f)));
    assert_eq!(q.take(), TakeOutcome::Taken(Some(b'A')));
}

#[test]
fn printer_tracks_modifiers() {
    let mut p = PrinterState::new();
    assert_eq!(p.print_key_code(None), PrintAction::InvalidKey);
    let a = KeyCode::get_from_scan_code(0x1e);
    assert_eq!(p.print_key_code(a), PrintAction::PrintChar(b'a'));
    assert_eq!(p.print_key_code(KeyCode::get_from_scan_code(0x3a)), PrintAction::Nothing);
    assert!(p.caps_locked);
    assert_eq!(p.print_key_code(a), PrintAction::PrintChar(b'A'));
    assert_eq!(p.print_key_code(KeyCode::get_from_scan_code(0x9e)), PrintAction::Nothing);
    assert_eq!(p.print_key_code(KeyCode::get_from_scan_code(0x1d)), PrintAction::Nothing);
    assert!(p.ctrl_down);
    assert_eq!(p.print_key_code(KeyCode::get_from_scan_code(0x16)), PrintAction::ClearRow);
    assert_eq!(p.print_key_code(KeyCode::get_from_scan_code(0x26)), PrintAction::ClearAll);
    assert_eq!(p.print_key_code(KeyCode::get_from_scan_code(0x9d)), PrintAction::Nothing);
    assert!(!p.ctrl_down);
}

#[test]
fn key_e_types_upper_case_e() {
    assert_eq!(Key::E.chars(), (b'e', b'E'));
    let k = KeyCode::get_from_scan_code(0x12).unwrap();
    assert_eq!(k.key, Key::E);
    assert_eq!(k.char_cap, b'E');
}

use kernel_core::keyboard::{KeyAction, Keyboard, QUEUE_SIZE};

fn feed(k: &mut Keyboard, codes: &[u8]) -> Vec<KeyAction> {
    codes.iter().map(|&c| k.handle_scancode(c)).collect()
}

#[test]
fn new_keyboard_has_nothing_queued() {
    let mut k = Keyboard::new();
    assert_eq!(k.pop_scancode(), None);
}

#[test]
fn scancodes_come_out_in_order() {
    let mut k = Keyboard::new();
    k.push_scancode(0x1E);
    k.push_scancode(0x30);
    k.push_scancode(0x2E);
    assert_eq!(k.pop_scancode(), Some(0x1E));
    assert_eq!(k.pop_scancode(), Some(0x30));
    assert_eq!(k.pop_scancode(), Some(0x2E));
    assert_eq!(k.pop_scancode(), None);
}

#[test]
fn full_queue_drops_new_scancodes() {
    let mut k = Keyboard::new();
    for i in 0..300u32 {
        k.push_scancode((i % 256) as u8);
    }
    for i in 0..(QUEUE_SIZE - 1) {
        assert_eq!(k.pop_scancode(), Some(i as u8));
    }
    assert_eq!(k.pop_scancode(), None);
}

#[test]
fn queue_wraps_around_the_buffer() {
    let mut k = Keyboard::new();
    for round in 0..5u32 {
        for i in 0..200u32 {
            k.push_scancode(((i + round) % 256) as u8);
        }
        for i in 0..200u32 {
            assert_eq!(k.pop_scancode(), Some(((i + round) % 256) as u8));
        }
        assert_eq!(k.pop_scancode(), None);
    }
}

#[test]
fn push_then_pop_on_a_busy_queue_is_fifo() {
    let mut k = Keyboard::new();
    k.push_scancode(1);
    k.push_scancode(2);
    assert_eq!(k.pop_scancode(), Some(1));
    k.push_scancode(3);
    assert_eq!(k.pop_scancode(), Some(2));
    assert_eq!(k.pop_scancode(), Some(3));
}

#[test]
fn plain_keys_type_lowercase() {
    let mut k = Keyboard::new();
    assert_eq!(k.handle_scancode(0x1E), KeyAction::Char('a'));
    assert_eq!(k.handle_scancode(0x2C), KeyAction::Char('z'));
    assert_eq!(k.handle_scancode(0x02), KeyAction::Char('1'));
    assert_eq!(k.handle_scancode(0x0B), KeyAction::Char('0'));
    assert_eq!(k.handle_scancode(0x39), KeyAction::Char(' '));
    assert_eq!(k.handle_scancode(0x1C), KeyAction::Char('\n'));
    assert_eq!(k.handle_scancode(0x0E), KeyAction::Char('\x08'));
    assert_eq!(k.handle_scancode(0x0F), KeyAction::Char('\t'));
    assert_eq!(k.handle_scancode(0x01), KeyAction::Char('\x1b'));
    assert_eq!(k.handle_scancode(0x28), KeyAction::Char('\''));
    assert_eq!(k.handle_scancode(0x2B), KeyAction::Char('\\'));
    assert_eq!(k.handle_scancode(0x37), KeyAction::Char('*'));
}

#[test]
fn shift_types_the_shifted_symbols() {
    let mut k = Keyboard::new();
    assert_eq!(k.handle_scancode(0x2A), KeyAction::NoAction);
    assert_eq!(
        feed(&mut k, &[0x1E, 0x02, 0x0D, 0x28, 0x29, 0x35]),
        vec![
            KeyAction::Char('A'),
            KeyAction::Char('!'),
            KeyAction::Char('+'),
            KeyAction::Char('"'),
            KeyAction::Char('~'),
            KeyAction::Char('?'),
        ]
    );
    assert_eq!(k.handle_scancode(0xAA), KeyAction::NoAction);
    assert_eq!(k.handle_scancode(0x1E), KeyAction::Char('a'));
}

#[test]
fn right_shift_works_like_left_shift() {
    let mut k = Keyboard::new();
    k.handle_scancode(0x36);
    assert_eq!(k.handle_scancode(0x10), KeyAction::Char('Q'));
    k.handle_scancode(0xB6);
    assert_eq!(k.handle_scancode(0x10), KeyAction::Char('q'));
}

#[test]
fn caps_lock_shifts_letters_only() {
    let mut k = Keyboard::new();
    assert_eq!(k.handle_scancode(0x3A), KeyAction::NoAction);
    assert_eq!(k.handle_scancode(0x1E), KeyAction::Char('A'));
    assert_eq!(k.handle_scancode(0x02), KeyAction::Char('1'));
    assert_eq!(k.handle_scancode(0x1A), KeyAction::Char('['));
    // the release of Caps Lock does not toggle again
    assert_eq!(k.handle_scancode(0xBA), KeyAction::NoAction);
    assert_eq!(k.handle_scancode(0x1E), KeyAction::Char('A'));
    // a second press turns it off
    k.handle_scancode(0x3A);
    assert_eq!(k.handle_scancode(0x1E), KeyAction::Char('a'));
}

#[test]
fn shift_and_caps_lock_cancel_on_letters() {
    let mut k = Keyboard::new();
    k.handle_scancode(0x3A);
    k.handle_scancode(0x2A);
    assert_eq!(k.handle_scancode(0x1E), KeyAction::Char('a'));
    assert_eq!(k.handle_scancode(0x03), KeyAction::Char('@'));
}

#[test]
fn ctrl_function_keys_switch_screens() {
    let mut k = Keyboard::new();
    assert_eq!(k.handle_scancode(0x1D), KeyAction::NoAction);
    assert_eq!(k.handle_scancode(0x3B), KeyAction::SwitchScreen(0));
    assert_eq!(k.handle_scancode(0x3C), KeyAction::SwitchScreen(1));
    assert_eq!(k.handle_scancode(0x3D), KeyAction::SwitchScreen(2));
    assert_eq!(k.handle_scancode(0x9D), KeyAction::NoAction);
    assert_eq!(k.handle_scancode(0x3B), KeyAction::NoAction);
}

#[test]
fn ctrl_number_row_picks_colours() {
    let mut k = Keyboard::new();
    k.handle_scancode(0x1D);
    assert_eq!(k.handle_scancode(0x02), KeyAction::SetForeground(0));
    assert_eq!(k.handle_scancode(0x05), KeyAction::SetForeground(3));
    assert_eq!(k.handle_scancode(0x09), KeyAction::SetForeground(7));
    k.handle_scancode(0x2A);
    assert_eq!(k.handle_scancode(0x02), KeyAction::SetBackground(0));
    assert_eq!(k.handle_scancode(0x09), KeyAction::SetBackground(7));
    // 9 and 0 are outside the colour range and type their characters
    assert_eq!(k.handle_scancode(0x0A), KeyAction::Char('('));
    k.handle_scancode(0xAA);
    assert_eq!(k.handle_scancode(0x0B), KeyAction::Char('0'));
    // other keys still type while Ctrl is held
    assert_eq!(k.handle_scancode(0x1E), KeyAction::Char('a'));
}

#[test]
fn key_releases_do_nothing() {
    let mut k = Keyboard::new();
    for sc in 0x80u16..=0xFF {
        let sc = sc as u8;
        if sc == 0x9D || sc == 0xAA || sc == 0xB6 {
            continue;
        }
        assert_eq!(k.handle_scancode(sc), KeyAction::NoAction);
    }
    // modifiers were not changed by the releases above
    assert_eq!(k.handle_scancode(0x1E), KeyAction::Char('a'));
}

#[test]
fn keys_without_a_character_do_nothing() {
    let mut k = Keyboard::new();
    for sc in [0x00u8, 0x38, 0x3B, 0x3E, 0x44, 0x48, 0x7F] {
        assert_eq!(k.handle_scancode(sc), KeyAction::NoAction);
    }
}

#[test]
fn handling_keys_leaves_the_queue_alone() {
    let mut k = Keyboard::new();
    k.push_scancode(0x42);
    k.handle_scancode(0x2A);
    k.handle_scancode(0x1E);
    assert_eq!(k.pop_scancode(), Some(0x42));
    assert_eq!(k.pop_scancode(), None);
}

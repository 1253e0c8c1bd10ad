use vstd::prelude::*;

verus! {

/// Number of slots in the scancode ring buffer; one slot always stays free,
/// so at most `QUEUE_SIZE - 1` scancodes can be pending.
pub const QUEUE_SIZE: usize = 256;

/// What a scancode asks the rest of the kernel to do.
#[derive(Debug, PartialEq, Eq, Structural)]
pub enum KeyAction {
    Char(char),
    SwitchScreen(usize),
    SetForeground(u8),
    SetBackground(u8),
    NoAction,
}

/// The modifier keys the keyboard driver tracks.
#[derive(Debug, Clone, Copy, PartialEq, Eq, Structural)]
pub struct Modifiers {
    pub shift: bool,
    pub caps: bool,
    pub ctrl: bool,
}

/// PS/2 keyboard state: modifier keys and a FIFO ring buffer of raw scancodes
/// filled by the interrupt handler and drained by the main loop.
pub struct Keyboard {
    shift: bool,
    caps: bool,
    ctrl: bool,
    queue: [u8; QUEUE_SIZE],
    head: usize,
    tail: usize,
}

// ---------------------------------------------------------------------------
// Scancode set 1 tables (make codes 0x00..0x7F)
// ---------------------------------------------------------------------------

/// The unshifted ASCII byte of a set-1 make code, 0 where the key prints nothing.
pub open spec fn set1_base(sc: u8) -> u8 {
    match sc {
        0x01 => 0x1B,
        0x02 => 0x31, 0x03 => 0x32, 0x04 => 0x33, 0x05 => 0x34, 0x06 => 0x35,
        0x07 => 0x36, 0x08 => 0x37, 0x09 => 0x38, 0x0A => 0x39, 0x0B => 0x30,
        0x0C => 0x2D, 0x0D => 0x3D, 0x0E => 0x08, 0x0F => 0x09,
        0x10 => 0x71, 0x11 => 0x77, 0x12 => 0x65, 0x13 => 0x72, 0x14 => 0x74,
        0x15 => 0x79, 0x16 => 0x75, 0x17 => 0x69, 0x18 => 0x6F, 0x19 => 0x70,
        0x1A => 0x5B, 0x1B => 0x5D, 0x1C => 0x0A,
        0x1E => 0x61, 0x1F => 0x73, 0x20 => 0x64, 0x21 => 0x66, 0x22 => 0x67,
        0x23 => 0x68, 0x24 => 0x6A, 0x25 => 0x6B, 0x26 => 0x6C, 0x27 => 0x3B,
        0x28 => 0x27, 0x29 => 0x60,
        0x2B => 0x5C, 0x2C => 0x7A, 0x2D => 0x78, 0x2E => 0x63, 0x2F => 0x76,
        0x30 => 0x62, 0x31 => 0x6E, 0x32 => 0x6D, 0x33 => 0x2C, 0x34 => 0x2E,
        0x35 => 0x2F, 0x37 => 0x2A, 0x39 => 0x20,
        _ => 0,
    }
}

/// The shifted ASCII byte of a set-1 make code, 0 where the key prints nothing.
pub open spec fn set1_shifted(sc: u8) -> u8 {
    match sc {
        0x01 => 0x1B,
        0x02 => 0x21, 0x03 => 0x40, 0x04 => 0x23, 0x05 => 0x24, 0x06 => 0x25,
        0x07 => 0x5E, 0x08 => 0x26, 0x09 => 0x2A, 0x0A => 0x28, 0x0B => 0x29,
        0x0C => 0x5F, 0x0D => 0x2B, 0x0E => 0x08, 0x0F => 0x09,
        0x10 => 0x51, 0x11 => 0x57, 0x12 => 0x45, 0x13 => 0x52, 0x14 => 0x54,
        0x15 => 0x59, 0x16 => 0x55, 0x17 => 0x49, 0x18 => 0x4F, 0x19 => 0x50,
        0x1A => 0x7B, 0x1B => 0x7D, 0x1C => 0x0A,
        0x1E => 0x41, 0x1F => 0x53, 0x20 => 0x44, 0x21 => 0x46, 0x22 => 0x47,
        0x23 => 0x48, 0x24 => 0x4A, 0x25 => 0x4B, 0x26 => 0x4C, 0x27 => 0x3A,
        0x28 => 0x22, 0x29 => 0x7E,
        0x2B => 0x7C, 0x2C => 0x5A, 0x2D => 0x58, 0x2E => 0x43, 0x2F => 0x56,
        0x30 => 0x42, 0x31 => 0x4E, 0x32 => 0x4D, 0x33 => 0x3C, 0x34 => 0x3E,
        0x35 => 0x3F, 0x37 => 0x2A, 0x39 => 0x20,
        _ => 0,
    }
}

fn scancode_base(sc: u8) -> (b: u8)
    returns
        set1_base(sc),
{
    match sc {
        0x01 => 0x1B,
        0x02 => '1' as u8, 0x03 => '2' as u8, 0x04 => '3' as u8, 0x05 => '4' as u8, 0x06 => '5' as u8,
        0x07 => '6' as u8, 0x08 => '7' as u8, 0x09 => '8' as u8, 0x0A => '9' as u8, 0x0B => '0' as u8,
        0x0C => '-' as u8, 0x0D => '=' as u8, 0x0E => 0x08, 0x0F => '\t' as u8,
        0x10 => 'q' as u8, 0x11 => 'w' as u8, 0x12 => 'e' as u8, 0x13 => 'r' as u8, 0x14 => 't' as u8,
        0x15 => 'y' as u8, 0x16 => 'u' as u8, 0x17 => 'i' as u8, 0x18 => 'o' as u8, 0x19 => 'p' as u8,
        0x1A => '[' as u8, 0x1B => ']' as u8, 0x1C => '\n' as u8,
        0x1E => 'a' as u8, 0x1F => 's' as u8, 0x20 => 'd' as u8, 0x21 => 'f' as u8, 0x22 => 'g' as u8,
        0x23 => 'h' as u8, 0x24 => 'j' as u8, 0x25 => 'k' as u8, 0x26 => 'l' as u8, 0x27 => ';' as u8,
        0x28 => '\'' as u8, 0x29 => '`' as u8,
        0x2B => '\\' as u8, 0x2C => 'z' as u8, 0x2D => 'x' as u8, 0x2E => 'c' as u8, 0x2F => 'v' as u8,
        0x30 => 'b' as u8, 0x31 => 'n' as u8, 0x32 => 'm' as u8, 0x33 => ',' as u8, 0x34 => '.' as u8,
        0x35 => '/' as u8, 0x37 => '*' as u8, 0x39 => ' ' as u8,
        _ => 0,
    }
}

fn scancode_shifted(sc: u8) -> (b: u8)
    returns
        set1_shifted(sc),
{
    match sc {
        0x01 => 0x1B,
        0x02 => '!' as u8, 0x03 => '@' as u8, 0x04 => '#' as u8, 0x05 => '$' as u8, 0x06 => '%' as u8,
        0x07 => '^' as u8, 0x08 => '&' as u8, 0x09 => '*' as u8, 0x0A => '(' as u8, 0x0B => ')' as u8,
        0x0C => '_' as u8, 0x0D => '+' as u8, 0x0E => 0x08, 0x0F => '\t' as u8,
        0x10 => 'Q' as u8, 0x11 => 'W' as u8, 0x12 => 'E' as u8, 0x13 => 'R' as u8, 0x14 => 'T' as u8,
        0x15 => 'Y' as u8, 0x16 => 'U' as u8, 0x17 => 'I' as u8, 0x18 => 'O' as u8, 0x19 => 'P' as u8,
        0x1A => '{' as u8, 0x1B => '}' as u8, 0x1C => '\n' as u8,
        0x1E => 'A' as u8, 0x1F => 'S' as u8, 0x20 => 'D' as u8, 0x21 => 'F' as u8, 0x22 => 'G' as u8,
        0x23 => 'H' as u8, 0x24 => 'J' as u8, 0x25 => 'K' as u8, 0x26 => 'L' as u8, 0x27 => ':' as u8,
        0x28 => '"' as u8, 0x29 => '~' as u8,
        0x2B => '|' as u8, 0x2C => 'Z' as u8, 0x2D => 'X' as u8, 0x2E => 'C' as u8, 0x2F => 'V' as u8,
        0x30 => 'B' as u8, 0x31 => 'N' as u8, 0x32 => 'M' as u8, 0x33 => '<' as u8, 0x34 => '>' as u8,
        0x35 => '?' as u8, 0x37 => '*' as u8, 0x39 => ' ' as u8,
        _ => 0,
    }
}


// ---------------------------------------------------------------------------
// Model of the driver
// ---------------------------------------------------------------------------

/// The modifier state after the driver sees `sc`: Ctrl press/release,
/// left/right Shift press/release, and Caps Lock (which toggles on press).
pub open spec fn next_modifiers(m: Modifiers, sc: u8) -> Modifiers {
    if sc == 0x1D {
        Modifiers { ctrl: true, ..m }
    } else if sc == 0x9D {
        Modifiers { ctrl: false, ..m }
    } else if sc == 0x2A || sc == 0x36 {
        Modifiers { shift: true, ..m }
    } else if sc == 0xAA || sc == 0xB6 {
        Modifiers { shift: false, ..m }
    } else if sc == 0x3A {
        Modifiers { caps: !m.caps, ..m }
    } else {
        m
    }
}

/// Scancodes that only change the modifier state.
pub open spec fn is_modifier_code(sc: u8) -> bool {
    sc == 0x1D || sc == 0x9D || sc == 0x2A || sc == 0x36 || sc == 0xAA || sc == 0xB6 || sc == 0x3A
}

/// ASCII letters `A..=Z` and `a..=z`.
pub open spec fn is_ascii_letter(b: u8) -> bool {
    (0x41 <= b <= 0x5A) || (0x61 <= b <= 0x7A)
}

/// Letters are shifted by Shift xor Caps Lock; every other key by Shift alone.
pub open spec fn uppercase(m: Modifiers, base: u8) -> bool {
    if is_ascii_letter(base) {
        m.shift != m.caps
    } else {
        m.shift
    }
}

/// The action a scancode produces, given the modifier state before it.
pub open spec fn key_action(m: Modifiers, sc: u8) -> KeyAction {
    if is_modifier_code(sc) || sc >= 0x80 {
        KeyAction::NoAction
    } else if m.ctrl && 0x3B <= sc <= 0x3D {
        KeyAction::SwitchScreen((sc - 0x3B) as usize)
    } else if m.ctrl && 0x02 <= sc <= 0x09 {
        if m.shift {
            KeyAction::SetBackground((sc - 0x02) as u8)
        } else {
            KeyAction::SetForeground((sc - 0x02) as u8)
        }
    } else {
        let base = set1_base(sc);
        let ch = if uppercase(m, base) { set1_shifted(sc) } else { base };
        if base == 0 || ch == 0 {
            KeyAction::NoAction
        } else {
            KeyAction::Char(ch as char)
        }
    }
}

/// The queue after pushing `sc`: appended unless `QUEUE_SIZE - 1` are already waiting,
/// in which case the new scancode is dropped.
pub open spec fn queue_after_push(q: Seq<u8>, sc: u8) -> Seq<u8> {
    if q.len() < QUEUE_SIZE - 1 {
        q.push(sc)
    } else {
        q
    }
}

impl Keyboard {
    /// Structural invariant: both ring indices lie inside the buffer.
    #[verifier::type_invariant]
    pub closed spec fn wf(&self) -> bool {
        self.head < QUEUE_SIZE && self.tail < QUEUE_SIZE
    }

    /// The state of the modifier keys.
    pub closed spec fn modifiers(&self) -> Modifiers {
        Modifiers { shift: self.shift, caps: self.caps, ctrl: self.ctrl }
    }

    spec fn count(&self) -> int {
        if self.head >= self.tail {
            self.head - self.tail
        } else {
            self.head + QUEUE_SIZE - self.tail
        }
    }

    /// The scancodes waiting in the ring buffer, oldest first.
    pub closed spec fn pending(&self) -> Seq<u8> {
        Seq::new(self.count() as nat, |i: int| self.queue@[(self.tail + i) % (QUEUE_SIZE as int)])
    }

    /// A keyboard with no modifier held, Caps Lock off and nothing queued.
    pub fn new() -> (k: Keyboard)
        ensures
            k.wf(),
            k.modifiers() == (Modifiers { shift: false, caps: false, ctrl: false }),
            k.pending() == Seq::<u8>::empty(),
    {
        Keyboard {
            shift: false,
            caps: false,
            ctrl: false,
            queue: [0u8; QUEUE_SIZE],
            head: 0,
            tail: 0,
        }
    }

    /// Queues a scancode; when the buffer is full the scancode is dropped
    /// and nothing already queued is overwritten.
    pub fn push_scancode(&mut self, sc: u8)
        ensures
            final(self).wf(),
            final(self).modifiers() == old(self).modifiers(),
            final(self).pending() == queue_after_push(old(self).pending(), sc),
    {
        proof {
            use_type_invariant(&*self);
        }
        let next = (self.head + 1) % QUEUE_SIZE;
        if next != self.tail {
            self.queue[self.head] = sc;
            self.head = next;
        }
        proof {
            assert(final(self).pending() =~= queue_after_push(old(self).pending(), sc));
        }
    }

    /// Takes the oldest queued scancode, or `None` when the queue is empty.
    pub fn pop_scancode(&mut self) -> (r: Option<u8>)
        ensures
            final(self).wf(),
            final(self).modifiers() == old(self).modifiers(),
            old(self).pending().len() == 0 ==> r is None && final(self).pending() == old(self).pending(),
            old(self).pending().len() > 0 ==> r == Some(old(self).pending()[0])
                && final(self).pending() == old(self).pending().drop_first(),
    {
        proof {
            use_type_invariant(&*self);
        }
        if self.head == self.tail {
            None
        } else {
            let sc = self.queue[self.tail];
            self.tail = (self.tail + 1) % QUEUE_SIZE;
            proof {
                assert(final(self).pending() =~= old(self).pending().drop_first());
            }
            Some(sc)
        }
    }
}


/// `u8::is_ascii_alphabetic` from core: true exactly for the bytes of
/// `'A'..='Z'` and `'a'..='z'`, as its documentation states.
pub assume_specification[ u8::is_ascii_alphabetic ](b: &u8) -> (r: bool)
    ensures
        r == is_ascii_letter(*b),
;

impl Keyboard {
    /// Feeds one scancode to the driver: updates the modifier keys and says what the
    /// key press means (a character, a screen switch, a colour change, or nothing).
    pub fn handle_scancode(&mut self, scancode: u8) -> (action: KeyAction)
        ensures
            final(self).wf(),
            final(self).pending() == old(self).pending(),
            final(self).modifiers() == next_modifiers(old(self).modifiers(), scancode),
            action == key_action(old(self).modifiers(), scancode),
    {
        proof {
            use_type_invariant(&*self);
        }
        match scancode {
            0x1D => {
                self.ctrl = true;
                return KeyAction::NoAction;
            },
            0x9D => {
                self.ctrl = false;
                return KeyAction::NoAction;
            },
            0x2A | 0x36 => {
                self.shift = true;
                return KeyAction::NoAction;
            },
            0xAA | 0xB6 => {
                self.shift = false;
                return KeyAction::NoAction;
            },
            0x3A => {
                self.caps = !self.caps;
                return KeyAction::NoAction;
            },
            _ => {},
        }

        if scancode & 0x80 != 0 {
            assert(scancode >= 0x80) by (bit_vector)
                requires
                    scancode & 0x80 != 0,
            ;
            return KeyAction::NoAction;
        }
        assert(scancode < 0x80) by (bit_vector)
            requires
                scancode & 0x80 == 0,
        ;

        if self.ctrl {
            match scancode {
                0x3B => return KeyAction::SwitchScreen(0),
                0x3C => return KeyAction::SwitchScreen(1),
                0x3D => return KeyAction::SwitchScreen(2),
                _ => {},
            }
            // number row 1..=8 (scancodes 0x02..=0x09) selects colour 0..=7
            if scancode >= 0x02 && scancode <= 0x09 {
                let color = scancode - 0x02;
                if self.shift {
                    return KeyAction::SetBackground(color);
                } else {
                    return KeyAction::SetForeground(color);
                }
            }
        }

        let base = scancode_base(scancode);
        if base == 0 {
            return KeyAction::NoAction;
        }
        let ch = if self.should_uppercase(base) {
            scancode_shifted(scancode)
        } else {
            base
        };
        if ch == 0 {
            KeyAction::NoAction
        } else {
            KeyAction::Char(ch as char)
        }
    }

    fn should_uppercase(&self, base: u8) -> (r: bool)
        ensures
            r == uppercase(self.modifiers(), base),
    {
        if base.is_ascii_alphabetic() {
            self.shift ^ self.caps
        } else {
            self.shift
        }
    }
}

/// The ring buffer never holds more than `QUEUE_SIZE - 1` scancodes.
pub proof fn law_queue_capacity(k: &Keyboard)
    requires
        k.wf(),
    ensures
        k.pending().len() < QUEUE_SIZE,
{
}

/// The queue is first in, first out: pushing onto a queue that holds something
/// and has room does not change what comes out next, and what remains after that
/// is the rest of the queue with the new scancode at the end.
pub proof fn law_queue_fifo(q: Seq<u8>, sc: u8)
    requires
        0 < q.len() < QUEUE_SIZE - 1,
    ensures
        queue_after_push(q, sc)[0] == q[0],
        queue_after_push(q, sc).drop_first() == queue_after_push(q.drop_first(), sc),
{
    assert(queue_after_push(q, sc).drop_first() =~= queue_after_push(q.drop_first(), sc));
}

/// Key releases (scancodes with the top bit set) never produce an action.
pub proof fn law_release_does_nothing(m: Modifiers, sc: u8)
    requires
        sc >= 0x80,
    ensures
        key_action(m, sc) == KeyAction::NoAction,
{
}

/// Pressing Caps Lock twice restores the modifier state.
pub proof fn law_caps_lock_toggles(m: Modifiers)
    ensures
        next_modifiers(next_modifiers(m, 0x3A), 0x3A) == m,
        next_modifiers(m, 0x3A).caps == !m.caps,
{
}

/// A letter key types its capital exactly when one of Shift and Caps Lock is on.
pub proof fn law_letter_case(m: Modifiers, sc: u8)
    requires
        is_ascii_letter(set1_base(sc)),
        !(m.ctrl && 0x02 <= sc <= 0x09),
        !(m.ctrl && 0x3B <= sc <= 0x3D),
    ensures
        key_action(m, sc) == KeyAction::Char(
            (if m.shift != m.caps { set1_shifted(sc) } else { set1_base(sc) }) as char,
        ),
        0x41 <= set1_shifted(sc) <= 0x5A,
        0x61 <= set1_base(sc) <= 0x7A,
{
}

/// No modifier key held and Caps Lock off.
pub open spec fn no_modifiers() -> Modifiers {
    Modifiers { shift: false, caps: false, ctrl: false }
}

/// Only Shift held.
pub open spec fn shift_only() -> Modifiers {
    Modifiers { shift: true, caps: false, ctrl: false }
}

/// The three letter rows of a US keyboard type the letters printed on their keys,
/// left to right: `qwertyuiop` from 0x10, `asdfghjkl` from 0x1E, `zxcvbnm` from 0x2C.
pub proof fn law_us_letter_rows()
    ensures
        forall|i: int| 0 <= i < 10 ==> #[trigger] key_action(no_modifiers(), (0x10 + i) as u8) == KeyAction::Char(seq!['q', 'w', 'e', 'r', 't', 'y', 'u', 'i', 'o', 'p'][i]),
        forall|i: int| 0 <= i < 9 ==> #[trigger] key_action(no_modifiers(), (0x1E + i) as u8) == KeyAction::Char(seq!['a', 's', 'd', 'f', 'g', 'h', 'j', 'k', 'l'][i]),
        forall|i: int| 0 <= i < 7 ==> #[trigger] key_action(no_modifiers(), (0x2C + i) as u8) == KeyAction::Char(seq!['z', 'x', 'c', 'v', 'b', 'n', 'm'][i]),
{
    assert forall|i: int| 0 <= i < 10 implies #[trigger] key_action(no_modifiers(), (0x10 + i) as u8) == KeyAction::Char(seq!['q', 'w', 'e', 'r', 't', 'y', 'u', 'i', 'o', 'p'][i]) by {
        if i == 0 {} else if i == 1 {} else if i == 2 {} else if i == 3 {} else if i == 4 {} else if i == 5 {} else if i == 6 {} else if i == 7 {} else if i == 8 {} else {}
    }
    assert forall|i: int| 0 <= i < 9 implies #[trigger] key_action(no_modifiers(), (0x1E + i) as u8) == KeyAction::Char(seq!['a', 's', 'd', 'f', 'g', 'h', 'j', 'k', 'l'][i]) by {
        if i == 0 {} else if i == 1 {} else if i == 2 {} else if i == 3 {} else if i == 4 {} else if i == 5 {} else if i == 6 {} else if i == 7 {} else {}
    }
    assert forall|i: int| 0 <= i < 7 implies #[trigger] key_action(no_modifiers(), (0x2C + i) as u8) == KeyAction::Char(seq!['z', 'x', 'c', 'v', 'b', 'n', 'm'][i]) by {
        if i == 0 {} else if i == 1 {} else if i == 2 {} else if i == 3 {} else if i == 4 {} else if i == 5 {} else {}
    }
}

/// The number row types `1234567890` from 0x02, and with Shift the symbols printed
/// above the digits on a US keyboard.
pub proof fn law_us_number_row()
    ensures
        forall|i: int| 0 <= i < 10 ==> #[trigger] key_action(no_modifiers(), (0x02 + i) as u8) == KeyAction::Char(seq!['1', '2', '3', '4', '5', '6', '7', '8', '9', '0'][i]),
        forall|i: int| 0 <= i < 10 ==> #[trigger] key_action(shift_only(), (0x02 + i) as u8) == KeyAction::Char(seq!['!', '@', '#', '$', '%', '^', '&', '*', '(', ')'][i]),
{
    assert forall|i: int| 0 <= i < 10 implies #[trigger] key_action(no_modifiers(), (0x02 + i) as u8) == KeyAction::Char(seq!['1', '2', '3', '4', '5', '6', '7', '8', '9', '0'][i]) by {
        if i == 0 {} else if i == 1 {} else if i == 2 {} else if i == 3 {} else if i == 4 {} else if i == 5 {} else if i == 6 {} else if i == 7 {} else if i == 8 {} else {}
    }
    assert forall|i: int| 0 <= i < 10 implies #[trigger] key_action(shift_only(), (0x02 + i) as u8) == KeyAction::Char(seq!['!', '@', '#', '$', '%', '^', '&', '*', '(', ')'][i]) by {
        if i == 0 {} else if i == 1 {} else if i == 2 {} else if i == 3 {} else if i == 4 {} else if i == 5 {} else if i == 6 {} else if i == 7 {} else if i == 8 {} else {}
    }
}

/// On every letter key the shifted character is the capital of the unshifted one,
/// and a key has a capital letter exactly when it has a small one.
pub proof fn law_letter_keys_change_case(sc: u8)
    ensures
        is_ascii_letter(set1_base(sc)) ==> 0x61 <= set1_base(sc) <= 0x7A && set1_shifted(sc) == set1_base(sc) - 0x20,
        is_ascii_letter(set1_shifted(sc)) <==> is_ascii_letter(set1_base(sc)),
        is_ascii_letter(set1_base(sc)) ==> key_action(shift_only(), sc) == KeyAction::Char((set1_base(sc) - 0x20) as char),
{
}

} // verus!

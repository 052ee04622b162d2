use vstd::prelude::*;

verus! {

/// The joypad register (P1, 0xFF00). A button's bit is 0 while it is held.
pub struct Joypad {
    action_buttons: u8,
    direction_buttons: u8,
    select_action: bool,
    select_direction: bool,
}

/// The eight buttons. A, B, Select and Start are the action group; Right,
/// Left, Up and Down the direction group.
#[derive(Debug, Copy, Clone)]
pub enum Button {
    A,
    B,
    Select,
    Start,
    Right,
    Left,
    Up,
    Down,
}

impl Button {
    /// Whether the button belongs to the action group.
    pub open spec fn is_action(self) -> bool {
        match self {
            Button::A | Button::B | Button::Select | Button::Start => true,
            _ => false,
        }
    }

    /// The button's bit within its group (and within the low nibble of P1).
    pub open spec fn bit(self) -> u8 {
        match self {
            Button::A | Button::Right => 0x01,
            Button::B | Button::Left => 0x02,
            Button::Select | Button::Up => 0x04,
            Button::Start | Button::Down => 0x08,
        }
    }
}

impl Joypad {
    /// The action group's button bits (a bit is 0 while its button is held).
    pub closed spec fn action_bits(self) -> u8 {
        self.action_buttons
    }

    /// The direction group's button bits.
    pub closed spec fn direction_bits(self) -> u8 {
        self.direction_buttons
    }

    /// Whether the program has selected the action group (P1 bit 5 written 0).
    pub closed spec fn action_selected(self) -> bool {
        self.select_action
    }

    /// Whether the program has selected the direction group (P1 bit 4 written 0).
    pub closed spec fn direction_selected(self) -> bool {
        self.select_direction
    }

    /// The low nibble of P1: the action group when it is selected, else the
    /// direction group when it is selected, else all released.
    pub open spec fn low_nibble(self) -> u8 {
        if self.action_selected() {
            self.action_bits() & 0x0F
        } else if self.direction_selected() {
            self.direction_bits() & 0x0F
        } else {
            0x0F
        }
    }

    /// The value that reading P1 gives: bits 7 and 6 set, bits 5 and 4 the
    /// complements of the two selections, bits 3 to 0 the low nibble.
    pub open spec fn read_spec(self) -> u8 {
        0xC0u8 | (if self.action_selected() {
            0u8
        } else {
            0x20u8
        }) | (if self.direction_selected() {
            0u8
        } else {
            0x10u8
        }) | self.low_nibble()
    }

    /// The joypad after the program writes `value` to P1: only the two
    /// selection bits are taken.
    pub closed spec fn written(self, value: u8) -> Joypad {
        Joypad {
            select_action: (value & 0x20) == 0,
            select_direction: (value & 0x10) == 0,
            ..self
        }
    }

    /// The joypad after `button` is pressed: its bit is cleared in its group.
    pub closed spec fn pressed(self, button: Button) -> Joypad {
        if button.is_action() {
            Joypad { action_buttons: self.action_buttons & !button.bit(), ..self }
        } else {
            Joypad { direction_buttons: self.direction_buttons & !button.bit(), ..self }
        }
    }

    /// The joypad after `button` is released: its bit is set in its group.
    pub closed spec fn released(self, button: Button) -> Joypad {
        if button.is_action() {
            Joypad { action_buttons: self.action_buttons | button.bit(), ..self }
        } else {
            Joypad { direction_buttons: self.direction_buttons | button.bit(), ..self }
        }
    }

    pub proof fn lemma_written(self, value: u8)
        ensures
            self.written(value).action_selected() == ((value & 0x20) == 0),
            self.written(value).direction_selected() == ((value & 0x10) == 0),
            self.written(value).action_bits() == self.action_bits(),
            self.written(value).direction_bits() == self.direction_bits(),
    {
    }

    pub proof fn lemma_pressed_released(self, button: Button)
        ensures
            self.pressed(button).action_selected() == self.action_selected(),
            self.pressed(button).direction_selected() == self.direction_selected(),
            self.released(button).action_selected() == self.action_selected(),
            self.released(button).direction_selected() == self.direction_selected(),
            button.is_action() ==> self.pressed(button).action_bits() == self.action_bits()
                & !button.bit() && self.pressed(button).direction_bits() == self.direction_bits()
                && self.released(button).action_bits() == self.action_bits() | button.bit()
                && self.released(button).direction_bits() == self.direction_bits(),
            !button.is_action() ==> self.pressed(button).direction_bits()
                == self.direction_bits() & !button.bit() && self.pressed(button).action_bits()
                == self.action_bits() && self.released(button).direction_bits()
                == self.direction_bits() | button.bit() && self.released(button).action_bits()
                == self.action_bits(),
    {
    }

    pub fn new() -> (r: Self)
        ensures
            r.action_bits() == 0x0F,
            r.direction_bits() == 0x0F,
            !r.action_selected(),
            !r.direction_selected(),
    {
        Joypad {
            action_buttons: 0x0F,
            direction_buttons: 0x0F,
            select_action: false,
            select_direction: false,
        }
    }

    pub fn read(&self) -> (r: u8)
        ensures
            r == self.read_spec(),
    {
        let mut result: u8 = 0xC0;

        if !self.select_action {
            result = result | 0x20;
        }
        if !self.select_direction {
            result = result | 0x10;
        }
        if self.select_action {
            result = result | (self.action_buttons & 0x0F);
        } else if self.select_direction {
            result = result | (self.direction_buttons & 0x0F);
        } else {
            result = result | 0x0F;
        }
        proof {
            assert(forall|x: u8| #![auto] x | 0u8 == x) by (bit_vector);
        }
        result
    }

    pub fn write(&mut self, value: u8)
        ensures
            *final(self) == old(self).written(value),
    {
        self.select_action = (value & 0x20) == 0;
        self.select_direction = (value & 0x10) == 0;
    }

    pub fn press_button(&mut self, button: Button)
        ensures
            *final(self) == old(self).pressed(button),
    {
        match button {
            Button::A => self.action_buttons = self.action_buttons & !0x01u8,
            Button::B => self.action_buttons = self.action_buttons & !0x02u8,
            Button::Select => self.action_buttons = self.action_buttons & !0x04u8,
            Button::Start => self.action_buttons = self.action_buttons & !0x08u8,
            Button::Right => self.direction_buttons = self.direction_buttons & !0x01u8,
            Button::Left => self.direction_buttons = self.direction_buttons & !0x02u8,
            Button::Up => self.direction_buttons = self.direction_buttons & !0x04u8,
            Button::Down => self.direction_buttons = self.direction_buttons & !0x08u8,
        }
    }

    pub fn release_button(&mut self, button: Button)
        ensures
            *final(self) == old(self).released(button),
    {
        match button {
            Button::A => self.action_buttons = self.action_buttons | 0x01,
            Button::B => self.action_buttons = self.action_buttons | 0x02,
            Button::Select => self.action_buttons = self.action_buttons | 0x04,
            Button::Start => self.action_buttons = self.action_buttons | 0x08,
            Button::Right => self.direction_buttons = self.direction_buttons | 0x01,
            Button::Left => self.direction_buttons = self.direction_buttons | 0x02,
            Button::Up => self.direction_buttons = self.direction_buttons | 0x04,
            Button::Down => self.direction_buttons = self.direction_buttons | 0x08,
        }
    }
}

/// While its group is selected (the action group taking precedence), a held
/// button reads as 0 in P1 and a released one as 1.
pub proof fn lemma_press_shows_in_read(j: Joypad, button: Button)
    requires
        button.is_action() ==> j.action_selected(),
        !button.is_action() ==> !j.action_selected() && j.direction_selected(),
    ensures
        j.pressed(button).read_spec() & button.bit() == 0,
        j.released(button).read_spec() & button.bit() == button.bit(),
{
    j.lemma_pressed_released(button);
    let m = button.bit();
    let a = j.action_bits();
    let d = j.direction_bits();
    assert(m == 1 || m == 2 || m == 4 || m == 8);
    let p = j.pressed(button);
    let q = j.released(button);
    let s1: u8 = if j.action_selected() { 0u8 } else { 0x20u8 };
    let s2: u8 = if j.direction_selected() { 0u8 } else { 0x10u8 };
    let lp: u8 = if button.is_action() { a & !m } else { d & !m };
    let lq: u8 = if button.is_action() { a | m } else { d | m };
    assert(p.low_nibble() == lp & 0x0F);
    assert(q.low_nibble() == lq & 0x0F);
    assert(((0xC0u8 | s1 | s2 | (lp & 0x0F)) & m) == 0) by (bit_vector)
        requires
            m == 1 || m == 2 || m == 4 || m == 8,
            s1 == 0 || s1 == 0x20,
            s2 == 0 || s2 == 0x10,
            lp == a & !m || lp == d & !m,
    ;
    assert(((0xC0u8 | s1 | s2 | (lq & 0x0F)) & m) == m) by (bit_vector)
        requires
            m == 1 || m == 2 || m == 4 || m == 8,
            lq == a | m || lq == d | m,
    ;
}

/// Releasing a button undoes pressing it, when it was released before.
pub proof fn lemma_release_undoes_press(j: Joypad, button: Button)
    requires
        button.is_action() ==> j.action_bits() & button.bit() != 0,
        !button.is_action() ==> j.direction_bits() & button.bit() != 0,
    ensures
        j.pressed(button).released(button) == j,
{
    let m = button.bit();
    assert(m == 1 || m == 2 || m == 4 || m == 8);
    let a = j.action_buttons;
    let d = j.direction_buttons;
    assert(a & m != 0 ==> (a & !m) | m == a) by (bit_vector)
        requires
            m == 1 || m == 2 || m == 4 || m == 8,
    ;
    assert(d & m != 0 ==> (d & !m) | m == d) by (bit_vector)
        requires
            m == 1 || m == 2 || m == 4 || m == 8,
    ;
}

/// A line of P1 with the row bits `hi` above it: clearing or setting bit `m`
/// of the row clears or sets that line and nothing else.
proof fn lemma_line_bits(x: u8, m: u8, hi: u8)
    by (bit_vector)
    requires
        m == 1 || m == 2 || m == 4 || m == 8,
        hi == 0xE0 || hi == 0xD0,
    ensures
        (hi | ((x & !m) & 0x0F)) == (hi | (x & 0x0F)) & !m,
        (hi | ((x | m) & 0x0F)) == (hi | (x & 0x0F)) | m,
{
}

/// With the direction row selected (P1 written 0x20), pressing a direction
/// button clears exactly its line of P1 (Right bit 0, Left bit 1, Up bit 2,
/// Down bit 3) and releasing it sets that line; the action buttons do not
/// show.
pub proof fn lemma_direction_row_lines(j: Joypad)
    ensures
        ({
            let d = j.written(0x20);
            &&& d.read_spec() & 0xF0 == 0xE0
            &&& d.pressed(Button::Right).read_spec() == d.read_spec() & !0x01u8
            &&& d.pressed(Button::Left).read_spec() == d.read_spec() & !0x02u8
            &&& d.pressed(Button::Up).read_spec() == d.read_spec() & !0x04u8
            &&& d.pressed(Button::Down).read_spec() == d.read_spec() & !0x08u8
            &&& d.released(Button::Right).read_spec() == d.read_spec() | 0x01u8
            &&& d.released(Button::Left).read_spec() == d.read_spec() | 0x02u8
            &&& d.released(Button::Up).read_spec() == d.read_spec() | 0x04u8
            &&& d.released(Button::Down).read_spec() == d.read_spec() | 0x08u8
            &&& d.pressed(Button::A).read_spec() == d.read_spec()
            &&& d.pressed(Button::B).read_spec() == d.read_spec()
            &&& d.pressed(Button::Select).read_spec() == d.read_spec()
            &&& d.pressed(Button::Start).read_spec() == d.read_spec()
        }),
{
    let x = j.direction_buttons;
    let d = j.written(0x20);
    assert((0x20u8 & 0x20u8) != 0 && (0x20u8 & 0x10u8) == 0 && (0xE0u8 | (x & 0x0F)) & 0xF0
        == 0xE0 && 0xC0u8 | 0x20u8 | 0u8 == 0xE0u8) by (bit_vector);
    assert(!d.select_action && d.select_direction && d.direction_buttons == x);
    lemma_line_bits(x, 1, 0xE0);
    lemma_line_bits(x, 2, 0xE0);
    lemma_line_bits(x, 4, 0xE0);
    lemma_line_bits(x, 8, 0xE0);
}

/// With the action row selected (P1 written 0x10), pressing an action
/// button clears exactly its line of P1 (A bit 0, B bit 1, Select bit 2,
/// Start bit 3) and releasing it sets that line; the direction buttons do
/// not show.
pub proof fn lemma_action_row_lines(j: Joypad)
    ensures
        ({
            let d = j.written(0x10);
            &&& d.read_spec() & 0xF0 == 0xD0
            &&& d.pressed(Button::A).read_spec() == d.read_spec() & !0x01u8
            &&& d.pressed(Button::B).read_spec() == d.read_spec() & !0x02u8
            &&& d.pressed(Button::Select).read_spec() == d.read_spec() & !0x04u8
            &&& d.pressed(Button::Start).read_spec() == d.read_spec() & !0x08u8
            &&& d.released(Button::A).read_spec() == d.read_spec() | 0x01u8
            &&& d.released(Button::B).read_spec() == d.read_spec() | 0x02u8
            &&& d.released(Button::Select).read_spec() == d.read_spec() | 0x04u8
            &&& d.released(Button::Start).read_spec() == d.read_spec() | 0x08u8
            &&& d.pressed(Button::Right).read_spec() == d.read_spec()
            &&& d.pressed(Button::Left).read_spec() == d.read_spec()
            &&& d.pressed(Button::Up).read_spec() == d.read_spec()
            &&& d.pressed(Button::Down).read_spec() == d.read_spec()
        }),
{
    let x = j.action_buttons;
    let d = j.written(0x10);
    assert((0x10u8 & 0x20u8) == 0 && (0x10u8 & 0x10u8) != 0 && (0xD0u8 | (x & 0x0F)) & 0xF0
        == 0xD0 && 0xC0u8 | 0u8 | 0x10u8 == 0xD0u8) by (bit_vector);
    assert(d.select_action && !d.select_direction && d.action_buttons == x);
    lemma_line_bits(x, 1, 0xD0);
    lemma_line_bits(x, 2, 0xD0);
    lemma_line_bits(x, 4, 0xD0);
    lemma_line_bits(x, 8, 0xD0);
}

} // verus!

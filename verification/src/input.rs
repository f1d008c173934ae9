//! The console's buttons and their bits in the key registers.
use vstd::prelude::*;

verus! {

/// A button of the console.
#[derive(Clone, Copy, PartialEq, Eq, Structural, Debug)]
pub enum Button {
    A,
    B,
    Select,
    Start,
    Right,
    Left,
    Up,
    Down,
    R,
    L,
}

impl Button {
    /// The bit that stands for this button in a key register.
    pub open spec fn bit(self) -> nat {
        match self {
            Button::A => 0,
            Button::B => 1,
            Button::Select => 2,
            Button::Start => 3,
            Button::Right => 4,
            Button::Left => 5,
            Button::Up => 6,
            Button::Down => 7,
            Button::R => 8,
            Button::L => 9,
        }
    }

    /// The register mask of this button: one bit set, at `bit()`.
    pub open spec fn mask(self) -> u16 {
        1u16 << (self.bit() as u16)
    }

    /// The register mask of this button.
    pub fn code(self) -> (res: u16)
        ensures
            res == self.mask(),
    {
        match self {
            Button::A => 1u16 << 0u16,
            Button::B => 1u16 << 1u16,
            Button::Select => 1u16 << 2u16,
            Button::Start => 1u16 << 3u16,
            Button::Right => 1u16 << 4u16,
            Button::Left => 1u16 << 5u16,
            Button::Up => 1u16 << 6u16,
            Button::Down => 1u16 << 7u16,
            Button::R => 1u16 << 8u16,
            Button::L => 1u16 << 9u16,
        }
    }

    /// Whether this button's bit is set in `keys`.
    pub open spec fn in_keys(self, keys: u16) -> bool {
        (keys >> (self.bit() as u16)) & 1 == 1
    }

    /// Whether this button went down this frame, given the register of
    /// newly pressed keys.
    pub fn pressed(self, new_keys: u16) -> (res: bool)
        ensures
            res == self.in_keys(new_keys),
    {
        Self::bit_set(new_keys, self.code(), self)
    }

    /// Whether this button is held down, given the register of held keys.
    pub fn held(self, held_keys: u16) -> (res: bool)
        ensures
            res == self.in_keys(held_keys),
    {
        Self::bit_set(held_keys, self.code(), self)
    }

    /// Whether this button went down or auto-repeated this frame, given the
    /// register of new and repeated keys.
    pub fn repeat(self, new_and_repeated_keys: u16) -> (res: bool)
        ensures
            res == self.in_keys(new_and_repeated_keys),
    {
        Self::bit_set(new_and_repeated_keys, self.code(), self)
    }

    fn bit_set(keys: u16, code: u16, button: Button) -> (res: bool)
        requires
            code == button.mask(),
        ensures
            res == button.in_keys(keys),
    {
        let r = keys & code != 0;
        proof {
            let b = button.bit() as u16;
            assert(((keys & (1u16 << b)) != 0) == ((keys >> b) & 1 == 1)) by (bit_vector)
                requires
                    b < 16,
            ;
        }
        r
    }
}

} // verus!

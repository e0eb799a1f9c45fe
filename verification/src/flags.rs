//! Bit sets for keyboard modifiers and pressed mouse buttons.

use vstd::prelude::*;

verus! {

/// Bit of the Control modifier.
pub const CTRL_BIT: u32 = 1;
/// Bit of the Alt modifier.
pub const ALT_BIT: u32 = 2;
/// Bit of the Shift modifier.
pub const SHIFT_BIT: u32 = 4;
/// Bit of the Super (logo) modifier.
pub const SUPER_BIT: u32 = 8;

/// Bit of the left mouse button.
pub const LEFT_BIT: u8 = 1;
/// Bit of the right mouse button.
pub const RIGHT_BIT: u8 = 2;
/// Bit of the middle mouse button.
pub const MIDDLE_BIT: u8 = 4;

/// Keyboard modifiers held while an event happened.
#[derive(Clone, Copy, Debug, PartialEq, Eq, Structural, Default)]
pub struct KeyModifiers {
    bits: u32,
}

impl View for KeyModifiers {
    type V = u32;

    closed spec fn view(&self) -> u32 {
        self.bits
    }
}

/// `true` when every bit of `flag` is set in `bits`.
pub open spec fn has_bits32(bits: u32, flag: u32) -> bool {
    bits & flag == flag
}

/// `true` when every bit of `flag` is set in `bits`.
pub open spec fn has_bits8(bits: u8, flag: u8) -> bool {
    bits & flag == flag
}

impl KeyModifiers {
    /// No modifier held.
    pub fn empty() -> (r: Self)
        ensures
            r@ == 0,
    {
        KeyModifiers { bits: 0 }
    }

    /// The set holding exactly the given bits.
    pub fn from_bits_retain(bits: u32) -> (r: Self)
        ensures
            r@ == bits,
    {
        KeyModifiers { bits }
    }

    pub fn ctrl() -> (r: Self)
        ensures
            r@ == CTRL_BIT,
    {
        KeyModifiers { bits: CTRL_BIT }
    }

    pub fn alt() -> (r: Self)
        ensures
            r@ == ALT_BIT,
    {
        KeyModifiers { bits: ALT_BIT }
    }

    pub fn shift() -> (r: Self)
        ensures
            r@ == SHIFT_BIT,
    {
        KeyModifiers { bits: SHIFT_BIT }
    }

    pub fn super_key() -> (r: Self)
        ensures
            r@ == SUPER_BIT,
    {
        KeyModifiers { bits: SUPER_BIT }
    }

    /// The modifiers held, from the state of each key.
    pub fn from_keys(ctrl: bool, alt: bool, shift: bool, super_key: bool) -> (r: Self)
        ensures
            has_bits32(r@, CTRL_BIT) == ctrl,
            has_bits32(r@, ALT_BIT) == alt,
            has_bits32(r@, SHIFT_BIT) == shift,
            has_bits32(r@, SUPER_BIT) == super_key,
            r@ & !15u32 == 0,
    {
        let bits: u32 = (if ctrl { CTRL_BIT } else { 0 }) | (if alt { ALT_BIT } else { 0 }) | (if shift { SHIFT_BIT } else { 0 })
            | (if super_key { SUPER_BIT } else { 0 });
        let c: u32 = if ctrl { 1 } else { 0 };
        let a: u32 = if alt { 2 } else { 0 };
        let s: u32 = if shift { 4 } else { 0 };
        let k: u32 = if super_key { 8 } else { 0 };
        proof {
            assert(bits == c | a | s | k);
            assert((c == 0 || c == 1) && (a == 0 || a == 2) && (s == 0 || s == 4) && (k == 0 || k == 8) ==> {
                &&& ((c | a | s | k) & 1 == 1) == (c == 1)
                &&& ((c | a | s | k) & 2 == 2) == (a == 2)
                &&& ((c | a | s | k) & 4 == 4) == (s == 4)
                &&& ((c | a | s | k) & 8 == 8) == (k == 8)
                &&& (c | a | s | k) & !15u32 == 0
            }) by (bit_vector);
        }
        KeyModifiers { bits }
    }

    pub fn bits(&self) -> (r: u32)
        ensures
            r == self@,
    {
        self.bits
    }

    /// `true` when all bits of `other` are held.
    pub fn contains(&self, other: Self) -> (r: bool)
        ensures
            r == has_bits32(self@, other@),
    {
        self.bits & other.bits == other.bits
    }

    pub fn is_empty(&self) -> (r: bool)
        ensures
            r == (self@ == 0),
    {
        self.bits == 0
    }

    /// Adds the bits of `other`.
    pub fn insert(&mut self, other: Self)
        ensures
            final(self)@ == old(self)@ | other@,
    {
        self.bits = self.bits | other.bits;
    }

    /// Removes the bits of `other`.
    pub fn remove(&mut self, other: Self)
        ensures
            final(self)@ == old(self)@ & !other@,
    {
        self.bits = self.bits & !other.bits;
    }

    /// Adds the bits of `other` when `value` holds, removes them otherwise.
    pub fn set(&mut self, other: Self, value: bool)
        ensures
            final(self)@ == (if value { old(self)@ | other@ } else { old(self)@ & !other@ }),
    {
        if value {
            self.insert(other);
        } else {
            self.remove(other);
        }
    }
}

/// Mouse buttons held while an event happened.
#[derive(Clone, Copy, Debug, PartialEq, Eq, Structural, Default)]
pub struct MouseButtons {
    bits: u8,
}

impl View for MouseButtons {
    type V = u8;

    closed spec fn view(&self) -> u8 {
        self.bits
    }
}

impl MouseButtons {
    pub closed spec fn empty_spec() -> Self {
        MouseButtons { bits: 0 }
    }

    /// No button held.
    pub fn empty() -> (r: Self)
        ensures
            r@ == 0,
            r == Self::empty_spec(),
    {
        MouseButtons { bits: 0 }
    }

    /// The set holding exactly the given bits.
    pub fn from_bits_retain(bits: u8) -> (r: Self)
        ensures
            r@ == bits,
    {
        MouseButtons { bits }
    }

    pub fn left() -> (r: Self)
        ensures
            r@ == LEFT_BIT,
    {
        MouseButtons { bits: LEFT_BIT }
    }

    pub fn right() -> (r: Self)
        ensures
            r@ == RIGHT_BIT,
    {
        MouseButtons { bits: RIGHT_BIT }
    }

    pub fn middle() -> (r: Self)
        ensures
            r@ == MIDDLE_BIT,
    {
        MouseButtons { bits: MIDDLE_BIT }
    }

    pub fn bits(&self) -> (r: u8)
        ensures
            r == self@,
    {
        self.bits
    }

    /// `true` when all bits of `other` are held.
    pub fn contains(&self, other: Self) -> (r: bool)
        ensures
            r == has_bits8(self@, other@),
    {
        self.bits & other.bits == other.bits
    }

    pub fn is_empty(&self) -> (r: bool)
        ensures
            r == (self@ == 0),
    {
        self.bits == 0
    }

    /// Adds the bits of `other`.
    pub fn insert(&mut self, other: Self)
        ensures
            final(self)@ == old(self)@ | other@,
    {
        self.bits = self.bits | other.bits;
    }

    /// Removes the bits of `other`.
    pub fn remove(&mut self, other: Self)
        ensures
            final(self)@ == old(self)@ & !other@,
    {
        self.bits = self.bits & !other.bits;
    }
}

/// After inserting a set of modifiers, all of them are held, and the bits
/// held before are still held.
pub proof fn lemma_modifiers_insert_contains(before: u32, flag: u32)
    ensures
        has_bits32(before | flag, flag),
        has_bits32(before | flag, before),
{
    assert((before | flag) & flag == flag) by (bit_vector);
    assert((before | flag) & before == before) by (bit_vector);
}

/// After removing a nonempty set of modifiers, that set is no longer held, and
/// the bits outside it are left as they were.
pub proof fn lemma_modifiers_remove(before: u32, flag: u32)
    ensures
        flag != 0 ==> !has_bits32(before & !flag, flag),
        (before & !flag) & flag == 0,
        forall|other: u32| other & flag == 0 ==> ((before & !flag) & other == before & other),
{
    assert(flag != 0 ==> (before & !flag) & flag != flag) by (bit_vector);
    assert((before & !flag) & flag == 0) by (bit_vector);
    assert forall|other: u32| other & flag == 0 implies ((before & !flag) & other == before & other) by {
        assert(other & flag == 0 ==> ((before & !flag) & other == before & other)) by (bit_vector);
    }
}

/// Pressing then releasing a button leaves the other buttons as they were,
/// and the button is no longer held.
pub proof fn lemma_buttons_press_release(before: u8, button: u8)
    ensures
        has_bits8(before | button, button),
        button != 0 ==> !has_bits8((before | button) & !button, button),
        (before & !button) == ((before | button) & !button),
{
    assert((before | button) & button == button) by (bit_vector);
    assert(button != 0 ==> ((before | button) & !button) & button != button) by (bit_vector);
    assert((before & !button) == ((before | button) & !button)) by (bit_vector);
}

} // verus!

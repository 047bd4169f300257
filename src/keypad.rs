use vstd::prelude::*;

verus! {

/// Number of keys on the keypad.
pub const KEY_COUNT: u8 = 16;

/// Whether bit `k` of `mask` is set.
pub open spec fn key_bit(mask: u16, k: u8) -> bool {
    (mask >> k) & 1u16 == 1u16
}

/// The lowest pressed key that is `k` or above.
pub open spec fn lowest_pressed_from(mask: u16, k: u8) -> Option<u8>
    decreases KEY_COUNT - k,
{
    if k >= KEY_COUNT {
        None
    } else if key_bit(mask, k) {
        Some(k)
    } else {
        lowest_pressed_from(mask, (k + 1) as u8)
    }
}

/// The lowest pressed key, if any.
pub open spec fn lowest_pressed(mask: u16) -> Option<u8> {
    lowest_pressed_from(mask, 0)
}

/// The sixteen keys, as a snapshot that the host refreshes each cycle:
/// bit `k` is set while key `k` is down.
pub struct Keypad {
    mask: u16,
}

impl View for Keypad {
    type V = u16;

    closed spec fn view(&self) -> u16 {
        self.mask
    }
}

impl Keypad {
    /// A keypad with no key down.
    pub fn new() -> (r: Keypad)
        ensures
            r@ == 0,
    {
        Keypad { mask: 0 }
    }

    /// The snapshot.
    pub fn mask(&self) -> (r: u16)
        ensures
            r == self@,
    {
        self.mask
    }

    /// Replaces the snapshot.
    pub fn set_keys(&mut self, mask: u16)
        ensures
            final(self)@ == mask,
    {
        self.mask = mask;
    }

    /// Whether key `key` is down; a number past the last key never is.
    pub fn is_pressed(&self, key: u8) -> (r: bool)
        ensures
            r == (key < KEY_COUNT && key_bit(self@, key)),
    {
        key < KEY_COUNT && (self.mask >> key) & 1u16 == 1u16
    }

    /// The lowest key that is down, or `None` while none is.
    pub fn wait_for_key(&self) -> (r: Option<u8>)
        ensures
            r == lowest_pressed(self@),
            r matches Some(k) ==> k < KEY_COUNT && key_bit(self@, k),
    {
        let mut k: u8 = 0;
        while k < KEY_COUNT
            invariant
                k <= KEY_COUNT,
                lowest_pressed(self@) == lowest_pressed_from(self@, k),
            decreases KEY_COUNT - k,
        {
            if (self.mask >> k) & 1u16 == 1u16 {
                return Some(k);
            }
            k = k + 1;
        }
        None
    }
}

} // verus!

//! The input device: 16 boolean key states, addressed by logical CHIP-8 key
//! (0x0..=0xF), together with the fixed physical-code-to-logical-key mapping.

use vstd::pervasive::VecAdditionalExecFns;
use vstd::prelude::*;

verus! {

/// The physical-key-code to logical-key table. One physical code maps to at
/// most one logical key; code 118 maps to 0xF, so no physical code reaches
/// logical key 0xB on this layout.
pub open spec fn spec_logical_key(code: u16) -> Option<u8> {
    match code {
        49u16 => Some(0x1u8),
        50u16 => Some(0x2u8),
        51u16 => Some(0x3u8),
        52u16 => Some(0xCu8),
        113u16 => Some(0x4u8),
        119u16 => Some(0x5u8),
        101u16 => Some(0x6u8),
        114u16 => Some(0xDu8),
        97u16 => Some(0x7u8),
        115u16 => Some(0x8u8),
        100u16 => Some(0x9u8),
        102u16 => Some(0xEu8),
        422u16 => Some(0xAu8),
        99u16 => Some(0x0u8),
        118u16 => Some(0xFu8),
        _ => None,
    }
}

/// Every logical key the table yields is a 4-bit value.
pub proof fn lemma_logical_key_bound(code: u16)
    ensures
        spec_logical_key(code) matches Some(k) ==> k < 16,
{
}

/// Translate a physical key code to its logical CHIP-8 key, if the code is
/// in the table.
pub fn logical_key_of(code: u16) -> (r: Option<u8>)
    ensures
        r == spec_logical_key(code),
{
    match code {
        49u16 => Some(0x1u8),
        50u16 => Some(0x2u8),
        51u16 => Some(0x3u8),
        52u16 => Some(0xCu8),
        113u16 => Some(0x4u8),
        119u16 => Some(0x5u8),
        101u16 => Some(0x6u8),
        114u16 => Some(0xDu8),
        97u16 => Some(0x7u8),
        115u16 => Some(0x8u8),
        100u16 => Some(0x9u8),
        102u16 => Some(0xEu8),
        422u16 => Some(0xAu8),
        99u16 => Some(0x0u8),
        118u16 => Some(0xFu8),
        _ => None,
    }
}

/// Sixteen key states, one per logical key; the view is the sequence of the
/// sixteen booleans.
pub struct Keyboard {
    keys_pressed: Vec<bool>,
}

impl View for Keyboard {
    type V = Seq<bool>;

    closed spec fn view(&self) -> Seq<bool> {
        self.keys_pressed@
    }
}

impl Keyboard {
    pub open spec fn wf(&self) -> bool {
        self@.len() == 16
    }

    /// A keyboard with every key up.
    pub fn new() -> (kb: Keyboard)
        ensures
            kb.wf(),
            forall|i: int| 0 <= i < 16 ==> !kb@[i],
    {
        let mut keys: Vec<bool> = Vec::new();
        while keys.len() < 16
            invariant
                keys@.len() <= 16,
                forall|i: int| 0 <= i < keys@.len() ==> !keys@[i],
            decreases 16 - keys@.len(),
        {
            keys.push(false);
        }
        Keyboard { keys_pressed: keys }
    }

    pub fn is_key_pressed(&self, key_code: u8) -> (r: bool)
        requires
            self.wf(),
            key_code < 16,
        ensures
            r == self@[key_code as int],
    {
        self.keys_pressed[key_code as usize]
    }

    /// Mark a logical key as held down.
    pub fn press(&mut self, key: u8)
        requires
            old(self).wf(),
            key < 16,
        ensures
            final(self).wf(),
            final(self)@ == old(self)@.update(key as int, true),
    {
        self.keys_pressed.set(key as usize, true);
    }

    /// Mark a logical key as released.
    pub fn release(&mut self, key: u8)
        requires
            old(self).wf(),
            key < 16,
        ensures
            final(self).wf(),
            final(self)@ == old(self)@.update(key as int, false),
    {
        self.keys_pressed.set(key as usize, false);
    }

    /// A physical key went down: press its logical key, if the code is mapped.
    pub fn on_key_down(&mut self, which: u16)
        requires
            old(self).wf(),
        ensures
            final(self).wf(),
            (match spec_logical_key(which) {
                Some(k) => final(self)@ == old(self)@.update(k as int, true),
                None => final(self)@ == old(self)@,
            }),
    {
        match logical_key_of(which) {
            Some(k) => {
                proof {
                    lemma_logical_key_bound(which);
                }
                self.press(k);
            },
            None => {},
        }
    }

    /// A physical key went up: release its logical key, if the code is mapped.
    pub fn on_key_up(&mut self, which: u16)
        requires
            old(self).wf(),
        ensures
            final(self).wf(),
            (match spec_logical_key(which) {
                Some(k) => final(self)@ == old(self)@.update(k as int, false),
                None => final(self)@ == old(self)@,
            }),
    {
        match logical_key_of(which) {
            Some(k) => {
                proof {
                    lemma_logical_key_bound(which);
                }
                self.release(k);
            },
            None => {},
        }
    }
}

} // verus!

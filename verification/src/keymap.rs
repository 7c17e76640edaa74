//! Mapping host keyboard keys onto the 16-slot keypad.
//!
//! The engine only ever sees the 16 boolean keypad slots; which physical
//! key feeds which slot is the host's business. This is the default
//! layout: a WASD cluster and an IJKL cluster for two players, plus a
//! scattering of keys that cover the remaining keypad slots.

use vstd::prelude::*;

use crate::cpu::NUM_KEYS;

verus! {

/// A physical host key that may feed a keypad slot. `Other` stands for
/// every key without a mapping.
#[derive(Clone, Copy, PartialEq, Eq, Structural, Debug)]
pub enum HostKey {
    W,
    A,
    S,
    D,
    I,
    J,
    K,
    L,
    Key1,
    Key2,
    Key3,
    Key4,
    Q,
    E,
    R,
    Z,
    X,
    C,
    V,
    Other,
}

/// The keypad slot a host key feeds, if any.
pub open spec fn spec_map_key(key: HostKey) -> Option<usize> {
    match key {
        HostKey::W => Some(0x5),
        HostKey::A => Some(0x4),
        HostKey::S => Some(0x6),
        HostKey::D => Some(0xD),
        HostKey::I => Some(0x8),
        HostKey::J => Some(0x7),
        HostKey::K => Some(0x9),
        HostKey::L => Some(0xE),
        HostKey::Key1 => Some(0x1),
        HostKey::Key2 => Some(0x2),
        HostKey::Key3 => Some(0x3),
        HostKey::Key4 => Some(0xC),
        HostKey::Q => Some(0x4),
        HostKey::E => Some(0x6),
        HostKey::R => Some(0xD),
        HostKey::Z => Some(0xA),
        HostKey::X => Some(0x0),
        HostKey::C => Some(0xB),
        HostKey::V => Some(0xF),
        HostKey::Other => None,
    }
}

/// Map a host key to its keypad slot; any mapped slot is below 16.
pub fn map_key(key: HostKey) -> (r: Option<usize>)
    ensures
        r == spec_map_key(key),
        (match r {
            Some(k) => k < NUM_KEYS,
            None => true,
        }),
{
    match key {
        HostKey::W => Some(0x5),
        HostKey::A => Some(0x4),
        HostKey::S => Some(0x6),
        HostKey::D => Some(0xD),
        HostKey::I => Some(0x8),
        HostKey::J => Some(0x7),
        HostKey::K => Some(0x9),
        HostKey::L => Some(0xE),
        HostKey::Key1 => Some(0x1),
        HostKey::Key2 => Some(0x2),
        HostKey::Key3 => Some(0x3),
        HostKey::Key4 => Some(0xC),
        HostKey::Q => Some(0x4),
        HostKey::E => Some(0x6),
        HostKey::R => Some(0xD),
        HostKey::Z => Some(0xA),
        HostKey::X => Some(0x0),
        HostKey::C => Some(0xB),
        HostKey::V => Some(0xF),
        HostKey::Other => None,
    }
}

} // verus!

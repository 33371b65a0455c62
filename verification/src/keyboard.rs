//! The sixteen-key hexadecimal keypad.

use std::collections::HashSet;
use vstd::prelude::*;

verus! {

/// One key of the hexadecimal keypad.
#[derive(Debug, PartialEq, Eq, Structural, Hash, Clone)]
pub enum ACKey {
    K0,
    K1,
    K2,
    K3,
    K4,
    K5,
    K6,
    K7,
    K8,
    K9,
    KA,
    KB,
    KC,
    KD,
    KE,
    KF,
}

/// The hexadecimal value written on a key.
pub open spec fn hex_of(k: ACKey) -> u8 {
    match k {
        ACKey::K0 => 0x0,
        ACKey::K1 => 0x1,
        ACKey::K2 => 0x2,
        ACKey::K3 => 0x3,
        ACKey::K4 => 0x4,
        ACKey::K5 => 0x5,
        ACKey::K6 => 0x6,
        ACKey::K7 => 0x7,
        ACKey::K8 => 0x8,
        ACKey::K9 => 0x9,
        ACKey::KA => 0xA,
        ACKey::KB => 0xB,
        ACKey::KC => 0xC,
        ACKey::KD => 0xD,
        ACKey::KE => 0xE,
        ACKey::KF => 0xF,
    }
}

/// The key carrying the hexadecimal value `v`, if `v` is a single hex digit.
pub open spec fn key_of_hex(v: u8) -> Option<ACKey> {
    if v == 0x0 {
        Some(ACKey::K0)
    } else if v == 0x1 {
        Some(ACKey::K1)
    } else if v == 0x2 {
        Some(ACKey::K2)
    } else if v == 0x3 {
        Some(ACKey::K3)
    } else if v == 0x4 {
        Some(ACKey::K4)
    } else if v == 0x5 {
        Some(ACKey::K5)
    } else if v == 0x6 {
        Some(ACKey::K6)
    } else if v == 0x7 {
        Some(ACKey::K7)
    } else if v == 0x8 {
        Some(ACKey::K8)
    } else if v == 0x9 {
        Some(ACKey::K9)
    } else if v == 0xA {
        Some(ACKey::KA)
    } else if v == 0xB {
        Some(ACKey::KB)
    } else if v == 0xC {
        Some(ACKey::KC)
    } else if v == 0xD {
        Some(ACKey::KD)
    } else if v == 0xE {
        Some(ACKey::KE)
    } else if v == 0xF {
        Some(ACKey::KF)
    } else {
        None
    }
}

impl ACKey {
    /// The key with hexadecimal value `v`; `None` when `v` is above 0xF.
    pub fn from_hex(v: u8) -> (k: Option<Self>)
        ensures
            k == key_of_hex(v),
            k is Some <==> v < 16,
    {
        Some(
            match v {
                0x0 => Self::K0,
                0x1 => Self::K1,
                0x2 => Self::K2,
                0x3 => Self::K3,
                0x4 => Self::K4,
                0x5 => Self::K5,
                0x6 => Self::K6,
                0x7 => Self::K7,
                0x8 => Self::K8,
                0x9 => Self::K9,
                0xA => Self::KA,
                0xB => Self::KB,
                0xC => Self::KC,
                0xD => Self::KD,
                0xE => Self::KE,
                0xF => Self::KF,
                _ => return None,
            },
        )
    }

    /// The hexadecimal value of the key.
    pub fn to_hex(self) -> (v: u8)
        ensures
            v == hex_of(self),
            v < 16,
    {
        match self {
            Self::K0 => 0x0,
            Self::K1 => 0x1,
            Self::K2 => 0x2,
            Self::K3 => 0x3,
            Self::K4 => 0x4,
            Self::K5 => 0x5,
            Self::K6 => 0x6,
            Self::K7 => 0x7,
            Self::K8 => 0x8,
            Self::K9 => 0x9,
            Self::KA => 0xA,
            Self::KB => 0xB,
            Self::KC => 0xC,
            Self::KD => 0xD,
            Self::KE => 0xE,
            Self::KF => 0xF,
        }
    }
}

/// The hexadecimal value of a borrowed key.
fn hex_value(key: &ACKey) -> (v: u8)
    ensures
        v == hex_of(*key),
{
    match key {
        ACKey::K0 => 0x0,
        ACKey::K1 => 0x1,
        ACKey::K2 => 0x2,
        ACKey::K3 => 0x3,
        ACKey::K4 => 0x4,
        ACKey::K5 => 0x5,
        ACKey::K6 => 0x6,
        ACKey::K7 => 0x7,
        ACKey::K8 => 0x8,
        ACKey::K9 => 0x9,
        ACKey::KA => 0xA,
        ACKey::KB => 0xB,
        ACKey::KC => 0xC,
        ACKey::KD => 0xD,
        ACKey::KE => 0xE,
        ACKey::KF => 0xF,
    }
}

/// Reading a key's value back through `from_hex` gives the key again.
pub proof fn lemma_hex_round_trip(k: ACKey)
    ensures
        key_of_hex(hex_of(k)) == Some(k),
{
}

/// Every hex digit names a key, and that key carries the digit.
pub proof fn lemma_key_round_trip(v: u8)
    requires
        v < 16,
    ensures
        key_of_hex(v) matches Some(k) && hex_of(k) == v,
{
}

/// Two keys with the same value are the same key.
pub proof fn lemma_hex_injective(a: ACKey, b: ACKey)
    ensures
        hex_of(a) == hex_of(b) <==> a == b,
{
}

/// A press or release of a keypad key.
pub enum KeyEvent {
    Press(ACKey),
    Release(ACKey),
}

/// The held keys, by value, after one event.
pub open spec fn apply_key_event(held: Set<u8>, e: KeyEvent) -> Set<u8> {
    match e {
        KeyEvent::Press(k) => held.insert(hex_of(k)),
        KeyEvent::Release(k) => held.remove(hex_of(k)),
    }
}

/// The keys of the keypad that are held down, each kept by its hexadecimal value.
#[derive(Debug)]
pub struct ACKeyboard {
    keys_pressed: HashSet<u8>,
}

impl View for ACKeyboard {
    type V = Set<u8>;

    /// The values of the keys held down.
    closed spec fn view(&self) -> Set<u8> {
        self.keys_pressed@
    }
}

impl ACKeyboard {
    /// A keypad with no key held down.
    pub fn new() -> (kb: Self)
        ensures
            kb@ == Set::<u8>::empty(),
    {
        Self { keys_pressed: HashSet::new() }
    }

    /// Whether `key` is held down.
    pub fn is_pressed(&self, key: &ACKey) -> (b: bool)
        ensures
            b == self@.contains(hex_of(*key)),
    {
        broadcast use vstd::std_specs::hash::group_hash_axioms;

        let v = hex_value(key);
        self.keys_pressed.contains(&v)
    }

    /// Marks `key` as held down.
    pub fn press(&mut self, key: ACKey)
        ensures
            final(self)@ == old(self)@.insert(hex_of(key)),
            final(self)@ == apply_key_event(old(self)@, KeyEvent::Press(key)),
    {
        broadcast use vstd::std_specs::hash::group_hash_axioms;

        self.keys_pressed.insert(key.to_hex());
    }

    /// Marks `key` as released.
    pub fn release(&mut self, key: ACKey)
        ensures
            final(self)@ == old(self)@.remove(hex_of(key)),
            final(self)@ == apply_key_event(old(self)@, KeyEvent::Release(key)),
    {
        broadcast use vstd::std_specs::hash::group_hash_axioms;

        let v = key.to_hex();
        self.keys_pressed.remove(&v);
    }
}

/// The keypad key a keyboard key stands for, the keyboard key given by its
/// SDL key code (for these keys, the ASCII code of the character on it). The
/// left-hand block `1234 / QWER / ASDF / ZXCV` maps onto the keypad
/// `123C / 456D / 789E / A0BF`.
pub open spec fn keypad_key_for(code: i32) -> Option<ACKey> {
    if code == '1' as i32 {
        Some(ACKey::K1)
    } else if code == '2' as i32 {
        Some(ACKey::K2)
    } else if code == '3' as i32 {
        Some(ACKey::K3)
    } else if code == '4' as i32 {
        Some(ACKey::KC)
    } else if code == 'q' as i32 {
        Some(ACKey::K4)
    } else if code == 'w' as i32 {
        Some(ACKey::K5)
    } else if code == 'e' as i32 {
        Some(ACKey::K6)
    } else if code == 'r' as i32 {
        Some(ACKey::KD)
    } else if code == 'a' as i32 {
        Some(ACKey::K7)
    } else if code == 's' as i32 {
        Some(ACKey::K8)
    } else if code == 'd' as i32 {
        Some(ACKey::K9)
    } else if code == 'f' as i32 {
        Some(ACKey::KE)
    } else if code == 'z' as i32 {
        Some(ACKey::KA)
    } else if code == 'x' as i32 {
        Some(ACKey::K0)
    } else if code == 'c' as i32 {
        Some(ACKey::KB)
    } else if code == 'v' as i32 {
        Some(ACKey::KF)
    } else {
        None
    }
}

/// The keyboard key, by its code, that stands for keypad key `k`.
pub open spec fn code_for_key(k: ACKey) -> i32 {
    match k {
        ACKey::K1 => '1' as i32,
        ACKey::K2 => '2' as i32,
        ACKey::K3 => '3' as i32,
        ACKey::KC => '4' as i32,
        ACKey::K4 => 'q' as i32,
        ACKey::K5 => 'w' as i32,
        ACKey::K6 => 'e' as i32,
        ACKey::KD => 'r' as i32,
        ACKey::K7 => 'a' as i32,
        ACKey::K8 => 's' as i32,
        ACKey::K9 => 'd' as i32,
        ACKey::KE => 'f' as i32,
        ACKey::KA => 'z' as i32,
        ACKey::K0 => 'x' as i32,
        ACKey::KB => 'c' as i32,
        ACKey::KF => 'v' as i32,
    }
}

/// The keypad key for the keyboard key with code `code`, if it is one of the sixteen mapped keys.
pub fn key_for_keycode(code: i32) -> (k: Option<ACKey>)
    ensures
        k == keypad_key_for(code),
{
    if code == 0x31 {
        Some(ACKey::K1)
    } else if code == 0x32 {
        Some(ACKey::K2)
    } else if code == 0x33 {
        Some(ACKey::K3)
    } else if code == 0x34 {
        Some(ACKey::KC)
    } else if code == 0x71 {
        Some(ACKey::K4)
    } else if code == 0x77 {
        Some(ACKey::K5)
    } else if code == 0x65 {
        Some(ACKey::K6)
    } else if code == 0x72 {
        Some(ACKey::KD)
    } else if code == 0x61 {
        Some(ACKey::K7)
    } else if code == 0x73 {
        Some(ACKey::K8)
    } else if code == 0x64 {
        Some(ACKey::K9)
    } else if code == 0x66 {
        Some(ACKey::KE)
    } else if code == 0x7A {
        Some(ACKey::KA)
    } else if code == 0x78 {
        Some(ACKey::K0)
    } else if code == 0x63 {
        Some(ACKey::KB)
    } else if code == 0x76 {
        Some(ACKey::KF)
    } else {
        None
    }
}

/// Every keypad key is reached from exactly one keyboard key.
pub proof fn lemma_keymap_bijective(code: i32, k: ACKey)
    ensures
        keypad_key_for(code_for_key(k)) == Some(k),
        keypad_key_for(code) == Some(k) ==> code == code_for_key(k),
{
}

impl ACKeyboard {
    /// A keyboard key with code `code` went down: the keypad key it stands
    /// for, if any, is pressed and returned. `None` means the key is not one of
    /// the sixteen mapped keys, and nothing changes.
    pub fn key_down(&mut self, code: i32) -> (k: Option<ACKey>)
        ensures
            k == keypad_key_for(code),
            match k {
                Some(key) => final(self)@ == apply_key_event(old(self)@, KeyEvent::Press(key)),
                None => final(self)@ == old(self)@,
            },
    {
        match key_for_keycode(code) {
            Some(key) => {
                self.press(key);
                key_for_keycode(code)
            },
            None => None,
        }
    }

    /// A keyboard key with code `code` came up: the keypad key it stands for,
    /// if any, is released.
    pub fn key_up(&mut self, code: i32)
        ensures
            match keypad_key_for(code) {
                Some(key) => final(self)@ == apply_key_event(old(self)@, KeyEvent::Release(key)),
                None => final(self)@ == old(self)@,
            },
    {
        if let Some(key) = key_for_keycode(code) {
            self.release(key);
        }
    }
}

} // verus!

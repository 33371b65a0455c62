use ate_chip::keyboard::{key_for_keycode, ACKey, ACKeyboard};

const ALL_KEYS: [ACKey; 16] = [
    ACKey::K0, ACKey::K1, ACKey::K2, ACKey::K3, ACKey::K4, ACKey::K5, ACKey::K6, ACKey::K7,
    ACKey::K8, ACKey::K9, ACKey::KA, ACKey::KB, ACKey::KC, ACKey::KD, ACKey::KE, ACKey::KF,
];

#[test]
fn from_hex_gives_each_key() {
    for (v, k) in ALL_KEYS.iter().enumerate() {
        assert_eq!(ACKey::from_hex(v as u8), Some(k.clone()));
    }
}

#[test]
fn from_hex_rejects_values_above_f() {
    assert_eq!(ACKey::from_hex(0x10), None);
    assert_eq!(ACKey::from_hex(0xFF), None);
}

#[test]
fn to_hex_round_trips() {
    for k in ALL_KEYS.iter() {
        let v = k.clone().to_hex();
        assert!(v < 16);
        assert_eq!(ACKey::from_hex(v), Some(k.clone()));
    }
    assert_eq!(ACKey::KA.to_hex(), 0xA);
}

#[test]
fn press_and_release_track_keys() {
    let mut kb = ACKeyboard::new();
    assert!(!kb.is_pressed(&ACKey::K5));
    kb.press(ACKey::K5);
    assert!(kb.is_pressed(&ACKey::K5));
    assert!(!kb.is_pressed(&ACKey::K6));
    kb.press(ACKey::K6);
    kb.release(ACKey::K5);
    assert!(!kb.is_pressed(&ACKey::K5));
    assert!(kb.is_pressed(&ACKey::K6));
    kb.release(ACKey::K5);
    assert!(!kb.is_pressed(&ACKey::K5));
}

#[test]
fn keyboard_layout_maps_the_left_hand_block() {
    let layout = [
        ('1', ACKey::K1), ('2', ACKey::K2), ('3', ACKey::K3), ('4', ACKey::KC),
        ('q', ACKey::K4), ('w', ACKey::K5), ('e', ACKey::K6), ('r', ACKey::KD),
        ('a', ACKey::K7), ('s', ACKey::K8), ('d', ACKey::K9), ('f', ACKey::KE),
        ('z', ACKey::KA), ('x', ACKey::K0), ('c', ACKey::KB), ('v', ACKey::KF),
    ];
    for (c, k) in layout.iter() {
        assert_eq!(key_for_keycode(*c as i32), Some(k.clone()));
    }
    assert_eq!(key_for_keycode('5' as i32), None);
    assert_eq!(key_for_keycode('Q' as i32), None);
    assert_eq!(key_for_keycode(0), None);
}

#[test]
fn key_down_and_up_follow_the_layout() {
    let mut kb = ACKeyboard::new();
    assert_eq!(kb.key_down('q' as i32), Some(ACKey::K4));
    assert!(kb.is_pressed(&ACKey::K4));
    assert_eq!(kb.key_down('p' as i32), None);
    kb.key_up('p' as i32);
    assert!(kb.is_pressed(&ACKey::K4));
    kb.key_up('q' as i32);
    assert!(!kb.is_pressed(&ACKey::K4));
}

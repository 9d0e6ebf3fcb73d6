use volanwm::{KeyCombo, ModKey};

#[test]
fn modifier_masks_are_the_protocol_bits() {
    assert_eq!(ModKey::Shift.mask(), 1);
    assert_eq!(ModKey::Lock.mask(), 2);
    assert_eq!(ModKey::Control.mask(), 4);
    assert_eq!(ModKey::Mod1.mask(), 8);
    assert_eq!(ModKey::Mod2.mask(), 16);
    assert_eq!(ModKey::Mod3.mask(), 32);
    assert_eq!(ModKey::Mod4.mask(), 64);
    assert_eq!(ModKey::Mod5.mask(), 128);
}

#[test]
fn modifier_words_parse_by_name() {
    assert_eq!(ModKey::from_str("Shift"), Ok(ModKey::Shift));
    assert_eq!(ModKey::from_str("Mod4"), Ok(ModKey::Mod4));
    assert_eq!(ModKey::from_str("shift"), Err(()));
    assert_eq!(ModKey::from_str(""), Err(()));
}

#[test]
fn key_combos_take_the_union_of_the_masks() {
    let combo = KeyCombo::new(&vec![ModKey::Mod1, ModKey::Shift], 0x61);
    assert_eq!(combo.mod_mask, 8 | 1);
    assert_eq!(combo.keysym, 0x61);
    let none = KeyCombo::new(&Vec::new(), 0x20);
    assert_eq!(none.mod_mask, 0);
}

#[test]
fn key_combos_compare_structurally() {
    let a = KeyCombo { mod_mask: 9, keysym: 0x61 };
    let b = KeyCombo::new(&vec![ModKey::Shift, ModKey::Mod1], 0x61);
    assert_eq!(a, b);
}

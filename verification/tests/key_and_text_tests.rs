use qtrs_widgets::action_keys;
use qtrs_widgets::combo_box::{match_kind, InsertPolicy, MatchFlags};
use qtrs_widgets::input_keys;
use qtrs_widgets::key_sequence::key_modifier;
use qtrs_widgets::key_sequence::qt_key;
use qtrs_widgets::key_sequence::{decode_combination, key_name, KeyCombination, KeySequence, SequenceMatch};

#[test]
fn match_flags_exact_is_case_sensitive() {
    let f = MatchFlags::exactly();
    assert!(f.matches("Apple", "Apple"));
    assert!(!f.matches("Apple", "apple"));
    assert!(MatchFlags::default().matches("Pear", "Pear"));
    assert!(!MatchFlags::default().matches("Pear", "pear"));
}

#[test]
fn match_flags_contains_and_affixes() {
    let contains = MatchFlags::containing();
    assert!(contains.matches("Pineapple", "APPLE"));
    assert!(!contains.matches("Pineapple", "grape"));
    let cs = MatchFlags::containing() | MatchFlags::case_sensitive();
    assert_eq!(cs, MatchFlags(17));
    assert!(!cs.matches("Pineapple", "APPLE"));
    assert!(cs.matches("Pineapple", "apple"));
    assert!(MatchFlags::starting_with().matches("Banana", "ban"));
    assert!(!MatchFlags::starting_with().matches("Banana", "nan"));
    assert!(MatchFlags::ending_with().matches("Banana", "NANA"));
    assert!(!MatchFlags::ending_with().matches("an", "Banana"));
    assert!(MatchFlags::fixed_string().matches("Cherry", "cherry"));
    assert!(!(MatchFlags::fixed_string() | MatchFlags::case_sensitive()).matches("Cherry", "cherry"));
}

#[test]
fn match_flags_contains_bits() {
    let f = MatchFlags(17);
    assert!(f.contains(MatchFlags::case_sensitive()));
    assert!(f.contains(MatchFlags::containing()));
    assert!(!f.contains(MatchFlags::starting_with()));
    assert!(f.contains(MatchFlags::exactly()));
}

#[test]
fn match_kind_on_empty_and_unicode() {
    assert!(match_kind(1, "abc", ""));
    assert!(match_kind(2, "", ""));
    assert!(!match_kind(3, "", "a"));
    assert!(match_kind(1, "größe", "öß"));
    assert!(MatchFlags::containing().matches("GRÜN", "grün"));
    assert!(match_kind(9, "x", "x"));
}

#[test]
fn insert_policy_default() {
    assert_eq!(InsertPolicy::default(), InsertPolicy::InsertAtBottom);
}

#[test]
fn action_key_normalization() {
    assert_eq!(action_keys::normalize_key(0x1B), action_keys::ESCAPE);
    assert_eq!(action_keys::normalize_key(0x61), 0x41);
    assert_eq!(action_keys::normalize_key(0x25), action_keys::LEFT);
    assert_eq!(action_keys::normalize_key(0x41), 0x41);
    assert_eq!(action_keys::normalize_modifiers(1 | 2), action_keys::MOD_SHIFT | action_keys::MOD_CTRL);
    assert_eq!(action_keys::normalize_modifiers(action_keys::MOD_ALT), action_keys::MOD_ALT);
    assert!(action_keys::has_ctrl(action_keys::MOD_CTRL));
    assert!(!action_keys::has_shift(action_keys::MOD_CTRL));
    assert!(action_keys::has_alt(action_keys::MOD_ALT | action_keys::MOD_SHIFT));
}

#[test]
fn action_key_chars() {
    assert_eq!(action_keys::key_char(0x41), Some('A'));
    assert_eq!(action_keys::key_char(0x35), Some('5'));
    assert_eq!(action_keys::key_char(0x61), None);
    assert_eq!(action_keys::key_char(action_keys::F1), None);
}

#[test]
fn mnemonics() {
    assert_eq!(action_keys::mnemonic("&Save"), Some('S'));
    assert_eq!(action_keys::mnemonic("Save &as"), Some('A'));
    assert_eq!(action_keys::mnemonic("Fish && Chips"), None);
    assert_eq!(action_keys::mnemonic("Trailing&"), None);
    assert_eq!(action_keys::mnemonic("&ß"), Some('S'));
    assert_eq!(action_keys::strip_mnemonic("&Save && &Quit&"), "Save & Quit");
    assert_eq!(action_keys::mnemonic_offset("&File"), Some(0));
    assert_eq!(action_keys::mnemonic_offset("A && &B"), Some(4));
    assert_eq!(action_keys::mnemonic_offset("é&x"), Some(2));
    assert_eq!(action_keys::mnemonic_offset("plain"), None);
}

#[test]
fn input_key_predicates() {
    assert!(input_keys::is_up(0x26));
    assert!(input_keys::is_up(0x0100_0013));
    assert!(!input_keys::is_up(0x28));
    assert!(input_keys::is_enter(0x0D));
    assert!(input_keys::is_escape(0x1B));
    assert_eq!(input_keys::KEY_SPACE, 0x20);
    assert_eq!(input_keys::typed_char(0x41, 0), Some('a'));
}

#[test]
fn key_combination_text() {
    let c = KeyCombination::new(0x41, key_modifier::CTRL | key_modifier::SHIFT);
    assert_eq!(c.to_portable_string(), "Ctrl+Shift+A");
    assert_eq!(KeyCombination::new(qt_key::F1 + 4, key_modifier::ALT).to_portable_string(), "Alt+F5");
    assert_eq!(KeyCombination::new(0, 0).to_portable_string(), "");
    assert_eq!(KeyCombination::from_combined(0x0400_0041).to_combined(), 0x0400_0041);
    assert_eq!(KeyCombination::from_combined(0x0400_0041), KeyCombination::new(0x41, key_modifier::CTRL));
    assert_eq!(key_name(0x61), "A");
    assert_eq!(key_name(qt_key::ESCAPE), "Esc");
}

#[test]
fn decoding_combinations() {
    assert_eq!(decode_combination("ctrl+shift+s"), KeyCombination::new(0x53, key_modifier::CTRL | key_modifier::SHIFT));
    assert_eq!(decode_combination("Ctrl++"), KeyCombination::new(0x2B, key_modifier::CTRL));
    assert_eq!(decode_combination("F12"), KeyCombination::new(qt_key::F1 + 11, 0));
    assert_eq!(decode_combination("Meta+Esc"), KeyCombination::new(qt_key::ESCAPE, key_modifier::META));
    assert_eq!(decode_combination("bogus+x").key, qt_key::UNKNOWN);
    assert_eq!(decode_combination("").key, qt_key::UNKNOWN);
}

#[test]
fn key_sequences() {
    let s = KeySequence::from_portable_string("Ctrl+X, Ctrl+C");
    assert_eq!(s.count(), 2);
    assert_eq!(s.get(1), Some(KeyCombination::new(0x43, key_modifier::CTRL)));
    assert_eq!(s.get(2), None);
    assert_eq!(s.to_portable_string(), "Ctrl+X, Ctrl+C");
    let prefix = KeySequence::from_portable_string("Ctrl+X");
    assert_eq!(prefix.matches(&s), SequenceMatch::PartialMatch);
    assert_eq!(s.matches(&s), SequenceMatch::ExactMatch);
    assert_eq!(s.matches(&prefix), SequenceMatch::NoMatch);
    assert!(KeySequence::new().is_empty());
    let k = KeyCombination::new(0x41, 0);
    let e = KeyCombination::new(0, 0);
    let many = KeySequence::from_keys(&[k, e, k, k, k, k]);
    assert_eq!(many.count(), 4);
    assert_eq!(many.keys().len(), 4);
    assert_eq!(many.clone().to_portable_string(), "A, A, A, A");
}

#[test]
fn mnemonic_offset_points_at_mnemonic_in_stripped_text() {
    for text in ["Fish && &Chips", "&File", "é&x", "a&&&&b", "plain", "end&"] {
        let stripped = action_keys::strip_mnemonic(text);
        match action_keys::mnemonic_offset(text) {
            Some(k) => {
                assert!(stripped.is_char_boundary(k));
                let c = stripped[k..].chars().next().unwrap();
                assert_eq!(c.to_uppercase().next(), action_keys::mnemonic(text));
            }
            None => assert_eq!(action_keys::mnemonic(text), None),
        }
    }
    assert_eq!(action_keys::mnemonic_offset("Fish && &Chips"), Some(7));
}

#[test]
fn portable_text_decodes_back() {
    let mods = [
        0,
        key_modifier::SHIFT,
        key_modifier::CTRL | key_modifier::SHIFT,
        key_modifier::META | key_modifier::ALT | key_modifier::KEYPAD,
        key_modifier::SHIFT | key_modifier::CTRL | key_modifier::ALT | key_modifier::META | key_modifier::KEYPAD,
    ];
    let keys = [0x30u32, 0x39, 0x41, 0x5A, qt_key::F1, qt_key::F1 + 9, qt_key::F35];
    for &k in &keys {
        for &m in &mods {
            let kc = KeyCombination::new(k, m);
            let text = kc.to_portable_string();
            assert_eq!(decode_combination(&text), kc, "{}", text);
        }
    }
    assert_eq!(KeyCombination::new(qt_key::F1 + 11, key_modifier::CTRL).to_portable_string(), "Ctrl+F12");
}

#[test]
fn portable_sequence_decodes_back() {
    let ks = [
        KeyCombination::new(0x4B, key_modifier::CTRL),
        KeyCombination::new(0x43, key_modifier::CTRL | key_modifier::SHIFT),
        KeyCombination::new(qt_key::F1 + 4, 0),
        KeyCombination::new(0x31, key_modifier::ALT),
    ];
    let s = KeySequence::from_keys(&ks);
    let text = s.to_portable_string();
    assert_eq!(text, "Ctrl+K, Ctrl+Shift+C, F5, Alt+1");
    assert_eq!(KeySequence::from_portable_string(&text), s);
    assert_eq!(s.keys(), &ks);
}

#[test]
fn named_keys_portable_text_decodes_back() {
    let keys = [
        qt_key::SPACE,
        qt_key::ESCAPE,
        qt_key::TAB,
        qt_key::BACKSPACE,
        qt_key::RETURN,
        qt_key::DELETE,
        qt_key::HOME,
        qt_key::PAGE_UP,
        qt_key::PAGE_DOWN,
        qt_key::SHIFT,
        qt_key::CONTROL,
    ];
    for &k in &keys {
        for &m in &[0, key_modifier::CTRL, key_modifier::ALT | key_modifier::SHIFT] {
            let kc = KeyCombination::new(k, m);
            let text = kc.to_portable_string();
            assert_eq!(decode_combination(&text), kc, "{}", text);
        }
    }
    let ks = [
        KeyCombination::new(qt_key::ESCAPE, 0),
        KeyCombination::new(qt_key::PAGE_UP, key_modifier::CTRL),
        KeyCombination::new(qt_key::SPACE, key_modifier::SHIFT),
    ];
    let s = KeySequence::from_keys(&ks);
    let text = s.to_portable_string();
    assert_eq!(text, "Esc, Ctrl+PgUp, Shift+Space");
    assert_eq!(KeySequence::from_portable_string(&text), s);
}

use vnkey::keyboard::{is_toggle_hotkey, is_word_char, AppState, KeyAction, KeyEvent, TOGGLE_VK};
use vnkey::InputMethod;

fn type_keys(state: &mut AppState, keys: &str) -> Vec<KeyAction> {
    keys.chars().map(|ch| state.handle_key(KeyEvent::Char(ch))).collect()
}

#[test]
fn typing_a_word_replaces_only_when_the_word_changes() {
    let mut state = AppState::default();
    let actions = type_keys(&mut state, "viee");
    assert_eq!(actions[0], KeyAction::Pass);
    assert_eq!(actions[1], KeyAction::Pass);
    assert_eq!(actions[2], KeyAction::Pass);
    assert_eq!(actions[3], KeyAction::Replace { erase: 3, text: "viê".to_string() });
    assert_eq!(state.handle_key(KeyEvent::Char('t')), KeyAction::Pass);
    assert_eq!(
        state.handle_key(KeyEvent::Char('j')),
        KeyAction::Replace { erase: 4, text: "việt".to_string() }
    );
    assert_eq!(state.raw_word, "vieetj");
    assert_eq!(state.rendered_word, "việt");
}

#[test]
fn backspace_drops_keys_until_the_word_is_shorter() {
    let mut state = AppState::default();
    type_keys(&mut state, "vieetj");
    assert_eq!(
        state.handle_key(KeyEvent::Backspace),
        KeyAction::Replace { erase: 4, text: "viê".to_string() }
    );
    assert_eq!(state.raw_word, "viee");
    assert_eq!(state.rendered_word, "viê");
}

#[test]
fn backspace_with_nothing_shown_passes() {
    let mut state = AppState::default();
    assert_eq!(state.handle_key(KeyEvent::Backspace), KeyAction::Pass);
    assert_eq!(state.raw_word, "");
}

#[test]
fn backspace_to_an_empty_word() {
    let mut state = AppState::default();
    type_keys(&mut state, "a");
    assert_eq!(
        state.handle_key(KeyEvent::Backspace),
        KeyAction::Replace { erase: 1, text: String::new() }
    );
    assert_eq!(state.raw_word, "");
    assert_eq!(state.rendered_word, "");
}

#[test]
fn a_key_that_changes_nothing_shown_is_swallowed() {
    let mut state = AppState::default();
    state.handle_key(KeyEvent::Toggle);
    assert_eq!(state.active_method, InputMethod::Vni);
    type_keys(&mut state, "a");
    assert_eq!(state.handle_key(KeyEvent::Char('0')), KeyAction::Block);
    assert_eq!(state.raw_word, "a0");
    assert_eq!(state.rendered_word, "a");
}

#[test]
fn other_keys_and_separators_end_the_word() {
    let mut state = AppState::default();
    type_keys(&mut state, "as");
    assert_eq!(state.rendered_word, "á");
    assert_eq!(state.handle_key(KeyEvent::Char(' ')), KeyAction::Pass);
    assert_eq!(state.raw_word, "");
    assert_eq!(state.rendered_word, "");
    type_keys(&mut state, "b");
    assert_eq!(state.handle_key(KeyEvent::Other), KeyAction::Pass);
    assert_eq!(state.rendered_word, "");
}

#[test]
fn toggle_switches_method_and_keeps_the_word() {
    let mut state = AppState::default();
    type_keys(&mut state, "ho");
    assert_eq!(state.handle_key(KeyEvent::Toggle), KeyAction::Block);
    assert_eq!(state.active_method, InputMethod::Vni);
    assert_eq!(state.raw_word, "ho");
    assert_eq!(state.toggle_method(), InputMethod::Telex);
}

#[test]
fn toggle_hotkey_needs_ctrl_and_shift_without_alt() {
    let mut keys = [0u8; 256];
    keys[0x11] = 0x80;
    keys[0x10] = 0x81;
    assert!(is_toggle_hotkey(TOGGLE_VK, &keys));
    assert!(!is_toggle_hotkey(TOGGLE_VK + 1, &keys));
    keys[0x12] = 0x80;
    assert!(!is_toggle_hotkey(TOGGLE_VK, &keys));
    keys[0x12] = 0x7f;
    assert!(is_toggle_hotkey(TOGGLE_VK, &keys));
    keys[0x10] = 0x01;
    assert!(!is_toggle_hotkey(TOGGLE_VK, &keys));
}

#[test]
fn word_characters_are_ascii_letters_and_digits() {
    assert!(is_word_char('a') && is_word_char('Z') && is_word_char('7'));
    assert!(!is_word_char(' ') && !is_word_char('á') && !is_word_char('-'));
}

#[test]
fn toggling_twice_restores_the_method() {
    let mut state = AppState::default();
    assert_eq!(state.toggle_method(), InputMethod::Vni);
    assert_eq!(state.toggle_method(), InputMethod::Telex);
}

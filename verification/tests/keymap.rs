use ytm::app::Focus;
use ytm::event::InputAction;
use ytm::keymap::{action_from_name, KeyCode, KeyEvent, KeyMap};

fn key(c: char) -> KeyEvent {
    KeyEvent::plain(KeyCode::Char(c))
}

#[test]
fn vim_keys_off_unbinds_hjkl_but_leaves_the_arrows() {
    let m = KeyMap::new(false);
    for ch in ['h', 'j', 'k', 'l'] {
        assert_eq!(
            m.resolve(key(ch), Focus::Main),
            None,
            "{ch} must be unbound when ui.vim_keys = false"
        );
    }
    assert_eq!(
        m.resolve(
            KeyEvent::plain(KeyCode::Down),
            Focus::Main
        ),
        Some(InputAction::Down),
        "the arrow keys are how you navigate without vim keys"
    );
    assert_eq!(
        m.resolve(KeyEvent::plain(KeyCode::Up), Focus::Main),
        Some(InputAction::Up)
    );
}

#[test]
fn vim_keys_off_leaves_g_and_the_other_letters_alone() {
    let m = KeyMap::new(false);
    assert_eq!(m.resolve(key('g'), Focus::Main), Some(InputAction::Home));
    assert_eq!(m.resolve(key('G'), Focus::Main), Some(InputAction::End));
    assert_eq!(m.resolve(key('q'), Focus::Main), Some(InputAction::Quit));
    assert_eq!(
        m.resolve(key('s'), Focus::Main),
        Some(InputAction::ToggleShuffle)
    );
    assert_eq!(
        m.resolve(key('J'), Focus::Main),
        Some(InputAction::MoveEntryDown)
    );
    assert_eq!(
        m.resolve(key('K'), Focus::Main),
        Some(InputAction::MoveEntryUp)
    );
}

#[test]
fn default_still_means_vim_keys_on() {
    let m = KeyMap::new(true);
    assert_eq!(
        m.resolve(key('j'), Focus::Main),
        Some(InputAction::Down),
        "vim_keys defaults to true; default() must not change meaning"
    );
}

#[test]
fn an_explicit_rebind_wins_over_vim_keys_off() {
    let m = KeyMap::from_toml_str_with(r#"down = "j""#, false).unwrap();
    assert_eq!(m.resolve(key('j'), Focus::Main), Some(InputAction::Down));
    assert_eq!(
        m.resolve(key('k'), Focus::Main),
        None,
        "k was not rebound, so it stays unbound"
    );
}

#[test]
fn vim_navigation_keys_map_to_movement() {
    let m = KeyMap::new(true);
    assert_eq!(m.resolve(key('j'), Focus::Main), Some(InputAction::Down));
    assert_eq!(m.resolve(key('k'), Focus::Main), Some(InputAction::Up));
    assert_eq!(m.resolve(key('h'), Focus::Main), Some(InputAction::Left));
    assert_eq!(m.resolve(key('l'), Focus::Main), Some(InputAction::Right));
}

#[test]
fn arrow_keys_work_alongside_vim_keys() {
    let m = KeyMap::new(true);
    let down = KeyEvent::plain(KeyCode::Down);
    assert_eq!(m.resolve(down, Focus::Main), Some(InputAction::Down));
}

#[test]
fn transport_keys_are_bound() {
    let m = KeyMap::new(true);
    assert_eq!(
        m.resolve(key(' '), Focus::Main),
        Some(InputAction::TogglePause)
    );
    assert_eq!(
        m.resolve(key('n'), Focus::Main),
        Some(InputAction::NextTrack)
    );
    assert_eq!(
        m.resolve(key('p'), Focus::Main),
        Some(InputAction::PrevTrack)
    );
    assert_eq!(
        m.resolve(key('s'), Focus::Main),
        Some(InputAction::ToggleShuffle)
    );
    assert_eq!(
        m.resolve(key('r'), Focus::Main),
        Some(InputAction::CycleRepeat)
    );
}

#[test]
fn c_focuses_the_current_song() {
    let m = KeyMap::new(true);
    assert_eq!(
        m.resolve(key('c'), Focus::Main),
        Some(InputAction::FocusCurrent)
    );
}

#[test]
fn typing_in_the_search_field_produces_characters_not_commands() {
    let m = KeyMap::new(true);
    assert_eq!(
        m.resolve(key('j'), Focus::SearchInput),
        Some(InputAction::Char('j'))
    );
    assert_eq!(
        m.resolve(key(' '), Focus::SearchInput),
        Some(InputAction::Char(' '))
    );
}

#[test]
fn every_letter_is_text_while_a_prompt_is_open() {
    let m = KeyMap::new(true);
    for c in "quit and next".chars() {
        assert_eq!(
            m.resolve(key(c), Focus::SearchInput),
            Some(InputAction::Char(c)),
            "{c:?} must be text"
        );
    }
}

#[test]
fn escape_cancels_from_the_search_field() {
    let m = KeyMap::new(true);
    let esc = KeyEvent::plain(KeyCode::Esc);
    assert_eq!(
        m.resolve(esc, Focus::SearchInput),
        Some(InputAction::Cancel)
    );
}

#[test]
fn ctrl_c_always_quits_even_while_typing() {
    let m = KeyMap::new(true);
    let c = KeyEvent::ctrl(KeyCode::Char('c'));
    assert_eq!(
        m.resolve(c, Focus::SearchInput),
        Some(InputAction::ForceQuit)
    );
    assert_eq!(m.resolve(c, Focus::Main), Some(InputAction::ForceQuit));
}

#[test]
fn the_queue_editing_keys_are_reachable() {
    let m = KeyMap::new(true);
    assert_eq!(
        m.resolve(key('J'), Focus::Main),
        Some(InputAction::MoveEntryDown)
    );
    assert_eq!(
        m.resolve(key('K'), Focus::Main),
        Some(InputAction::MoveEntryUp)
    );
    assert_eq!(
        m.resolve(key('C'), Focus::Main),
        Some(InputAction::ClearQueue)
    );
    assert_eq!(m.resolve(key('j'), Focus::Main), Some(InputAction::Down));
    assert_eq!(m.resolve(key('k'), Focus::Main), Some(InputAction::Up));
}

#[test]
fn unbound_keys_resolve_to_nothing() {
    let m = KeyMap::new(true);
    assert_eq!(m.resolve(key('Z'), Focus::Main), None);
}

#[test]
fn a_user_override_replaces_the_default_binding() {
    let m = KeyMap::from_toml_str(r#"down = "e""#).unwrap();
    assert_eq!(m.resolve(key('e'), Focus::Main), Some(InputAction::Down));
}

#[test]
fn bindings_list_is_non_empty_for_the_help_overlay() {
    assert!(!KeyMap::new(true).bindings().is_empty());
}

#[test]
fn number_keys_jump_straight_to_a_source() {
    let m = KeyMap::new(true);
    assert_eq!(m.resolve(key('1'), Focus::Main), Some(InputAction::GoTo(1)));
    assert_eq!(m.resolve(key('8'), Focus::Main), Some(InputAction::GoTo(8)));
}

#[test]
fn digits_outside_the_source_range_are_not_bound() {
    let m = KeyMap::new(true);
    assert_eq!(m.resolve(key('9'), Focus::Main), None);
    assert_eq!(m.resolve(key('0'), Focus::Main), None);
}

#[test]
fn a_digit_typed_into_the_search_field_is_a_character_not_a_jump() {
    let m = KeyMap::new(true);
    assert_eq!(
        m.resolve(key('9'), Focus::SearchInput),
        Some(InputAction::Char('9'))
    );
    assert_eq!(
        m.resolve(key('1'), Focus::SearchInput),
        Some(InputAction::Char('1'))
    );
}

#[test]
fn shift_v_starts_a_visual_range_and_lowercase_v_still_marks_one_row() {
    let m = KeyMap::new(true);
    assert_eq!(
        m.resolve(key('V'), Focus::Main),
        Some(InputAction::ToggleVisual)
    );
    assert_eq!(
        m.resolve(key('v'), Focus::Main),
        Some(InputAction::ToggleMark)
    );
}

#[test]
fn a_capital_v_typed_into_a_prompt_is_a_letter() {
    let m = KeyMap::new(true);
    assert_eq!(
        m.resolve(key('V'), Focus::SearchInput),
        Some(InputAction::Char('V'))
    );
}

#[test]
fn the_visual_binding_can_be_remapped_from_config() {
    let m = KeyMap::from_toml_str(r#"toggle_visual = "z""#).unwrap();
    assert_eq!(
        m.resolve(key('z'), Focus::Main),
        Some(InputAction::ToggleVisual)
    );
    assert_eq!(
        m.resolve(key('V'), Focus::Main),
        None,
        "a remap is exclusive, so the default must be gone"
    );
}

fn ctrl(c: char) -> KeyEvent {
    KeyEvent::ctrl(KeyCode::Char(c))
}

fn ctrl_code(k: KeyCode) -> KeyEvent {
    KeyEvent::ctrl(k)
}

#[test]
fn ctrl_w_in_the_search_field_deletes_a_word() {
    let m = KeyMap::new(true);
    assert_eq!(
        m.resolve(ctrl('w'), Focus::SearchInput),
        Some(InputAction::DeleteWordBack)
    );
}

#[test]
fn ctrl_arrows_in_the_search_field_move_by_word() {
    let m = KeyMap::new(true);
    assert_eq!(
        m.resolve(ctrl_code(KeyCode::Left), Focus::SearchInput),
        Some(InputAction::WordLeft)
    );
    assert_eq!(
        m.resolve(ctrl_code(KeyCode::Right), Focus::SearchInput),
        Some(InputAction::WordRight)
    );
}

#[test]
fn ctrl_a_and_ctrl_e_jump_to_the_ends_of_the_search_line() {
    let m = KeyMap::new(true);
    assert_eq!(
        m.resolve(ctrl('a'), Focus::SearchInput),
        Some(InputAction::LineStart)
    );
    assert_eq!(
        m.resolve(ctrl('e'), Focus::SearchInput),
        Some(InputAction::LineEnd)
    );
}

#[test]
fn plain_arrows_in_the_search_field_move_the_caret() {
    let m = KeyMap::new(true);
    assert_eq!(
        m.resolve(
            KeyEvent::plain(KeyCode::Left),
            Focus::SearchInput
        ),
        Some(InputAction::CharLeft)
    );
    assert_eq!(
        m.resolve(
            KeyEvent::plain(KeyCode::Right),
            Focus::SearchInput
        ),
        Some(InputAction::CharRight)
    );
}

#[test]
fn ctrl_c_still_quits_from_the_search_field() {
    let m = KeyMap::new(true);
    assert_eq!(
        m.resolve(ctrl('c'), Focus::SearchInput),
        Some(InputAction::ForceQuit)
    );
    assert_eq!(
        m.resolve(ctrl('c'), Focus::Main),
        Some(InputAction::ForceQuit)
    );
}

#[test]
fn ctrl_d_and_ctrl_u_still_page_in_a_list() {
    let m = KeyMap::new(true);
    assert_eq!(
        m.resolve(ctrl('d'), Focus::Main),
        Some(InputAction::PageDown)
    );
    assert_eq!(m.resolve(ctrl('u'), Focus::Main), Some(InputAction::PageUp));
}

#[test]
fn the_editing_chords_do_nothing_outside_a_text_field() {
    let m = KeyMap::new(true);
    assert_eq!(m.resolve(ctrl('w'), Focus::Main), None);
    assert_eq!(m.resolve(ctrl('e'), Focus::Main), None);
    assert_eq!(m.resolve(ctrl_code(KeyCode::Left), Focus::Main), None);
}

#[test]
fn the_theme_and_config_keys_are_reachable_from_a_key_press() {
    let m = KeyMap::new(true);
    assert_eq!(
        m.resolve(key('t'), Focus::Main),
        Some(InputAction::CycleTheme)
    );
    assert_eq!(
        m.resolve(key(','), Focus::Main),
        Some(InputAction::EditConfig)
    );
}

#[test]
fn t_and_comma_are_text_while_typing_a_name() {
    let m = KeyMap::new(true);
    assert_eq!(
        m.resolve(key('t'), Focus::SearchInput),
        Some(InputAction::Char('t'))
    );
    assert_eq!(
        m.resolve(key(','), Focus::SearchInput),
        Some(InputAction::Char(','))
    );
}

#[test]
fn every_action_name_the_config_accepts_maps_to_a_real_action() {
    for n in KeyMap::action_names() {
        assert!(
            action_from_name(n).is_some(),
            "{n:?} is offered to users but maps to no action"
        );
    }
}

#[test]
fn d_key_resolves_to_download_action() {
    let km = KeyMap::new(true);
    assert_eq!(
        km.resolve(key('d'), Focus::Main),
        Some(InputAction::Download)
    );
}

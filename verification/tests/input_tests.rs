use npc_dialogue::bubble::{bubble_sections, SECTION_LENGTH};
use npc_dialogue::input::{get_direction, movement_allowed, InputEffect, InputState, KeyPress};

fn typing(line: &str) -> InputState {
    InputState { is_typing: true, line: line.to_string() }
}

#[test]
fn a_new_line_is_closed_and_empty() {
    let state = InputState::new();
    assert!(!state.is_typing);
    assert_eq!(state.line, "");
}

#[test]
fn space_opens_the_line_only_near_a_character() {
    let mut state = InputState::new();
    assert!(matches!(state.on_key(&KeyPress::Space, false), InputEffect::Nothing));
    assert!(!state.is_typing);
    assert!(matches!(state.on_key(&KeyPress::Space, true), InputEffect::Opened));
    assert!(state.is_typing);
    assert_eq!(state.line, "");
    assert!(matches!(state.on_key(&KeyPress::Space, true), InputEffect::Nothing));
    assert_eq!(state.line, " ");
}

#[test]
fn characters_are_written_only_while_typing() {
    let mut state = InputState::new();
    assert!(matches!(state.on_key(&KeyPress::Character("a".to_string()), true), InputEffect::Nothing));
    assert_eq!(state.line, "");
    let mut state = typing("He");
    state.on_key(&KeyPress::Character("l".to_string()), false);
    state.on_key(&KeyPress::Character("lo".to_string()), false);
    state.on_key(&KeyPress::Space, false);
    state.on_key(&KeyPress::Character("\u{00E9}".to_string()), false);
    state.on_key(&KeyPress::Other, false);
    assert_eq!(state.line, "Hello \u{00E9}");
    assert!(state.is_typing);
}

#[test]
fn backspace_takes_the_last_character() {
    let mut state = typing("a\u{1F600}");
    assert!(matches!(state.on_key(&KeyPress::Backspace, false), InputEffect::Nothing));
    assert_eq!(state.line, "a");
    state.on_key(&KeyPress::Backspace, false);
    assert_eq!(state.line, "");
    state.on_key(&KeyPress::Backspace, false);
    assert_eq!(state.line, "");
    assert!(state.is_typing);
    let mut closed = InputState { is_typing: false, line: "kept".to_string() };
    closed.on_key(&KeyPress::Backspace, true);
    assert_eq!(closed.line, "kept");
}

#[test]
fn enter_sends_a_line_that_is_not_empty() {
    let mut state = typing("Good day");
    match state.on_key(&KeyPress::Enter, false) {
        InputEffect::Submitted { message } => assert_eq!(message, "Good day"),
        other => panic!("{:?}", other),
    }
    assert!(!state.is_typing);
    assert_eq!(state.line, "");
    let mut empty = typing("");
    assert!(matches!(empty.on_key(&KeyPress::Enter, true), InputEffect::Nothing));
    assert!(empty.is_typing);
    let mut closed = InputState { is_typing: false, line: "x".to_string() };
    assert!(matches!(closed.on_key(&KeyPress::Enter, true), InputEffect::Nothing));
    assert_eq!(closed.line, "x");
}

#[test]
fn escape_gives_up_the_line() {
    let mut state = typing("half a li");
    assert!(matches!(state.on_key(&KeyPress::Escape, true), InputEffect::Cancelled));
    assert!(!state.is_typing);
    assert_eq!(state.line, "");
    assert!(matches!(state.on_key(&KeyPress::Escape, true), InputEffect::Nothing));
}

#[test]
fn the_last_toggle_decides_on_movement() {
    assert!(movement_allowed(true, &vec![]));
    assert!(!movement_allowed(false, &vec![]));
    assert!(!movement_allowed(true, &vec![true]));
    assert!(movement_allowed(false, &vec![false]));
    assert!(movement_allowed(false, &vec![true, true, false]));
    assert!(!movement_allowed(true, &vec![false, true]));
}

#[test]
fn movement_keys_add_up() {
    assert_eq!(get_direction(false, false, false, false), (0, 0));
    assert_eq!(get_direction(true, false, false, false), (-1, 0));
    assert_eq!(get_direction(false, true, false, false), (1, 0));
    assert_eq!(get_direction(false, false, true, false), (0, 1));
    assert_eq!(get_direction(false, false, false, true), (0, -1));
    assert_eq!(get_direction(true, true, true, true), (0, 0));
    assert_eq!(get_direction(true, false, false, true), (-1, -1));
}

#[test]
fn a_short_message_is_one_piece() {
    assert_eq!(SECTION_LENGTH, 200);
    assert_eq!(bubble_sections(""), vec!["".to_string()]);
    assert_eq!(bubble_sections("Hello"), vec!["Hello".to_string()]);
    let just_under = "x".repeat(399);
    assert_eq!(bubble_sections(&just_under), vec![just_under.clone()]);
}

#[test]
fn a_long_message_is_cut_into_pieces() {
    let two = format!("{}{}", "a".repeat(200), "b".repeat(201));
    assert_eq!(bubble_sections(&two), vec!["a".repeat(200), "b".repeat(201)]);
    let three = format!("{}{}{}", "a".repeat(233), "b".repeat(233), "c".repeat(234));
    assert_eq!(
        bubble_sections(&three),
        vec!["a".repeat(233), format!("{}...", "b".repeat(233)), "c".repeat(234)]
    );
    let four: String = (0..803).map(|i| char::from(b'a' + (i / 200) as u8)).collect();
    let pieces = bubble_sections(&four);
    assert_eq!(pieces.len(), 4);
    assert_eq!(pieces[0], "a".repeat(200));
    assert_eq!(pieces[1], format!("{}...", "b".repeat(200)));
    assert_eq!(pieces[2], format!("{}...", "c".repeat(200)));
    assert_eq!(pieces[3], format!("{}{}", "d".repeat(200), "e".repeat(3)));
}

#[test]
fn pieces_are_cut_between_characters() {
    let long = "\u{00E9}".repeat(450);
    let pieces = bubble_sections(&long);
    assert_eq!(pieces, vec!["\u{00E9}".repeat(225), "\u{00E9}".repeat(225)]);
}

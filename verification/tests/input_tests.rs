use shellai::input::{input_step, last_line_len, InputAction, Key, KeyPress};

fn plain(code: Key) -> KeyPress {
    KeyPress { code, ctrl: false }
}

fn ctrl(c: char) -> KeyPress {
    KeyPress { code: Key::Char(c), ctrl: true }
}

#[test]
fn typing_echoes_and_grows_the_buffer() {
    let mut buffer = String::new();
    assert_eq!(input_step(&mut buffer, plain(Key::Char('h'))), InputAction::Echoed('h'));
    assert_eq!(input_step(&mut buffer, plain(Key::Char('i'))), InputAction::Echoed('i'));
    assert_eq!(buffer, "hi");
}

#[test]
fn enter_inserts_a_literal_newline() {
    let mut buffer = "ab".to_string();
    assert_eq!(input_step(&mut buffer, plain(Key::Enter)), InputAction::BrokeLine);
    assert_eq!(buffer, "ab\n");
}

#[test]
fn backspace_erases_one_character() {
    let mut buffer = "abc".to_string();
    assert_eq!(input_step(&mut buffer, plain(Key::Backspace)), InputAction::ErasedChar);
    assert_eq!(buffer, "ab");
}

#[test]
fn backspace_on_empty_buffer_does_nothing() {
    let mut buffer = String::new();
    assert_eq!(input_step(&mut buffer, plain(Key::Backspace)), InputAction::Ignored);
    assert_eq!(buffer, "");
}

#[test]
fn backspace_across_newline_rejoins_the_previous_line() {
    // Deleting the newline must move the cursor to the end of the previous
    // visual line, not just drop a character.
    let mut buffer = "first\nsecond\n".to_string();
    let action = input_step(&mut buffer, plain(Key::Backspace));
    assert_eq!(action, InputAction::RejoinedLine(6));
    assert_eq!(buffer, "first\nsecond");
}

#[test]
fn submit_cancel_exit_and_menus() {
    let mut buffer = "draft".to_string();
    assert_eq!(input_step(&mut buffer, ctrl('s')), InputAction::Submitted);
    assert_eq!(buffer, "draft");
    assert_eq!(input_step(&mut buffer, ctrl('c')), InputAction::ExitRequested);
    assert_eq!(input_step(&mut buffer, ctrl('a')), InputAction::ModelMenuRequested);
    assert_eq!(input_step(&mut buffer, ctrl('h')), InputAction::HelpMenuRequested);
    assert_eq!(input_step(&mut buffer, plain(Key::Esc)), InputAction::Cancelled);
    assert_eq!(input_step(&mut buffer, plain(Key::Other)), InputAction::Ignored);
    assert_eq!(buffer, "draft");
}

#[test]
fn control_with_other_characters_still_types() {
    // Only s, c, a and h are control combinations; any other character is
    // appended even with control held.
    let mut buffer = String::new();
    assert_eq!(input_step(&mut buffer, ctrl('x')), InputAction::Echoed('x'));
    assert_eq!(buffer, "x");
}

#[test]
fn multiline_session_builds_the_expected_buffer() {
    let mut buffer = String::new();
    for c in "how do I".chars() {
        input_step(&mut buffer, plain(Key::Char(c)));
    }
    input_step(&mut buffer, plain(Key::Enter));
    for c in "list files?".chars() {
        input_step(&mut buffer, plain(Key::Char(c)));
    }
    assert_eq!(input_step(&mut buffer, ctrl('s')), InputAction::Submitted);
    assert_eq!(buffer, "how do I\nlist files?");
}

#[test]
fn last_line_len_counts_after_the_final_newline() {
    assert_eq!(last_line_len(""), 0);
    assert_eq!(last_line_len("abc"), 3);
    assert_eq!(last_line_len("abc\n"), 0);
    assert_eq!(last_line_len("ab\ncd"), 2);
    assert_eq!(last_line_len("ab\ncd\nefg"), 3);
}

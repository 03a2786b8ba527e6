use termirust::entities::{TerminalState, TerminalMode};
use termirust::services::TerminalService;
use termirust::use_cases::HandleInputUseCase;

fn typed(state: &TerminalState) -> String {
    state.command_buffer.clone()
}

#[test]
fn cursor_stays_in_bounds_through_edit_sequences() {
    let mut st = TerminalState::default();
    assert_eq!(st.cursor_position, 0);
    st.insert_char('a');
    st.insert_char('b');
    st.insert_char('c');
    assert!(st.cursor_position <= st.command_buffer.chars().count());
    st.delete_char();
    assert!(st.cursor_position <= st.command_buffer.chars().count());
    st.delete_char();
    st.delete_char();
    // Deleting at the start is a no-op and the cursor never goes negative.
    st.delete_char();
    assert_eq!(st.cursor_position, 0);
    assert_eq!(typed(&st), "");
}

#[test]
fn insert_at_cursor_builds_the_line() {
    let mut st = TerminalState::default();
    st.insert_char('l');
    st.insert_char('s');
    assert_eq!(typed(&st), "ls");
    assert_eq!(st.cursor_position, 2);
}

#[test]
fn insert_in_the_middle_after_moving_left() {
    let svc = TerminalService::new();
    let mut ed = HandleInputUseCase::new(svc);
    ed.handle_key_press('a');
    ed.handle_key_press('c');
    ed.handle_arrow_left();
    ed.handle_key_press('b');
    assert_eq!(ed.get_command_buffer(), "abc");
    assert_eq!(ed.get_cursor_position(), 2);
}

#[test]
fn backspace_removes_before_cursor() {
    let svc = TerminalService::new();
    let mut ed = HandleInputUseCase::new(svc);
    ed.handle_key_press('h');
    ed.handle_key_press('i');
    ed.handle_backspace();
    assert_eq!(ed.get_command_buffer(), "h");
    assert_eq!(ed.get_cursor_position(), 1);
}

#[test]
fn home_end_and_arrow_clamping() {
    let svc = TerminalService::new();
    let mut ed = HandleInputUseCase::new(svc);
    ed.handle_key_press('x');
    ed.handle_key_press('y');
    ed.handle_home();
    assert_eq!(ed.get_cursor_position(), 0);
    ed.handle_arrow_left();
    assert_eq!(ed.get_cursor_position(), 0);
    ed.handle_end();
    assert_eq!(ed.get_cursor_position(), 2);
    ed.handle_arrow_right();
    assert_eq!(ed.get_cursor_position(), 2);
}

#[test]
fn clear_buffer_resets_everything() {
    let svc = TerminalService::new();
    let mut ed = HandleInputUseCase::new(svc);
    ed.handle_key_press('q');
    ed.clear_buffer();
    assert_eq!(ed.get_command_buffer(), "");
    assert_eq!(ed.get_cursor_position(), 0);
}

#[test]
fn mode_switching() {
    let svc = TerminalService::new();
    let mut ed = HandleInputUseCase::new(svc);
    assert_eq!(ed.get_current_mode(), TerminalMode::Matrix);
    ed.switch_to_command_mode();
    assert_eq!(ed.get_current_mode(), TerminalMode::Command);
    ed.switch_to_matrix_mode();
    assert_eq!(ed.get_current_mode(), TerminalMode::Matrix);
}

#[test]
fn output_log_keeps_order_and_evicts_oldest() {
    let svc = TerminalService::new();
    let mut ed = HandleInputUseCase::new(svc);
    for i in 0..1005u32 {
        ed.add_output_line(format!("line {}", i));
    }
    let lines = ed.get_output_lines();
    assert_eq!(lines.len(), 1000);
    assert_eq!(lines[0], "line 5");
    assert_eq!(lines[999], "line 1004");
}

#[test]
fn blank_lines_are_not_recorded_in_the_ring() {
    let mut st = TerminalState::default();
    st.add_to_history("   ".to_string());
    assert_eq!(st.command_history.len(), 0);
    st.add_to_history("ls".to_string());
    assert_eq!(st.command_history.len(), 1);
    assert_eq!(st.history_index, 1);
}

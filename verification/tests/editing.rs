use hexed::buffer::{BufferError, ByteBuffer};
use hexed::cfg::{Config, Keybind, Keybinds};
use hexed::input::{Event, KeyCode, KeyEvent, MouseEvent};
use hexed::state::{InputState, State};

fn kb(key: char) -> Keybind {
    Keybind { control: false, key }
}

fn ctrl_kb(key: char) -> Keybind {
    Keybind { control: true, key }
}

fn binds() -> Keybinds {
    Keybinds {
        quit: kb('q'),
        save: ctrl_kb('s'),
        left: kb('h'),
        down: kb('j'),
        up: kb('k'),
        right: kb('l'),
        toggle_cursor: kb('v'),
        go_to: kb('g'),
        find: kb('f'),
        find_binary: kb('b'),
        find_text: kb('t'),
    }
}

fn key(code: KeyCode) -> Event {
    Event::Key(KeyEvent { code, control: false, alt: false })
}

fn chr(c: char) -> Event {
    key(KeyCode::Char(c))
}

fn fresh(len: u8) -> State {
    let bytes: Vec<u8> = (0..len).collect();
    State::new(String::from("scratch.bin"), bytes, 10)
}

#[test]
fn write_nibble_replaces_halves() {
    let mut buf = ByteBuffer::new(vec![0x03]);
    buf.write_nibble(0, 0, 7);
    assert_eq!(buf.byte_at(0), 0x73);
    buf.write_nibble(0, 1, 9);
    assert_eq!(buf.byte_at(0), 0x79);
    assert_eq!(buf.row_flags(0), 1);
}

#[test]
fn write_nibble_twice_keeps_byte_and_flag() {
    let mut buf = ByteBuffer::new(vec![0x03]);
    buf.write_nibble(0, 0, 7);
    let byte_once = buf.byte_at(0);
    let flags_once = buf.row_flags(0);
    buf.write_nibble(0, 0, 7);
    assert_eq!(buf.byte_at(0), byte_once);
    assert_eq!(buf.row_flags(0), flags_once);
    assert!(buf.has_unsaved());
}

#[test]
fn unchanged_write_sets_no_flag() {
    let mut buf = ByteBuffer::new(vec![0x73]);
    buf.write_nibble(0, 0, 7);
    assert_eq!(buf.byte_at(0), 0x73);
    assert!(!buf.has_unsaved());
    assert_eq!(buf.row_flags(0), 0);
}

#[test]
fn read_reports_out_of_range() {
    let buf = ByteBuffer::new(vec![1, 2]);
    assert_eq!(buf.read(1), Ok(2));
    assert_eq!(buf.read(2), Err(BufferError::OutOfRange));
}

#[test]
fn clear_modified_forgets_all_flags() {
    let mut buf = ByteBuffer::new(vec![0, 0, 0]);
    buf.write_nibble(0, 1, 1);
    buf.write_nibble(2, 1, 5);
    assert!(buf.has_unsaved());
    buf.clear_modified();
    assert!(!buf.has_unsaved());
    assert_eq!(buf.row_flags(0), 0);
    assert_eq!(buf.byte_at(0), 0x01);
    assert_eq!(buf.byte_at(2), 0x05);
}

#[test]
fn cursor_edit_scenario_advances_selection() {
    let keybinds = binds();
    let mut st = fresh(32);
    st.handle_event(chr('v'), &keybinds);
    assert_eq!(st.selection, Some((0, 0)));
    st.handle_event(key(KeyCode::Right), &keybinds);
    st.handle_event(key(KeyCode::Right), &keybinds);
    st.handle_event(key(KeyCode::Right), &keybinds);
    assert_eq!(st.selection, Some((0, 6)));
    st.handle_event(chr('7'), &keybinds);
    assert_eq!(st.buffer.byte_at(3), 0x73);
    assert_eq!(st.buffer.row_flags(0), 1 << 3);
    assert_eq!(st.selection, Some((0, 7)));
    st.handle_event(chr('8'), &keybinds);
    assert_eq!(st.buffer.byte_at(3), 0x78);
    assert_eq!(st.selection, Some((0, 8)));
}

#[test]
fn column_clamps_at_both_edges() {
    let keybinds = binds();
    let mut st = fresh(32);
    st.handle_event(chr('v'), &keybinds);
    for _ in 0..4 {
        st.handle_event(key(KeyCode::Left), &keybinds);
        assert_eq!(st.selection, Some((0, 0)));
    }
    for _ in 0..20 {
        st.handle_event(key(KeyCode::Right), &keybinds);
    }
    assert_eq!(st.selection, Some((0, 0x1e)));
    st.handle_event(key(KeyCode::Right), &keybinds);
    assert_eq!(st.selection, Some((0, 0x1e)));
    let alt_right = Event::Key(KeyEvent { code: KeyCode::Right, control: false, alt: true });
    st.handle_event(alt_right, &keybinds);
    assert_eq!(st.selection, Some((0, 0x1f)));
    st.handle_event(alt_right, &keybinds);
    assert_eq!(st.selection, Some((0, 0x1f)));
}

#[test]
fn goto_jumps_and_returns_to_regular() {
    let keybinds = binds();
    let mut st = fresh(32);
    st.handle_event(chr('g'), &keybinds);
    assert!(matches!(st.input_state, InputState::Goto(_)));
    st.handle_event(chr('1'), &keybinds);
    st.handle_event(chr('0'), &keybinds);
    st.handle_event(key(KeyCode::Enter), &keybinds);
    assert_eq!(st.selection, Some((1, 0)));
    assert_eq!(st.scroll_pos, 1);
    assert!(matches!(st.input_state, InputState::Regular));
}

#[test]
fn mode_entering_key_is_not_reinterpreted() {
    let keybinds = binds();
    let mut st = fresh(32);
    st.handle_event(chr('g'), &keybinds);
    match &st.input_state {
        InputState::Goto(buf) => assert!(buf.is_empty()),
        other => panic!("unexpected mode {:?}", other),
    }
}

#[test]
fn quit_binding_works_in_modal_input() {
    let keybinds = binds();
    let mut st = fresh(32);
    st.handle_event(chr('g'), &keybinds);
    let outcome = st.handle_event(chr('q'), &keybinds);
    assert!(outcome.quit);
}

#[test]
fn goto_out_of_range_is_a_silent_no_op() {
    let keybinds = binds();
    let mut st = fresh(32);
    st.handle_event(chr('g'), &keybinds);
    st.handle_event(chr('1'), &keybinds);
    st.handle_event(chr('0'), &keybinds);
    st.handle_event(key(KeyCode::Enter), &keybinds);
    st.handle_event(chr('g'), &keybinds);
    st.handle_event(chr('2'), &keybinds);
    st.handle_event(chr('0'), &keybinds);
    st.handle_event(key(KeyCode::Enter), &keybinds);
    assert_eq!(st.selection, Some((1, 0)));
    assert_eq!(st.scroll_pos, 1);
    assert!(matches!(st.input_state, InputState::Goto(_)));
}

#[test]
fn goto_buffer_takes_only_hex_and_backspace() {
    let keybinds = binds();
    let mut st = fresh(32);
    st.handle_event(chr('g'), &keybinds);
    st.handle_event(chr('1'), &keybinds);
    st.handle_event(chr('z'), &keybinds);
    st.handle_event(chr('f'), &keybinds);
    match &st.input_state {
        InputState::Goto(buf) => assert_eq!(buf, &vec!['1', 'f']),
        other => panic!("unexpected mode {:?}", other),
    }
    st.handle_event(key(KeyCode::Backspace), &keybinds);
    match &st.input_state {
        InputState::Goto(buf) => assert_eq!(buf, &vec!['1']),
        other => panic!("unexpected mode {:?}", other),
    }
}

#[test]
fn find_menu_leads_to_both_searches() {
    let keybinds = binds();
    let mut st = fresh(32);
    st.handle_event(chr('f'), &keybinds);
    assert!(matches!(st.input_state, InputState::Find));
    st.handle_event(chr('b'), &keybinds);
    assert!(matches!(st.input_state, InputState::FindBytes(_)));
    st.handle_event(key(KeyCode::Esc), &keybinds);
    assert!(matches!(st.input_state, InputState::Regular));
    st.handle_event(chr('f'), &keybinds);
    st.handle_event(chr('t'), &keybinds);
    assert!(matches!(st.input_state, InputState::FindString(_)));
}

#[test]
fn find_text_commit_selects_first_match() {
    let keybinds = binds();
    let bytes = vec![0x00, 0x41, 0x42, 0x43, 0x44, 0x00];
    let mut st = State::new(String::from("scratch.bin"), bytes, 10);
    st.handle_event(chr('f'), &keybinds);
    st.handle_event(chr('t'), &keybinds);
    st.handle_event(chr('C'), &keybinds);
    st.handle_event(chr('D'), &keybinds);
    st.handle_event(key(KeyCode::Enter), &keybinds);
    assert_eq!(st.selection, Some((0, 6)));
    assert_eq!(st.scroll_pos, 0);
    assert!(matches!(st.input_state, InputState::Regular));
}

#[test]
fn find_bytes_commit_selects_first_match() {
    let keybinds = binds();
    let bytes = vec![0x00, 0x41, 0x42, 0x43, 0x44, 0x00];
    let mut st = State::new(String::from("scratch.bin"), bytes, 10);
    st.handle_event(chr('f'), &keybinds);
    st.handle_event(chr('b'), &keybinds);
    for c in ['4', '1', '4', '2'] {
        st.handle_event(chr(c), &keybinds);
    }
    st.handle_event(key(KeyCode::Enter), &keybinds);
    assert_eq!(st.selection, Some((0, 2)));
    assert!(matches!(st.input_state, InputState::Regular));
}

#[test]
fn find_bytes_empty_pattern_is_never_searched() {
    let keybinds = binds();
    let mut st = fresh(32);
    st.handle_event(chr('f'), &keybinds);
    st.handle_event(chr('b'), &keybinds);
    st.handle_event(key(KeyCode::Enter), &keybinds);
    assert_eq!(st.selection, None);
    assert!(matches!(st.input_state, InputState::FindBytes(_)));
}

#[test]
fn failed_save_keeps_modified_and_sets_status() {
    let keybinds = binds();
    let mut st = fresh(32);
    st.handle_event(chr('v'), &keybinds);
    st.handle_event(chr('9'), &keybinds);
    assert!(st.buffer.has_unsaved());
    let flags_before = st.buffer.row_flags(0);
    st.mark_save_failed(String::from("Error: permission denied"));
    assert!(st.buffer.has_unsaved());
    assert_eq!(st.buffer.row_flags(0), flags_before);
    assert_eq!(st.bottom_text, Some(String::from("Error: permission denied")));
}

#[test]
fn successful_save_clears_all_modified_flags() {
    let keybinds = binds();
    let mut st = fresh(32);
    st.handle_event(chr('v'), &keybinds);
    st.handle_event(chr('9'), &keybinds);
    st.handle_event(chr('9'), &keybinds);
    assert!(st.buffer.has_unsaved());
    st.mark_saved();
    assert!(!st.buffer.has_unsaved());
    assert_eq!(st.buffer.row_flags(0), 0);
    assert_eq!(st.buffer.byte_at(0), 0x99);
}

#[test]
fn save_binding_requests_a_save() {
    let keybinds = binds();
    let mut st = fresh(32);
    let save_key = Event::Key(KeyEvent { code: KeyCode::Char('s'), control: true, alt: false });
    let outcome = st.handle_event(save_key, &keybinds);
    assert!(outcome.save);
    assert!(!outcome.quit);
    let plain_s = st.handle_event(chr('s'), &keybinds);
    assert!(!plain_s.save);
}

#[test]
fn escape_leaves_cursor_then_quits() {
    let keybinds = binds();
    let mut st = fresh(32);
    st.handle_event(chr('v'), &keybinds);
    assert!(st.selection.is_some());
    let first = st.handle_event(key(KeyCode::Esc), &keybinds);
    assert!(!first.quit);
    assert_eq!(st.selection, None);
    let second = st.handle_event(key(KeyCode::Esc), &keybinds);
    assert!(second.quit);
}

#[test]
fn control_c_always_quits() {
    let keybinds = binds();
    let mut st = fresh(32);
    st.handle_event(chr('g'), &keybinds);
    let ctrl_c = Event::Key(KeyEvent { code: KeyCode::Char('c'), control: true, alt: false });
    let outcome = st.handle_event(ctrl_c, &keybinds);
    assert!(outcome.quit);
}

#[test]
fn pager_scrolls_within_bounds() {
    let keybinds = binds();
    let mut st = fresh(64);
    assert_eq!(st.max_rows, 4);
    st.handle_event(key(KeyCode::Up), &keybinds);
    assert_eq!(st.scroll_pos, 0);
    for _ in 0..10 {
        st.handle_event(key(KeyCode::Down), &keybinds);
    }
    assert_eq!(st.scroll_pos, 4);
    st.handle_event(key(KeyCode::Up), &keybinds);
    assert_eq!(st.scroll_pos, 3);
}

#[test]
fn cursor_moves_stop_at_last_row() {
    let keybinds = binds();
    let mut st = fresh(48);
    st.handle_event(chr('v'), &keybinds);
    for _ in 0..10 {
        st.handle_event(key(KeyCode::Down), &keybinds);
    }
    assert_eq!(st.selection, Some((2, 0)));
    for _ in 0..10 {
        st.handle_event(key(KeyCode::Up), &keybinds);
    }
    assert_eq!(st.selection, Some((0, 0)));
}

#[test]
fn home_and_end_jump_within_row_and_document() {
    let keybinds = binds();
    let mut st = fresh(32);
    st.handle_event(chr('v'), &keybinds);
    st.handle_event(key(KeyCode::End), &keybinds);
    assert_eq!(st.selection, Some((0, 0x1e)));
    let alt_end = Event::Key(KeyEvent { code: KeyCode::End, control: false, alt: true });
    st.handle_event(alt_end, &keybinds);
    assert_eq!(st.selection, Some((0, 0x1f)));
    let ctrl_end = Event::Key(KeyEvent { code: KeyCode::End, control: true, alt: false });
    st.handle_event(ctrl_end, &keybinds);
    assert_eq!(st.selection, Some((1, 0x1e)));
    st.handle_event(key(KeyCode::Home), &keybinds);
    assert_eq!(st.selection, Some((1, 0)));
    let ctrl_home = Event::Key(KeyEvent { code: KeyCode::Home, control: true, alt: false });
    st.handle_event(ctrl_home, &keybinds);
    assert_eq!(st.selection, Some((0, 0)));
    assert_eq!(st.scroll_pos, 0);
}

#[test]
fn mouse_press_selects_a_byte() {
    let keybinds = binds();
    let mut st = fresh(64);
    let click = Event::Mouse(MouseEvent { left_press: true, row: 3, column: 0x11, alt: false });
    st.handle_event(click, &keybinds);
    assert_eq!(st.selection, Some((1, 2)));
    let right_half = Event::Mouse(MouseEvent { left_press: true, row: 2, column: 0x27, alt: false });
    st.handle_event(right_half, &keybinds);
    assert_eq!(st.selection, Some((0, 0x10)));
}

#[test]
fn mouse_left_half_clamps_at_its_last_byte() {
    let keybinds = binds();
    let mut st = fresh(64);
    let gap_click = Event::Mouse(MouseEvent { left_press: true, row: 2, column: 0x26, alt: false });
    st.handle_event(gap_click, &keybinds);
    assert_eq!(st.selection, Some((0, 0xf)));
    let alt_click = Event::Mouse(MouseEvent { left_press: true, row: 2, column: 0x25, alt: true });
    st.handle_event(alt_click, &keybinds);
    assert_eq!(st.selection, Some((0, 0xf)));
}

#[test]
fn mouse_is_ignored_in_modal_input() {
    let keybinds = binds();
    let mut st = fresh(64);
    st.handle_event(chr('g'), &keybinds);
    let click = Event::Mouse(MouseEvent { left_press: true, row: 3, column: 0x11, alt: false });
    st.handle_event(click, &keybinds);
    assert_eq!(st.selection, None);
}

#[test]
fn digit_beyond_document_end_is_ignored() {
    let keybinds = binds();
    let mut st = fresh(20);
    st.handle_event(chr('v'), &keybinds);
    st.handle_event(key(KeyCode::Down), &keybinds);
    let alt_end = Event::Key(KeyEvent { code: KeyCode::End, control: false, alt: true });
    st.handle_event(alt_end, &keybinds);
    assert_eq!(st.selection, Some((1, 0x1f)));
    st.handle_event(chr('5'), &keybinds);
    assert_eq!(st.selection, Some((1, 0x1f)));
    assert!(!st.buffer.has_unsaved());
}

#[test]
fn config_carries_keybinds() {
    let config = Config { keybinds: binds() };
    assert_eq!(config.keybinds.quit.key, 'q');
    assert!(config.keybinds.save.control);
}

use hexed::cfg::{Keybind, Keybinds};
use hexed::input::{Event, KeyCode, KeyEvent};
use hexed::line::{DrawCall, LineColor, LineWriter};
use hexed::render::{ascii_char, compose_bottom, compose_line, compose_rows};
use hexed::state::State;

fn kb(key: char) -> Keybind {
    Keybind { control: false, key }
}

fn binds() -> Keybinds {
    Keybinds {
        quit: kb('q'),
        save: Keybind { control: true, key: 's' },
        left: kb('h'),
        down: kb('j'),
        up: kb('k'),
        right: kb('l'),
        toggle_cursor: kb('v'),
        go_to: kb('g'),
        find: kb('f'),
        find_binary: kb('b'),
        find_text: kb('t'),
    }
}

fn chr(c: char) -> Event {
    Event::Key(KeyEvent { code: KeyCode::Char(c), control: false, alt: false })
}

fn joined(calls: &[DrawCall]) -> String {
    calls.iter().flat_map(|c| c.text.iter().copied()).collect()
}

#[test]
fn writer_coalesces_runs_of_one_color() {
    let mut w = LineWriter::new(2, 80);
    w.write_str(LineColor::Regular, "ab");
    w.write_str(LineColor::Regular, "cd");
    w.flush();
    assert_eq!(w.calls.len(), 1);
    assert_eq!(w.calls[0].x, 2);
    assert_eq!(w.calls[0].color, LineColor::Regular);
    assert_eq!(w.calls[0].text, vec!['a', 'b', 'c', 'd']);
}

#[test]
fn writer_splits_on_color_change() {
    let mut w = LineWriter::new(2, 80);
    w.write_str(LineColor::Regular, "ab");
    w.write_char(LineColor::Emphasis, 'c');
    w.flush();
    assert_eq!(w.calls.len(), 2);
    assert_eq!(w.calls[0].text, vec!['a', 'b']);
    assert_eq!(w.calls[0].x, 2);
    assert_eq!(w.calls[1].text, vec!['c']);
    assert_eq!(w.calls[1].x, 4);
    assert_eq!(w.calls[1].color, LineColor::Emphasis);
}

#[test]
fn writer_seek_repositions_absolutely() {
    let mut w = LineWriter::new(2, 80);
    w.write_str(LineColor::Regular, "ab");
    w.seek(10);
    w.write_char(LineColor::Emphasis, 'z');
    w.flush();
    assert_eq!(w.calls.len(), 2);
    assert_eq!(w.calls[0].x, 2);
    assert_eq!(w.calls[1].x, 10);
    assert_eq!(w.calls[1].width, 70);
}

#[test]
fn writer_whitespace_inherits_run_color() {
    let mut w = LineWriter::new(0, 80);
    w.write_str(LineColor::Emphasis, "a");
    w.write_whitespace(" ");
    w.flush();
    assert_eq!(w.calls.len(), 1);
    assert_eq!(w.calls[0].color, LineColor::Emphasis);
    assert_eq!(w.calls[0].text, vec!['a', ' ']);
}

#[test]
fn writer_flush_is_idempotent_when_empty() {
    let mut w = LineWriter::new(0, 80);
    w.flush();
    w.flush();
    assert_eq!(w.calls.len(), 0);
}

#[test]
fn ascii_char_shows_printables_only() {
    assert_eq!(ascii_char(0x41), 'A');
    assert_eq!(ascii_char(0x7E), '~');
    assert_eq!(ascii_char(0x00), '.');
    assert_eq!(ascii_char(0x20), '.');
    assert_eq!(ascii_char(0x7F), '.');
    assert_eq!(ascii_char(0xFF), '.');
}

#[test]
fn compose_line_lays_out_hex_and_text_panels() {
    let st = State::new(String::from("f"), vec![0x00, 0x41], 10);
    let calls = compose_line(&st, 0, 76);
    assert_eq!(joined(&calls), "0000 0000:  00 41  .A ");
    assert_eq!(calls[0].x, 2);
    let ascii_start = calls.iter().position(|c| c.x == 64).unwrap();
    let ascii_text: String =
        calls[ascii_start..].iter().flat_map(|c| c.text.iter().copied()).collect();
    assert_eq!(ascii_text, ".A ");
}

#[test]
fn compose_line_marks_selection_and_modified() {
    let keybinds = binds();
    let mut st = State::new(String::from("f"), vec![0x00; 16], 10);
    st.handle_event(chr('v'), &keybinds);
    st.handle_event(chr('5'), &keybinds);
    let calls = compose_line(&st, 0, 76);
    assert!(calls.iter().any(|c| c.color == LineColor::Highlighted));
    assert!(calls.iter().any(|c| c.color == LineColor::Modified));
    assert_eq!(
        joined(&calls),
        "0000 0000:  50 00 00 00 00 00 00 00  00 00 00 00 00 00 00 00 P....... ........",
    );
}

#[test]
fn compose_line_addresses_later_rows() {
    let st = State::new(String::from("f"), vec![0x11; 40], 10);
    let calls = compose_line(&st, 2, 76);
    assert_eq!(
        joined(&calls),
        "0000 0020:  11 11 11 11 11 11 11 11  ........ ",
    );
}

#[test]
fn compose_rows_stops_at_document_end() {
    let st = State::new(String::from("f"), vec![0u8; 40], 24);
    let rows = compose_rows(&st, 76);
    assert_eq!(rows.len(), 3);
    let st2 = State::new(String::from("f"), vec![0u8; 1600], 10);
    let rows2 = compose_rows(&st2, 76);
    assert_eq!(rows2.len(), 6);
}

#[test]
fn bottom_shows_goto_prompt() {
    let keybinds = binds();
    let mut st = State::new(String::from("f"), vec![0u8; 32], 10);
    st.handle_event(chr('g'), &keybinds);
    st.handle_event(chr('1'), &keybinds);
    st.handle_event(chr('f'), &keybinds);
    let calls = compose_bottom(&st, &keybinds, 80);
    assert_eq!(joined(&calls), "Go to: 0x1f ");
    assert_eq!(calls.last().unwrap().color, LineColor::TextCursor);
    assert_eq!(calls[0].x, 0);
}

#[test]
fn bottom_groups_byte_pattern_in_pairs() {
    let keybinds = binds();
    let mut st = State::new(String::from("f"), vec![0u8; 32], 10);
    st.handle_event(chr('f'), &keybinds);
    st.handle_event(chr('b'), &keybinds);
    for c in ['1', '2', '3'] {
        st.handle_event(chr(c), &keybinds);
    }
    let calls = compose_bottom(&st, &keybinds, 80);
    assert_eq!(joined(&calls), "Find byte sequence (in hex): 12 3 ");
}

#[test]
fn bottom_shows_find_chooser() {
    let keybinds = binds();
    let mut st = State::new(String::from("f"), vec![0u8; 32], 10);
    st.handle_event(chr('f'), &keybinds);
    let calls = compose_bottom(&st, &keybinds, 80);
    assert_eq!(joined(&calls), "Find what?  b bytes, t text");
}

#[test]
fn bottom_shows_pager_hints() {
    let keybinds = binds();
    let st = State::new(String::from("f"), vec![0u8; 32], 10);
    let calls = compose_bottom(&st, &keybinds, 80);
    assert_eq!(
        joined(&calls),
        "q exit, v cursor, g go to, f find, ^s save, j/Down scroll down, k/Up scroll up ",
    );
}

#[test]
fn bottom_shows_cursor_hints_and_status_text() {
    let keybinds = binds();
    let mut st = State::new(String::from("f"), vec![0u8; 32], 10);
    st.handle_event(chr('v'), &keybinds);
    let calls = compose_bottom(&st, &keybinds, 80);
    assert_eq!(
        joined(&calls),
        "q exit, v pager, g go to, f find, ^s save, hjkl/Arrows move selection (Alt to move by digits) ",
    );
    st.mark_save_failed(String::from("Error: nope"));
    let calls2 = compose_bottom(&st, &keybinds, 80);
    assert_eq!(joined(&calls2), "Error: nope");
}

#[test]
fn bottom_dims_save_hint_until_an_edit() {
    let keybinds = binds();
    let mut st = State::new(String::from("f"), vec![0u8; 32], 10);
    let before = compose_bottom(&st, &keybinds, 80);
    assert!(before.iter().any(|c| c.color == LineColor::Zero));
    st.handle_event(chr('v'), &keybinds);
    st.handle_event(chr('5'), &keybinds);
    st.handle_event(Event::Key(KeyEvent { code: KeyCode::Esc, control: false, alt: false }),
        &keybinds);
    let after = compose_bottom(&st, &keybinds, 80);
    assert!(!after.iter().any(|c| c.color == LineColor::Zero));
}

#[test]
fn keybind_matches_case_insensitively() {
    let b = kb('x');
    let lower = KeyEvent { code: KeyCode::Char('x'), control: false, alt: false };
    let upper = KeyEvent { code: KeyCode::Char('X'), control: false, alt: false };
    let ctrl = KeyEvent { code: KeyCode::Char('x'), control: true, alt: false };
    assert!(b.matches(lower));
    assert!(b.matches(upper));
    assert!(!b.matches(ctrl));
    let cb = Keybind { control: true, key: 'X' };
    assert!(cb.matches(ctrl));
    assert!(!cb.matches(lower));
    assert!(!b.matches(KeyEvent { code: KeyCode::Enter, control: false, alt: false }));
}

#[test]
fn keybind_parse_reads_marker_and_key() {
    assert_eq!(Keybind::parse(&vec!['s']), Some(Keybind { control: false, key: 's' }));
    assert_eq!(Keybind::parse(&vec!['^', 's']), Some(Keybind { control: true, key: 's' }));
    assert_eq!(Keybind::parse(&vec!['^', '^', 'a']), Some(Keybind { control: true, key: 'a' }));
    assert_eq!(Keybind::parse(&vec![]), None);
    assert_eq!(Keybind::parse(&vec!['^']), None);
    assert_eq!(Keybind::parse(&vec!['a', 'b']), None);
}

#[test]
fn keybind_displays_its_chars() {
    assert_eq!(kb('x').display_chars(), vec!['x']);
    assert_eq!(Keybind { control: true, key: 's' }.display_chars(), vec!['^', 's']);
}

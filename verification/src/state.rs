//! The editor session state and its event-driven transitions: pager/cursor
//! navigation, the modal input machine (go-to and the two searches), nibble
//! editing, mouse selection, and save bookkeeping.
//!
//! Every transition is specified as a function on an abstract model of the
//! state, and each handler is proved to realize its model transition.

use vstd::prelude::*;
use vstd::utf8::encode_utf8;
use crate::buffer::{ByteBuffer, bytes_after_write, flags_after_write, set_nibble};
use crate::cfg::{Keybinds, keybind_matches};
use crate::codec::{all_hex_digits, decode_hex_spec, is_hex_digit, parse_offset_spec};
use crate::input::{Event, KeyCode, KeyEvent, MouseEvent};
use crate::search::first_match;

verus! {

/// The modal input state: which interpretation the next key receives.
#[derive(Debug)]
pub enum InputState {
    /// Normal navigation and editing.
    Regular,
    /// Accumulating a hex offset to jump to.
    Goto(Vec<char>),
    /// Choosing between the two kinds of search.
    Find,
    /// Accumulating hex digit pairs for a byte-pattern search.
    FindBytes(Vec<char>),
    /// Accumulating literal text for a text search.
    FindString(Vec<char>),
}

/// Abstract counterpart of [`InputState`].
#[verifier::ext_equal]
pub enum ModeM {
    Regular,
    Goto(Seq<char>),
    Find,
    FindBytes(Seq<char>),
    FindString(Seq<char>),
}

/// Abstract counterpart of [`InputState`]'s content.
pub open spec fn mode_view(m: &InputState) -> ModeM {
    match m {
        InputState::Regular => ModeM::Regular,
        InputState::Goto(b) => ModeM::Goto(b@),
        InputState::Find => ModeM::Find,
        InputState::FindBytes(b) => ModeM::FindBytes(b@),
        InputState::FindString(b) => ModeM::FindString(b@),
    }
}

/// The abstract session state that the transition functions are written
/// over.
#[verifier::ext_equal]
pub struct StateModel {
    pub bytes: Seq<u8>,
    pub modified: Map<usize, u16>,
    pub scroll_pos: usize,
    pub max_rows: usize,
    pub selection: Option<(usize, usize)>,
    pub mode: ModeM,
    pub queued: Option<ModeM>,
    pub area_height: u16,
    pub file_name: Seq<char>,
    pub bottom_text: Option<Seq<char>>,
}

/// Number of sixteen-byte rows needed for `len` bytes.
pub open spec fn row_count(len: nat) -> nat {
    (len + 15) / 16
}

/// The editor session: document, navigation, modal input, and status.
pub struct State {
    /// Topmost visible row.
    pub scroll_pos: usize,
    /// Total number of rows of the document.
    pub max_rows: usize,
    /// The selected nibble as `(row, column)`, or `None` in pager mode.
    /// The column indexes one of the 32 nibbles of a row.
    pub selection: Option<(usize, usize)>,
    /// The active input mode.
    pub input_state: InputState,
    /// A mode change to apply once the current event is fully handled.
    pub queued_input_state: Option<InputState>,
    /// Height of the terminal area in rows.
    pub area_height: u16,
    /// Path the document was loaded from and is saved back to.
    pub file_name: String,
    /// The document bytes and their modified flags.
    pub buffer: ByteBuffer,
    /// A transient status message shown instead of the key hints.
    pub bottom_text: Option<String>,
}

impl View for State {
    type V = StateModel;

    open spec fn view(&self) -> StateModel {
        StateModel {
            bytes: self.buffer.bytes@,
            modified: self.buffer.modified@,
            scroll_pos: self.scroll_pos,
            max_rows: self.max_rows,
            selection: self.selection,
            mode: mode_view(&self.input_state),
            queued: match self.queued_input_state {
                Some(ref q) => Some(mode_view(q)),
                None => None,
            },
            area_height: self.area_height,
            file_name: self.file_name@,
            bottom_text: match self.bottom_text {
                Some(ref s) => Some(s@),
                None => None,
            },
        }
    }
}

/// Well-formedness of the abstract state: the row count fits the document,
/// the document is non-empty and small enough for offset arithmetic, the
/// scroll position stays at or inside the last row, a selection lies inside
/// the document's rows and addresses one of the 32 nibble columns, and the
/// terminal shows at least one content row.
pub open spec fn model_wf(m: StateModel) -> bool {
    &&& 1 <= m.bytes.len() <= usize::MAX / 2
    &&& m.max_rows == row_count(m.bytes.len())
    &&& m.scroll_pos <= m.max_rows
    &&& match m.selection {
        Some((row, col)) => row < m.max_rows && col <= 0x1f,
        None => true,
    }
    &&& m.area_height >= 5
}

impl State {
    /// The state is well formed: the model invariants hold and the
    /// modification map keeps no all-zero rows.
    pub open spec fn wf(self) -> bool {
        &&& self.buffer.wf()
        &&& model_wf(self@)
    }

    /// Rows of content the terminal area has room for (its height minus
    /// the fixed chrome).
    pub open spec fn spec_visible_rows(self) -> usize {
        (self.area_height - 4) as usize
    }

    /// Begin a session on the loaded document, in pager mode at the top.
    pub fn new(file_name: String, bytes: Vec<u8>, area_height: u16) -> (r: State)
        requires
            1 <= bytes@.len() <= usize::MAX / 2,
        ensures
            r.wf(),
            r@.bytes == bytes@,
            r@.modified == Map::<usize, u16>::empty(),
            r@.scroll_pos == 0,
            r@.selection is None,
            r@.mode == ModeM::Regular,
            r@.queued is None,
            r@.file_name == file_name@,
            r@.bottom_text is None,
            r@.area_height >= 5,
    {
        let len = bytes.len();
        let max_rows = len / 16 + if len % 16 != 0 {
            1
        } else {
            0
        };
        State {
            scroll_pos: 0,
            max_rows,
            selection: None,
            input_state: InputState::Regular,
            queued_input_state: None,
            area_height: if area_height < 5 {
                5
            } else {
                area_height
            },
            file_name,
            buffer: ByteBuffer::new(bytes),
            bottom_text: None,
        }
    }

    /// Adopt the current terminal height, keeping room for at least one
    /// content row.
    pub fn set_area_height(&mut self, height: u16)
        requires
            old(self).wf(),
        ensures
            final(self).wf(),
            final(self)@ == (StateModel {
                area_height: if height < 5 {
                    5u16
                } else {
                    height
                },
                ..old(self)@
            }),
    {
        self.area_height = if height < 5 {
            5
        } else {
            height
        };
    }

    /// Rows of document content that fit the terminal area.
    pub fn visible_content_rows(&self) -> (r: usize)
        requires
            self.wf(),
        ensures
            r == self.spec_visible_rows(),
            r >= 1,
    {
        self.area_height as usize - 4
    }

    /// Record that a save was confirmed written: every modified flag is
    /// forgotten; the bytes and everything else stay.
    pub fn mark_saved(&mut self)
        requires
            old(self).wf(),
        ensures
            final(self).wf(),
            final(self)@ == (StateModel { modified: Map::<usize, u16>::empty(), ..old(self)@ }),
    {
        self.buffer.clear_modified();
        proof {
            assert(self@ =~= (StateModel { modified: Map::<usize, u16>::empty(), ..old(self)@ }));
        }
    }

    /// Record that a save failed: the modified flags and bytes stay exactly
    /// as they were, and the message becomes the transient status text.
    pub fn mark_save_failed(&mut self, message: String)
        requires
            old(self).wf(),
        ensures
            final(self).wf(),
            final(self)@ == (StateModel { bottom_text: Some(message@), ..old(self)@ }),
    {
        self.bottom_text = Some(message);
        proof {
            assert(self@ =~= (StateModel { bottom_text: Some(message@), ..old(self)@ }));
        }
    }
}

/// Rows of content the terminal area has room for, on the model.
pub open spec fn spec_vis(m: StateModel) -> usize {
    (m.area_height - 4) as usize
}

/// One Up step: in cursor mode the row moves up by one (stopping at the
/// top) and the view scrolls up by one step if the cursor left it; in
/// pager mode the view scrolls up by one, stopping at the top.
pub open spec fn step_up(m: StateModel) -> StateModel {
    let scroll_dec = if m.scroll_pos > 0 {
        (m.scroll_pos - 1) as usize
    } else {
        0usize
    };
    match m.selection {
        Some((row, col)) => {
            let row2 = if row > 0 {
                (row - 1) as usize
            } else {
                0usize
            };
            let scroll2 = if row2 < m.scroll_pos {
                scroll_dec
            } else {
                m.scroll_pos
            };
            StateModel { selection: Some((row2, col)), scroll_pos: scroll2, ..m }
        },
        None => StateModel { scroll_pos: scroll_dec, ..m },
    }
}

/// One Down step: in cursor mode the row moves down by one (stopping at
/// the last row) and the view scrolls down by one step if the cursor left
/// it; in pager mode the view scrolls down by one, stopping at the row
/// count.
pub open spec fn step_down(m: StateModel) -> StateModel {
    match m.selection {
        Some((row, col)) => {
            let row2 = if row + 1 < m.max_rows {
                (row + 1) as usize
            } else {
                row
            };
            let scroll2 = if row2 >= m.scroll_pos + spec_vis(m) {
                (m.scroll_pos + 1) as usize
            } else {
                m.scroll_pos
            };
            StateModel { selection: Some((row2, col)), scroll_pos: scroll2, ..m }
        },
        None => StateModel {
            scroll_pos: if m.scroll_pos < m.max_rows {
                (m.scroll_pos + 1) as usize
            } else {
                m.scroll_pos
            },
            ..m
        },
    }
}

/// One Left step of the column: by a whole byte (rounding down to an even
/// column) or, with the modifier, by a single nibble; never below zero.
pub open spec fn col_left(col: usize, alt: bool) -> usize {
    if !alt {
        let c = if col >= 2 {
            (col - 2) as usize
        } else {
            0usize
        };
        (c / 2 * 2) as usize
    } else {
        if col >= 1 {
            (col - 1) as usize
        } else {
            0usize
        }
    }
}

/// One Right step of the column: by a whole byte (stopping at `0x1e`, the
/// high nibble of the last byte) or, with the modifier, by a single nibble
/// (stopping at `0x1f`).
pub open spec fn col_right(col: usize, alt: bool) -> usize {
    if !alt {
        if col < 0x1e {
            ((col + 2) / 2 * 2) as usize
        } else {
            col
        }
    } else {
        if col < 0x1f {
            (col + 1) as usize
        } else {
            col
        }
    }
}

/// A Left key applied to the state: only the selected column moves.
pub open spec fn step_left(m: StateModel, alt: bool) -> StateModel {
    match m.selection {
        Some((row, col)) => StateModel { selection: Some((row, col_left(col, alt))), ..m },
        None => m,
    }
}

/// A Right key applied to the state: only the selected column moves.
pub open spec fn step_right(m: StateModel, alt: bool) -> StateModel {
    match m.selection {
        Some((row, col)) => StateModel { selection: Some((row, col_right(col, alt))), ..m },
        None => m,
    }
}

/// Toggling between cursor and pager mode: a selection is dropped; absent
/// one, the cursor is seeded at the topmost visible row (kept inside the
/// document) in the first column.
pub open spec fn step_toggle(m: StateModel) -> StateModel {
    match m.selection {
        Some(_) => StateModel { selection: None, ..m },
        None => {
            let row = if m.scroll_pos < m.max_rows {
                m.scroll_pos
            } else {
                (m.max_rows - 1) as usize
            };
            StateModel { selection: Some((row, 0usize)), ..m }
        },
    }
}

/// A Home key: with control, scroll to the top and move the cursor to the
/// very first position; without, only the column jumps to the row start.
pub open spec fn step_home(m: StateModel, ctrl: bool) -> StateModel {
    let scroll2 = if ctrl {
        0usize
    } else {
        m.scroll_pos
    };
    let sel2 = match m.selection {
        Some((row, col)) => if ctrl {
            Some((0usize, 0usize))
        } else {
            Some((row, 0usize))
        },
        None => None,
    };
    StateModel { scroll_pos: scroll2, selection: sel2, ..m }
}

/// An End key: with control, scroll so the last row is visible and move
/// the cursor to the last addressable nibble; without, only the column
/// jumps to the row end. Without the nibble modifier the column lands on
/// the byte (even column) instead of its low nibble.
pub open spec fn step_end(m: StateModel, ctrl: bool, alt: bool) -> StateModel {
    let len = m.bytes.len() as int;
    let vis = spec_vis(m) as int;
    let target: usize = if len / 16 + 1 >= vis {
        (len / 16 + 1 - vis) as usize
    } else {
        0usize
    };
    let scroll2: usize = if ctrl {
        if m.scroll_pos >= target {
            m.scroll_pos
        } else {
            target
        }
    } else {
        m.scroll_pos
    };
    let sel2 = match m.selection {
        Some((row, col)) => {
            let row2: usize = if ctrl {
                ((len - 1) / 16) as usize
            } else {
                row
            };
            let cdigit: int = if ctrl {
                ((len - 1) % 16) * 2 + 1
            } else {
                0x1f
            };
            let col2: usize = if alt {
                cdigit as usize
            } else {
                (cdigit - 1) as usize
            };
            Some((row2, col2))
        },
        None => None,
    };
    StateModel { scroll_pos: scroll2, selection: sel2, ..m }
}

/// A typed character in cursor mode: a decimal digit overwrites the
/// selected nibble (when the selected byte exists) and the cursor advances
/// by one nibble, wrapping to the next row's first column, or staying on
/// the last nibble of the last row. Anything else is ignored.
pub open spec fn step_digit(m: StateModel, c: char) -> StateModel {
    match m.selection {
        Some((row, col)) => {
            let v = c as u32;
            if 0x30 <= v <= 0x39 {
                let d = (v - 0x30) as u8;
                let offset = (row * 16 + col / 2) as usize;
                if offset < m.bytes.len() {
                    let bytes2 = bytes_after_write(m.bytes, offset, (col % 2) as usize, d);
                    let modified2 = flags_after_write(
                        m.modified,
                        m.bytes,
                        offset,
                        (col % 2) as usize,
                        d,
                    );
                    let sel2 = if col + 1 >= 0x20 {
                        if row + 1 < m.max_rows {
                            Some(((row + 1) as usize, 0usize))
                        } else {
                            Some((row, 0x1fusize))
                        }
                    } else {
                        Some((row, (col + 1) as usize))
                    };
                    StateModel { bytes: bytes2, modified: modified2, selection: sel2, ..m }
                } else {
                    m
                }
            } else {
                m
            }
        },
        None => m,
    }
}

/// Typing a digit whose value the selected nibble already holds is a
/// silent edit: the bytes stay as they are and the modification map is
/// untouched — in particular, a flag set by an earlier edit is never
/// toggled off. This is how nibble-write idempotence
/// ([`crate::buffer::lemma_write_nibble_idempotent`]) surfaces at the
/// dispatcher: the second of two identical writes stores nothing.
pub proof fn lemma_digit_on_equal_nibble_is_silent(
    m: StateModel,
    row: usize,
    col: usize,
    c: char,
)
    requires
        model_wf(m),
        m.selection == Some((row, col)),
        0x30 <= c as u32 <= 0x39,
        row * 16 + col / 2 < m.bytes.len(),
        set_nibble(
            m.bytes[row * 16 + col / 2],
            (col % 2) as usize,
            ((c as u32) - 0x30) as u8,
        ) == m.bytes[row * 16 + col / 2],
    ensures
        step_digit(m, c).bytes == m.bytes,
        step_digit(m, c).modified == m.modified,
{
    assert(row * 16 + col / 2 == (row * 16 + col / 2) as usize) by {
        assert(m.bytes.len() == 16 * (m.bytes.len() as int / 16) + m.bytes.len() as int % 16);
    }
    let offset = (row * 16 + col / 2) as usize;
    let d = ((c as u32) - 0x30) as u8;
    assert(bytes_after_write(m.bytes, offset, (col % 2) as usize, d) =~= m.bytes);
}

/// What a key event in regular mode produced, besides the state change:
/// whether the session should end, and whether the host should save the
/// document and report the outcome back.
#[derive(Clone, Copy, Debug, PartialEq, Eq, Structural)]
pub struct KeyOutcome {
    pub quit: bool,
    pub save: bool,
}

/// The configured bindings of a regular-mode key event, applied in their
/// fixed order: up, down, left, right, toggle, queue go-to, queue find.
pub open spec fn regular_binds_spec(m: StateModel, e: KeyEvent, kb: Keybinds) -> StateModel {
    let m1 = if e.code == KeyCode::Up || keybind_matches(kb.up, e) {
        step_up(m)
    } else {
        m
    };
    let m2 = if e.code == KeyCode::Down || keybind_matches(kb.down, e) {
        step_down(m1)
    } else {
        m1
    };
    let m3 = if e.code == KeyCode::Left || keybind_matches(kb.left, e) {
        step_left(m2, e.alt)
    } else {
        m2
    };
    let m4 = if e.code == KeyCode::Right || keybind_matches(kb.right, e) {
        step_right(m3, e.alt)
    } else {
        m3
    };
    let m5 = if keybind_matches(kb.toggle_cursor, e) {
        step_toggle(m4)
    } else {
        m4
    };
    let m6 = if keybind_matches(kb.go_to, e) {
        StateModel { queued: Some(ModeM::Goto(Seq::empty())), ..m5 }
    } else {
        m5
    };
    if keybind_matches(kb.find, e) {
        StateModel { queued: Some(ModeM::Find), ..m6 }
    } else {
        m6
    }
}

/// One key event dispatched in regular mode: the configured bindings fire
/// first (see [`regular_binds_spec`]); a matching quit binding then ends
/// the session at once; otherwise Home, End, Escape and typed characters
/// are interpreted. Escape drops the selection in cursor mode and quits in
/// pager mode. The results are the next state, the quit flag, and the
/// save-requested flag.
pub open spec fn handle_key_spec(m: StateModel, e: KeyEvent, kb: Keybinds) -> (
    StateModel,
    bool,
    bool,
) {
    let mb = regular_binds_spec(m, e, kb);
    let save = keybind_matches(kb.save, e);
    if keybind_matches(kb.quit, e) {
        (mb, true, save)
    } else {
        match e.code {
            KeyCode::Home => (step_home(mb, e.control), false, save),
            KeyCode::End => (step_end(mb, e.control, e.alt), false, save),
            KeyCode::Esc => if mb.selection is Some {
                (StateModel { selection: None, ..mb }, false, save)
            } else {
                (mb, true, save)
            },
            KeyCode::Char(c) => (step_digit(mb, c), false, save),
            _ => (mb, false, save),
        }
    }
}

/// A primary-button press in regular mode places the selection. The screen
/// row, less the fixed header, is clamped into the visible rows and offset
/// by the scroll position (and kept inside the document); the screen
/// column maps into the hex panel's byte cells — three cells per byte,
/// with the nibble offset honoured under the modifier — on either side of
/// the split between the two eight-byte half-rows, and the resulting
/// nibble column is clamped into its half before the right half's offset
/// is added. Clicks in other modes, and other mouse events, change
/// nothing.
pub open spec fn mouse_spec(m: StateModel, me: MouseEvent) -> StateModel {
    if !(m.mode matches ModeM::Regular) || !me.left_press {
        m
    } else {
        let vis = spec_vis(m);
        let r0: usize = if me.row >= 2 {
            (me.row - 2) as usize
        } else {
            0usize
        };
        let row0: usize = if r0 >= vis {
            (vis - 1) as usize
        } else {
            r0
        };
        let sel_row: usize = if row0 + m.scroll_pos < m.max_rows {
            (row0 + m.scroll_pos) as usize
        } else {
            (m.max_rows - 1) as usize
        };
        let col: usize = if me.column >= 0x27 {
            let raw = (me.column - 0x27) as usize;
            let c = (raw / 3 * 2) as usize;
            let c2: usize = if me.alt {
                (c + raw % 3) as usize
            } else {
                c
            };
            let c3: usize = if c2 >= 0x10 {
                0xfusize
            } else {
                c2
            };
            (c3 + 0x10) as usize
        } else {
            let raw: usize = if me.column >= 0xe {
                (me.column - 0xe) as usize
            } else {
                0usize
            };
            let c = (raw / 3 * 2) as usize;
            let c2: usize = if me.alt {
                (c + raw % 3) as usize
            } else {
                c
            };
            if c2 >= 0x10 {
                0xfusize
            } else {
                c2
            }
        };
        StateModel { selection: Some((sel_row, col)), ..m }
    }
}

/// The state's mode buffer replaced by `b`, whichever buffer-accumulating
/// mode is active.
pub open spec fn with_buf(m: StateModel, b: Seq<char>) -> StateModel {
    let mode2 = match m.mode {
        ModeM::Goto(_) => ModeM::Goto(b),
        ModeM::FindBytes(_) => ModeM::FindBytes(b),
        ModeM::FindString(_) => ModeM::FindString(b),
        other => other,
    };
    StateModel { mode: mode2, ..m }
}

/// One key in a buffer-accumulating mode: Backspace drops the last
/// character, a typed character is appended (in the two hex modes only
/// when it is a hex digit), Enter commits (see [`commit_spec`]), Escape
/// queues the return to regular mode, and everything else is ignored. The
/// second result says whether the quit binding matched, which ends the
/// session.
pub open spec fn modal_key_spec(m: StateModel, k: KeyEvent, kb: Keybinds) -> (StateModel, bool) {
    let buf = match m.mode {
        ModeM::Goto(b) => b,
        ModeM::FindBytes(b) => b,
        ModeM::FindString(b) => b,
        _ => Seq::empty(),
    };
    let hex_only = !(m.mode matches ModeM::FindString(_));
    let m1 = match k.code {
        KeyCode::Backspace => with_buf(
            m,
            if buf.len() > 0 {
                buf.drop_last()
            } else {
                buf
            },
        ),
        KeyCode::Char(c) => if !hex_only || is_hex_digit(c) {
            with_buf(m, buf.push(c))
        } else {
            m
        },
        KeyCode::Enter => commit_spec(m),
        KeyCode::Esc => StateModel { queued: Some(ModeM::Regular), ..m },
        _ => m,
    };
    (m1, keybind_matches(kb.quit, k))
}

/// One key in the find chooser: Escape queues regular mode, the
/// byte-search binding queues an empty byte-pattern input, the text-search
/// binding queues an empty text input; when several match, the later
/// queued mode wins.
pub open spec fn find_menu_spec(m: StateModel, k: KeyEvent, kb: Keybinds) -> StateModel {
    let m1 = if k.code == KeyCode::Esc {
        StateModel { queued: Some(ModeM::Regular), ..m }
    } else {
        m
    };
    let m2 = if keybind_matches(kb.find_binary, k) {
        StateModel { queued: Some(ModeM::FindBytes(Seq::empty())), ..m1 }
    } else {
        m1
    };
    if keybind_matches(kb.find_text, k) {
        StateModel { queued: Some(ModeM::FindString(Seq::empty())), ..m2 }
    } else {
        m2
    }
}

/// Consume the queued mode transition, if any: exactly one per event, so
/// that no key is interpreted twice.
pub open spec fn apply_queued_spec(m: StateModel) -> StateModel {
    match m.queued {
        Some(q) => StateModel { mode: q, queued: None, ..m },
        None => m,
    }
}

/// One terminal event, dispatched by the active mode. Control-C always
/// quits, before any mode looks at the key. A quit outcome ends the
/// session at once, leaving a pending queued transition unapplied; any
/// other outcome ends by consuming the queued transition.
pub open spec fn handle_event_spec(m: StateModel, ev: Event, kb: Keybinds) -> (
    StateModel,
    bool,
    bool,
) {
    match ev {
        Event::Key(k) => {
            if k.code == KeyCode::Char('c') && k.control {
                (m, true, false)
            } else {
                let step = match m.mode {
                    ModeM::Regular => handle_key_spec(m, k, kb),
                    ModeM::Find => (find_menu_spec(m, k, kb), false, false),
                    _ => {
                        let r = modal_key_spec(m, k, kb);
                        (r.0, r.1, false)
                    },
                };
                if step.1 {
                    (step.0, true, step.2)
                } else {
                    (apply_queued_spec(step.0), false, step.2)
                }
            }
        },
        Event::Mouse(me) => (apply_queued_spec(mouse_spec(m, me)), false, false),
        Event::Other => (apply_queued_spec(m), false, false),
    }
}

/// The column after `n` Left steps from `col`.
pub open spec fn col_left_iter(col: usize, alt: bool, n: nat) -> usize
    decreases n,
{
    if n == 0 {
        col
    } else {
        col_left(col_left_iter(col, alt, (n - 1) as nat), alt)
    }
}

/// The column after `n` Right steps from `col`.
pub open spec fn col_right_iter(col: usize, alt: bool, n: nat) -> usize
    decreases n,
{
    if n == 0 {
        col
    } else {
        col_right(col_right_iter(col, alt, (n - 1) as nat), alt)
    }
}

/// Left steps clamp at the left edge: one step never moves the column
/// right, and any number of repeated Left presses starting at column zero
/// stays at zero, in byte mode and in nibble mode alike.
pub proof fn lemma_left_edge_clamps(col: usize, alt: bool, n: nat)
    ensures
        col_left(col, alt) <= col,
        col_left_iter(0, alt, n) == 0,
    decreases n,
{
    if n > 0 {
        lemma_left_edge_clamps(col, alt, (n - 1) as nat);
    }
}

/// Right steps clamp at the right edge: any number of repeated Right
/// presses from a column at or below `0x1e` stays at or below `0x1e` in
/// byte mode, and from a column at or below `0x1f` stays at or below
/// `0x1f` in nibble mode.
pub proof fn lemma_right_edge_clamps(col: usize, n: nat)
    ensures
        col <= 0x1e ==> col_right_iter(col, false, n) <= 0x1e,
        col <= 0x1f ==> col_right_iter(col, true, n) <= 0x1f,
    decreases n,
{
    if n > 0 {
        lemma_right_edge_clamps(col, (n - 1) as nat);
    }
}

/// The state after a successful go-to or search: the view scrolls to the
/// target's row, the target byte's high nibble becomes the selection, and
/// a return to regular mode is queued.
pub open spec fn jumped(m: StateModel, offset: usize) -> StateModel {
    StateModel {
        scroll_pos: (offset / 16) as usize,
        selection: Some((((offset / 16) as usize), ((offset % 16) * 2) as usize)),
        queued: Some(ModeM::Regular),
        ..m
    }
}

/// Committing the active modal input. A go-to parses its buffer as a hex
/// offset inside the document; a byte search decodes its buffer as hex
/// pairs and rejects an empty pattern; a text search looks for the
/// buffer's UTF-8 encoding. On success the state jumps to the found
/// offset; any failure leaves the state exactly as it was, keeping the
/// buffer editable.
pub open spec fn commit_spec(m: StateModel) -> StateModel {
    match m.mode {
        ModeM::Goto(buf) => match parse_offset_spec(buf, m.bytes.len()) {
            Some(o) => jumped(m, o),
            None => m,
        },
        ModeM::FindBytes(buf) => if buf.len() % 2 == 0 && all_hex_digits(buf) && decode_hex_spec(
            buf,
        ).len() > 0 {
            match first_match(m.bytes, decode_hex_spec(buf)) {
                Some(i) => jumped(m, i),
                None => m,
            }
        } else {
            m
        },
        ModeM::FindString(buf) => match first_match(m.bytes, encode_utf8(buf)) {
            Some(i) => jumped(m, i),
            None => m,
        },
        _ => m,
    }
}

impl State {
    /// Scroll and select the byte at `offset`, queueing the return to
    /// regular mode; see [`jumped`].
    fn jump_to(&mut self, offset: usize)
        requires
            old(self).wf(),
            offset < old(self)@.bytes.len(),
        ensures
            final(self).wf(),
            final(self)@ == jumped(old(self)@, offset),
    {
        self.scroll_pos = offset / 16;
        self.selection = Some((offset / 16, (offset % 16) * 2));
        self.queued_input_state = Some(InputState::Regular);
        proof {
            assert(offset / 16 < self.max_rows) by {
                assert(self@.bytes.len() == 16 * (self@.bytes.len() as int / 16) + self@.bytes.len()
                    as int % 16);
            }
            assert(self@ =~= jumped(old(self)@, offset));
        }
    }

    /// Commit the active modal input; see [`commit_spec`]. Only the three
    /// buffer-accumulating modes can commit.
    pub fn commit_input_state(&mut self)
        requires
            old(self).wf(),
            old(self)@.mode matches ModeM::Goto(_) || old(self)@.mode matches ModeM::FindBytes(_)
                || old(self)@.mode matches ModeM::FindString(_),
        ensures
            final(self).wf(),
            final(self)@ == commit_spec(old(self)@),
    {
        let mut cur = InputState::Regular;
        core::mem::swap(&mut self.input_state, &mut cur);
        match cur {
            InputState::Goto(buf) => {
                let r = crate::codec::parse_offset(&buf, self.buffer.len());
                self.input_state = InputState::Goto(buf);
                if let Some(o) = r {
                    self.jump_to(o);
                }
            },
            InputState::FindBytes(buf) => {
                let dec = crate::codec::decode_hex(&buf);
                self.input_state = InputState::FindBytes(buf);
                if let Ok(needle) = dec {
                    if needle.len() > 0 {
                        let r = crate::search::find_bytes(
                            self.buffer.bytes.as_slice(),
                            needle.as_slice(),
                        );
                        if let Some(i) = r {
                            self.jump_to(i);
                        }
                    }
                }
            },
            InputState::FindString(buf) => {
                let r = crate::search::find_text(self.buffer.bytes.as_slice(), &buf);
                self.input_state = InputState::FindString(buf);
                if let Some(i) = r {
                    proof {
                        crate::search::lemma_first_match_bounds(
                            old(self)@.bytes,
                            encode_utf8(old(self)@.mode->FindString_0),
                        );
                    }
                    self.jump_to(i);
                }
            },
            InputState::Regular => {
                proof {
                    assert(false);
                }
            },
            InputState::Find => {
                proof {
                    assert(false);
                }
            },
        }
        proof {
            assert(self@ =~= commit_spec(old(self)@));
        }
    }

    /// Apply one Up step; see [`step_up`].
    pub fn move_up(&mut self)
        requires
            old(self).wf(),
        ensures
            final(self).wf(),
            final(self)@ == step_up(old(self)@),
    {
        match self.selection {
            Some((row, col)) => {
                let row2 = if row > 0 {
                    row - 1
                } else {
                    0
                };
                self.selection = Some((row2, col));
                if row2 < self.scroll_pos {
                    self.scroll_pos = self.scroll_pos - 1;
                }
            },
            None => {
                if self.scroll_pos > 0 {
                    self.scroll_pos = self.scroll_pos - 1;
                }
            },
        }
        proof {
            assert(self@ =~= step_up(old(self)@));
        }
    }

    /// Apply one Down step; see [`step_down`].
    pub fn move_down(&mut self)
        requires
            old(self).wf(),
        ensures
            final(self).wf(),
            final(self)@ == step_down(old(self)@),
    {
        match self.selection {
            Some((row, col)) => {
                let row2 = if row + 1 < self.max_rows {
                    row + 1
                } else {
                    row
                };
                self.selection = Some((row2, col));
                let vis = self.visible_content_rows();
                if row2 >= self.scroll_pos + vis {
                    self.scroll_pos = self.scroll_pos + 1;
                }
            },
            None => {
                if self.scroll_pos < self.max_rows {
                    self.scroll_pos = self.scroll_pos + 1;
                }
            },
        }
        proof {
            assert(self@ =~= step_down(old(self)@));
        }
    }

    /// Apply one Left step of the column; see [`step_left`].
    pub fn move_left(&mut self, alt: bool)
        requires
            old(self).wf(),
        ensures
            final(self).wf(),
            final(self)@ == step_left(old(self)@, alt),
    {
        match self.selection {
            Some((row, col)) => {
                let col2 = if !alt {
                    let c = if col >= 2 {
                        col - 2
                    } else {
                        0
                    };
                    c / 2 * 2
                } else {
                    if col >= 1 {
                        col - 1
                    } else {
                        0
                    }
                };
                self.selection = Some((row, col2));
            },
            None => {},
        }
        proof {
            assert(self@ =~= step_left(old(self)@, alt));
        }
    }

    /// Apply one Right step of the column; see [`step_right`].
    pub fn move_right(&mut self, alt: bool)
        requires
            old(self).wf(),
        ensures
            final(self).wf(),
            final(self)@ == step_right(old(self)@, alt),
    {
        match self.selection {
            Some((row, col)) => {
                let col2 = if !alt {
                    if col < 0x1e {
                        (col + 2) / 2 * 2
                    } else {
                        col
                    }
                } else {
                    if col < 0x1f {
                        col + 1
                    } else {
                        col
                    }
                };
                self.selection = Some((row, col2));
            },
            None => {},
        }
        proof {
            assert(self@ =~= step_right(old(self)@, alt));
        }
    }

    /// Toggle between cursor and pager mode; see [`step_toggle`].
    pub fn toggle_cursor(&mut self)
        requires
            old(self).wf(),
        ensures
            final(self).wf(),
            final(self)@ == step_toggle(old(self)@),
    {
        match self.selection {
            Some(_) => {
                self.selection = None;
            },
            None => {
                let row = if self.scroll_pos < self.max_rows {
                    self.scroll_pos
                } else {
                    self.max_rows - 1
                };
                self.selection = Some((row, 0));
            },
        }
        proof {
            assert(self@ =~= step_toggle(old(self)@));
        }
    }

    /// Apply a Home key; see [`step_home`].
    pub fn jump_home(&mut self, ctrl: bool)
        requires
            old(self).wf(),
        ensures
            final(self).wf(),
            final(self)@ == step_home(old(self)@, ctrl),
    {
        if ctrl {
            self.scroll_pos = 0;
        }
        match self.selection {
            Some((row, _col)) => {
                if ctrl {
                    self.selection = Some((0, 0));
                } else {
                    self.selection = Some((row, 0));
                }
            },
            None => {},
        }
        proof {
            assert(self@ =~= step_home(old(self)@, ctrl));
        }
    }

    /// Apply an End key; see [`step_end`].
    pub fn jump_end(&mut self, ctrl: bool, alt: bool)
        requires
            old(self).wf(),
        ensures
            final(self).wf(),
            final(self)@ == step_end(old(self)@, ctrl, alt),
    {
        let len = self.buffer.len();
        if ctrl {
            let vis = self.visible_content_rows();
            let target = if len / 16 + 1 >= vis {
                len / 16 + 1 - vis
            } else {
                0
            };
            if self.scroll_pos < target {
                self.scroll_pos = target;
            }
        }
        match self.selection {
            Some((row, _col)) => {
                let row2 = if ctrl {
                    (len - 1) / 16
                } else {
                    row
                };
                let cdigit = if ctrl {
                    ((len - 1) % 16) * 2 + 1
                } else {
                    0x1f
                };
                let col2 = if alt {
                    cdigit
                } else {
                    cdigit - 1
                };
                self.selection = Some((row2, col2));
            },
            None => {},
        }
        proof {
            assert(self@ =~= step_end(old(self)@, ctrl, alt));
        }
    }

    /// Dispatch one key event in regular mode. The bound actions are
    /// checked in a fixed order and every one that matches fires; the quit
    /// action then cuts dispatch short, before the built-in Home, End,
    /// Escape and digit keys are interpreted. A requested save is reported
    /// in the outcome for the host to perform; see [`handle_key_spec`].
    pub fn handle_key(&mut self, event: KeyEvent, keybinds: &Keybinds) -> (r: KeyOutcome)
        requires
            old(self).wf(),
        ensures
            final(self).wf(),
            final(self)@ == handle_key_spec(old(self)@, event, *keybinds).0,
            r.quit == handle_key_spec(old(self)@, event, *keybinds).1,
            r.save == handle_key_spec(old(self)@, event, *keybinds).2,
    {
        let ghost m0 = self@;
        if event.code == KeyCode::Up || keybinds.up.matches(event) {
            self.move_up();
        }
        let ghost m1 = self@;
        if event.code == KeyCode::Down || keybinds.down.matches(event) {
            self.move_down();
        }
        let ghost m2 = self@;
        if event.code == KeyCode::Left || keybinds.left.matches(event) {
            self.move_left(event.alt);
        }
        let ghost m3 = self@;
        if event.code == KeyCode::Right || keybinds.right.matches(event) {
            self.move_right(event.alt);
        }
        let ghost m4 = self@;
        if keybinds.toggle_cursor.matches(event) {
            self.toggle_cursor();
        }
        let ghost m5 = self@;
        if keybinds.go_to.matches(event) {
            self.queued_input_state = Some(InputState::Goto(Vec::new()));
        }
        let ghost m6 = self@;
        if keybinds.find.matches(event) {
            self.queued_input_state = Some(InputState::Find);
        }
        let ghost m7 = self@;
        proof {
            assert(m7 =~= regular_binds_spec(m0, event, *keybinds));
        }
        let save = keybinds.save.matches(event);
        if keybinds.quit.matches(event) {
            return KeyOutcome { quit: true, save };
        }
        match event.code {
            KeyCode::Home => {
                self.jump_home(event.control);
            },
            KeyCode::End => {
                self.jump_end(event.control, event.alt);
            },
            KeyCode::Esc => {
                if self.selection.is_some() {
                    self.selection = None;
                    proof {
                        assert(self@ =~= (StateModel { selection: None, ..m7 }));
                    }
                } else {
                    return KeyOutcome { quit: true, save };
                }
            },
            KeyCode::Char(c) => {
                self.type_digit(c);
            },
            _ => {},
        }
        KeyOutcome { quit: false, save }
    }

    /// Place the selection from a mouse press; see [`mouse_spec`].
    pub fn handle_mouse(&mut self, me: MouseEvent)
        requires
            old(self).wf(),
        ensures
            final(self).wf(),
            final(self)@ == mouse_spec(old(self)@, me),
    {
        if !matches!(self.input_state, InputState::Regular) {
            return ;
        }
        if !me.left_press {
            return ;
        }
        let vis = self.visible_content_rows();
        let mut row0 = if me.row >= 2 {
            me.row as usize - 2
        } else {
            0
        };
        if row0 >= vis {
            row0 = vis - 1;
        }
        let sel_row = if row0 + self.scroll_pos < self.max_rows {
            row0 + self.scroll_pos
        } else {
            self.max_rows - 1
        };
        let col: usize;
        if me.column >= 0x27 {
            let raw = me.column as usize - 0x27;
            let mut c = raw / 3 * 2;
            if me.alt {
                c += raw % 3;
            }
            if c >= 0x10 {
                c = 0xf;
            }
            col = c + 0x10;
        } else {
            let raw = if me.column >= 0xe {
                me.column as usize - 0xe
            } else {
                0
            };
            let mut c = raw / 3 * 2;
            if me.alt {
                c += raw % 3;
            }
            if c >= 0x10 {
                c = 0xf;
            }
            col = c;
        }
        self.selection = Some((sel_row, col));
        proof {
            assert(self@ =~= mouse_spec(old(self)@, me));
        }
    }

    /// Handle one key in a buffer-accumulating mode; see
    /// [`modal_key_spec`]. Returns whether the quit binding matched.
    fn modal_key(&mut self, k: KeyEvent, keybinds: &Keybinds) -> (r: bool)
        requires
            old(self).wf(),
            old(self)@.mode matches ModeM::Goto(_) || old(self)@.mode matches ModeM::FindBytes(_)
                || old(self)@.mode matches ModeM::FindString(_),
        ensures
            final(self).wf(),
            final(self)@ == modal_key_spec(old(self)@, k, *keybinds).0,
            r == modal_key_spec(old(self)@, k, *keybinds).1,
    {
        match k.code {
            KeyCode::Enter => {
                self.commit_input_state();
            },
            KeyCode::Esc => {
                self.queued_input_state = Some(InputState::Regular);
            },
            KeyCode::Backspace => {
                let mut cur = InputState::Regular;
                core::mem::swap(&mut self.input_state, &mut cur);
                match cur {
                    InputState::Goto(mut b) => {
                        if b.len() > 0 {
                            b.pop();
                        }
                        self.input_state = InputState::Goto(b);
                    },
                    InputState::FindBytes(mut b) => {
                        if b.len() > 0 {
                            b.pop();
                        }
                        self.input_state = InputState::FindBytes(b);
                    },
                    InputState::FindString(mut b) => {
                        if b.len() > 0 {
                            b.pop();
                        }
                        self.input_state = InputState::FindString(b);
                    },
                    _ => {
                        proof {
                            assert(false);
                        }
                    },
                }
            },
            KeyCode::Char(c) => {
                let mut cur = InputState::Regular;
                core::mem::swap(&mut self.input_state, &mut cur);
                match cur {
                    InputState::Goto(mut b) => {
                        if crate::codec::hex_digit_val(c).is_some() {
                            b.push(c);
                        }
                        self.input_state = InputState::Goto(b);
                    },
                    InputState::FindBytes(mut b) => {
                        if crate::codec::hex_digit_val(c).is_some() {
                            b.push(c);
                        }
                        self.input_state = InputState::FindBytes(b);
                    },
                    InputState::FindString(mut b) => {
                        b.push(c);
                        self.input_state = InputState::FindString(b);
                    },
                    _ => {
                        proof {
                            assert(false);
                        }
                    },
                }
            },
            _ => {},
        }
        proof {
            assert(self@ =~= modal_key_spec(old(self)@, k, *keybinds).0);
        }
        keybinds.quit.matches(k)
    }

    /// Handle one key in the find chooser; see [`find_menu_spec`].
    fn find_menu_key(&mut self, k: KeyEvent, keybinds: &Keybinds)
        requires
            old(self).wf(),
        ensures
            final(self).wf(),
            final(self)@ == find_menu_spec(old(self)@, k, *keybinds),
    {
        if k.code == KeyCode::Esc {
            self.queued_input_state = Some(InputState::Regular);
        }
        if keybinds.find_binary.matches(k) {
            self.queued_input_state = Some(InputState::FindBytes(Vec::new()));
        }
        if keybinds.find_text.matches(k) {
            self.queued_input_state = Some(InputState::FindString(Vec::new()));
        }
        proof {
            assert(self@ =~= find_menu_spec(old(self)@, k, *keybinds));
        }
    }

    /// Consume the queued mode transition; see [`apply_queued_spec`].
    fn apply_queued(&mut self)
        requires
            old(self).wf(),
        ensures
            final(self).wf(),
            final(self)@ == apply_queued_spec(old(self)@),
    {
        let mut q: Option<InputState> = None;
        core::mem::swap(&mut self.queued_input_state, &mut q);
        if let Some(next) = q {
            self.input_state = next;
        }
        proof {
            assert(self@ =~= apply_queued_spec(old(self)@));
        }
    }

    /// Process one terminal event to completion; see [`handle_event_spec`].
    /// The returned outcome tells the host whether to end the session and
    /// whether to save the document (reporting the result back through
    /// [`State::mark_saved`] or [`State::mark_save_failed`]).
    pub fn handle_event(&mut self, event: Event, keybinds: &Keybinds) -> (r: KeyOutcome)
        requires
            old(self).wf(),
        ensures
            final(self).wf(),
            final(self)@ == handle_event_spec(old(self)@, event, *keybinds).0,
            r.quit == handle_event_spec(old(self)@, event, *keybinds).1,
            r.save == handle_event_spec(old(self)@, event, *keybinds).2,
    {
        match event {
            Event::Key(k) => {
                if k.code == KeyCode::Char('c') && k.control {
                    return KeyOutcome { quit: true, save: false };
                }
                if matches!(self.input_state, InputState::Regular) {
                    let o = self.handle_key(k, keybinds);
                    if o.quit {
                        return KeyOutcome { quit: true, save: o.save };
                    }
                    self.apply_queued();
                    KeyOutcome { quit: false, save: o.save }
                } else if matches!(self.input_state, InputState::Find) {
                    self.find_menu_key(k, keybinds);
                    self.apply_queued();
                    KeyOutcome { quit: false, save: false }
                } else {
                    let quit = self.modal_key(k, keybinds);
                    if quit {
                        return KeyOutcome { quit: true, save: false };
                    }
                    self.apply_queued();
                    KeyOutcome { quit: false, save: false }
                }
            },
            Event::Mouse(me) => {
                self.handle_mouse(me);
                self.apply_queued();
                KeyOutcome { quit: false, save: false }
            },
            Event::Other => {
                self.apply_queued();
                KeyOutcome { quit: false, save: false }
            },
        }
    }

    /// Apply a typed character in cursor mode; see [`step_digit`].
    pub fn type_digit(&mut self, c: char)
        requires
            old(self).wf(),
        ensures
            final(self).wf(),
            final(self)@ == step_digit(old(self)@, c),
    {
        let (row, col) = match self.selection {
            Some(sel) => sel,
            None => {
                return ;
            },
        };
        let v = c as u32;
        if !(0x30 <= v && v <= 0x39) {
            return ;
        }
        let d = (v - 0x30) as u8;
        proof {
            assert(self.max_rows * 16 <= self@.bytes.len() + 15) by {
                assert(self@.bytes.len() == 16 * (self@.bytes.len() as int / 16) + self@.bytes.len()
                    as int % 16);
            }
        }
        let offset = row * 16 + col / 2;
        if offset < self.buffer.len() {
            self.buffer.write_nibble(offset, col % 2, d);
            let col2 = col + 1;
            if col2 >= 0x20 {
                if row + 1 < self.max_rows {
                    self.selection = Some((row + 1, 0));
                } else {
                    self.selection = Some((row, 0x1f));
                }
            } else {
                self.selection = Some((row, col2));
            }
        }
        proof {
            assert(self@ =~= step_digit(old(self)@, c));
        }
    }
}

} // verus!

//! Keybinding configuration: one letter per action, optionally with a
//! control-modifier marker, matched case-insensitively against key events.

use vstd::prelude::*;
use crate::input::{KeyCode, KeyEvent};

verus! {

/// The lower-case form of an ASCII letter code; other codes stay as they are.
pub open spec fn to_lower_val(v: u32) -> u32 {
    if 0x41 <= v <= 0x5A {
        (v + 0x20) as u32
    } else {
        v
    }
}

/// The upper-case form of an ASCII letter code; other codes stay as they are.
pub open spec fn to_upper_val(v: u32) -> u32 {
    if 0x61 <= v <= 0x7A {
        (v - 0x20) as u32
    } else {
        v
    }
}

/// Whether the configured letter `k` matches the typed character `c`,
/// comparing case-insensitively on ASCII letters.
pub open spec fn key_char_matches(k: char, c: char) -> bool {
    to_lower_val(k as u32) == c as u32 || to_upper_val(k as u32) == c as u32
}

/// One keybinding: a letter, optionally requiring the control modifier.
#[derive(Clone, Copy, Debug, PartialEq, Eq, Structural)]
pub struct Keybind {
    pub control: bool,
    pub key: char,
}

/// Whether `kb` fires on `event`: the event must carry a character key,
/// the control modifier must agree, and the letters must match
/// case-insensitively.
pub open spec fn keybind_matches(kb: Keybind, event: KeyEvent) -> bool {
    match event.code {
        KeyCode::Char(c) => kb.control == event.control && key_char_matches(kb.key, c),
        _ => false,
    }
}

/// What [`Keybind::parse`] accepts: any number of leading `'^'` markers
/// followed by exactly one key character; the markers ask for control.
pub open spec fn keybind_parse_spec(s: Seq<char>) -> Option<Keybind> {
    if s.len() >= 1 && s.last() != '^' && (forall|i: int| 0 <= i < s.len() - 1 ==> s[i] == '^') {
        Some(Keybind { control: s.len() >= 2, key: s.last() })
    } else {
        None
    }
}

impl Keybind {
    /// Executable twin of [`keybind_matches`].
    pub fn matches(self, event: KeyEvent) -> (r: bool)
        ensures
            r == keybind_matches(self, event),
    {
        let c = match event.code {
            KeyCode::Char(c) => c,
            _ => {
                return false;
            },
        };
        let kv = self.key as u32;
        let cv = c as u32;
        let lower = if 0x41 <= kv && kv <= 0x5A {
            kv + 0x20
        } else {
            kv
        };
        let upper = if 0x61 <= kv && kv <= 0x7A {
            kv - 0x20
        } else {
            kv
        };
        let char_matches = lower == cv || upper == cv;
        self.control == event.control && char_matches
    }

    /// Read a keybinding definition: optional `'^'` control markers, then
    /// the key character, and nothing after it.
    pub fn parse(text: &Vec<char>) -> (r: Option<Keybind>)
        ensures
            r == keybind_parse_spec(text@),
    {
        let n = text.len();
        let mut control = false;
        let mut i: usize = 0;
        while i < n
            invariant
                n == text@.len(),
                0 <= i <= n,
                forall|j: int| 0 <= j < i ==> text@[j] == '^',
                control == (i > 0),
            decreases n - i,
        {
            let c = text[i];
            if c as u32 == 0x5E {
                proof {
                    vstd::utf8::char_u32_cast(c, 0x5E);
                    assert(('^' as u32) == 0x5E);
                    vstd::utf8::char_u32_cast('^', 0x5E);
                }
                control = true;
            } else {
                proof {
                    if c == '^' {
                        assert(c as u32 == 0x5E);
                    }
                }
                if i + 1 == n {
                    return Some(Keybind { control, key: c });
                } else {
                    return None;
                }
            }
            i += 1;
        }
        None
    }

    /// The characters that display this keybinding: the control marker
    /// `'^'` when control is required, then the key character.
    pub fn display_chars(&self) -> (r: Vec<char>)
        ensures
            r@ == if self.control {
                seq!['^', self.key]
            } else {
                seq![self.key]
            },
    {
        let mut out: Vec<char> = Vec::new();
        if self.control {
            out.push('^');
        }
        out.push(self.key);
        proof {
            if self.control {
                assert(out@ =~= seq!['^', self.key]);
            } else {
                assert(out@ =~= seq![self.key]);
            }
        }
        out
    }
}

/// The keybinding of every action the editor knows.
#[derive(Clone, Copy, Debug, PartialEq, Eq, Structural)]
pub struct Keybinds {
    pub quit: Keybind,
    pub save: Keybind,
    pub left: Keybind,
    pub down: Keybind,
    pub up: Keybind,
    pub right: Keybind,
    pub toggle_cursor: Keybind,
    pub go_to: Keybind,
    pub find: Keybind,
    pub find_binary: Keybind,
    pub find_text: Keybind,
}

/// The editor's configuration.
#[derive(Clone, Copy, Debug, PartialEq, Eq, Structural)]
pub struct Config {
    pub keybinds: Keybinds,
}

} // verus!

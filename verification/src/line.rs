//! The row-composition buffer: styled text fragments accumulate into runs
//! of one color, and each run becomes a single draw call when flushed. An
//! absolute-column seek supports the fixed-column layout of the hex and
//! text panels. The host paints the finished draw calls.

use vstd::prelude::*;

verus! {

/// Logical colors of rendered fragments; how each maps to a concrete
/// terminal style is the host's concern.
#[derive(Clone, Copy, Debug, PartialEq, Eq, Structural)]
pub enum LineColor {
    Regular,
    Emphasis,
    Highlighted,
    TextCursor,
    Modified,
    Address,
    Zero,
}

/// One styled draw call: paint `text` at absolute column `x` of the row,
/// with `width` columns of room remaining there.
#[derive(Debug)]
pub struct DrawCall {
    pub x: usize,
    pub width: usize,
    pub color: LineColor,
    pub text: Vec<char>,
}

/// Abstract counterpart of [`DrawCall`].
#[verifier::ext_equal]
pub struct CallM {
    pub x: usize,
    pub width: usize,
    pub color: LineColor,
    pub text: Seq<char>,
}

impl View for DrawCall {
    type V = CallM;

    open spec fn view(&self) -> CallM {
        CallM { x: self.x, width: self.width, color: self.color, text: self.text@ }
    }
}

/// `a + b`, stopping at the largest `usize`.
pub open spec fn sat_add(a: usize, b: nat) -> usize {
    if a + b > usize::MAX {
        usize::MAX
    } else {
        (a + b) as usize
    }
}

/// `a - b`, stopping at zero.
pub open spec fn sat_sub(a: usize, b: nat) -> usize {
    if b > a {
        0
    } else {
        (a - b) as usize
    }
}

/// Abstract counterpart of [`LineWriter`]: the emitted calls, the pending
/// run with its color, the output position and remaining width, and the
/// row's overall width that a seek measures against.
#[verifier::ext_equal]
pub struct WriterM {
    pub calls: Seq<CallM>,
    pub pending: Seq<char>,
    pub color: LineColor,
    pub x: usize,
    pub width: usize,
    pub owidth: usize,
}

/// Flushing: a non-empty pending run becomes one draw call at the current
/// position, and the position advances by the run's length; an empty run
/// changes nothing.
pub open spec fn m_flush(m: WriterM) -> WriterM {
    if m.pending.len() == 0 {
        m
    } else {
        WriterM {
            calls: m.calls.push(
                CallM { x: m.x, width: m.width, color: m.color, text: m.pending },
            ),
            pending: Seq::empty(),
            x: sat_add(m.x, m.pending.len()),
            width: sat_sub(m.width, m.pending.len()),
            ..m
        }
    }
}

/// Writing styled text: a change of color first flushes the pending run,
/// then the text joins the (possibly fresh) pending run.
pub open spec fn m_write(m: WriterM, color: LineColor, text: Seq<char>) -> WriterM {
    let m1 = if m.color == color {
        m
    } else {
        WriterM { color, ..m_flush(m) }
    };
    WriterM { pending: m1.pending + text, ..m1 }
}

/// Writing raw text: it joins the pending run and inherits its color.
pub open spec fn m_write_raw(m: WriterM, text: Seq<char>) -> WriterM {
    WriterM { pending: m.pending + text, ..m }
}

/// Seeking: flush, then continue at the given absolute column, with the
/// width that remains of the row from there.
pub open spec fn m_seek(m: WriterM, pos: usize) -> WriterM {
    let m1 = m_flush(m);
    WriterM { x: pos, width: sat_sub(m.owidth, pos as nat), ..m1 }
}

/// The composition buffer for one terminal row.
pub struct LineWriter {
    /// The draw calls emitted so far.
    pub calls: Vec<DrawCall>,
    /// The pending run's text.
    pub buffer: Vec<char>,
    /// The pending run's color.
    pub cur_color: LineColor,
    /// Output column of the pending run.
    pub x: usize,
    /// Columns remaining from `x` to the row's end.
    pub width: usize,
    /// The row's overall width, the reference for a seek.
    pub original_width: usize,
}

impl View for LineWriter {
    type V = WriterM;

    open spec fn view(&self) -> WriterM {
        WriterM {
            calls: self.calls@.map_values(|c: DrawCall| c@),
            pending: self.buffer@,
            color: self.cur_color,
            x: self.x,
            width: self.width,
            owidth: self.original_width,
        }
    }
}

impl LineWriter {
    /// Start composing a row at column `x`, with `width` columns of room.
    pub fn new(x: usize, width: usize) -> (r: LineWriter)
        ensures
            r@ == (WriterM {
                calls: Seq::empty(),
                pending: Seq::empty(),
                color: LineColor::Regular,
                x,
                width,
                owidth: width,
            }),
    {
        let r = LineWriter {
            calls: Vec::new(),
            buffer: Vec::new(),
            cur_color: LineColor::Regular,
            x,
            width,
            original_width: width,
        };
        proof {
            assert(r@ =~= (WriterM {
                calls: Seq::empty(),
                pending: Seq::empty(),
                color: LineColor::Regular,
                x,
                width,
                owidth: width,
            }));
        }
        r
    }

    /// Emit the pending run as one draw call; see [`m_flush`].
    pub fn flush(&mut self)
        ensures
            final(self)@ == m_flush(old(self)@),
    {
        if self.buffer.is_empty() {
            return ;
        }
        let mut text: Vec<char> = Vec::new();
        core::mem::swap(&mut self.buffer, &mut text);
        let n = text.len();
        self.calls.push(
            DrawCall { x: self.x, width: self.width, color: self.cur_color, text },
        );
        self.x = self.x.saturating_add(n);
        self.width = self.width.saturating_sub(n);
        proof {
            assert(self@.calls =~= m_flush(old(self)@).calls);
            assert(self@ =~= m_flush(old(self)@));
        }
    }

    /// Append styled text to the current run, starting a new run when the
    /// color changes; see [`m_write`].
    pub fn write_str(&mut self, color: LineColor, content: &str)
        ensures
            final(self)@ == m_write(old(self)@, color, content@),
    {
        if self.cur_color != color {
            self.flush();
            self.cur_color = color;
        }
        let ghost m1 = self@;
        let n = content.unicode_len();
        let mut i: usize = 0;
        while i < n
            invariant
                n == content@.len(),
                0 <= i <= n,
                self@ == (WriterM { pending: m1.pending + content@.take(i as int), ..m1 }),
            decreases n - i,
        {
            let c = content.get_char(i);
            self.buffer.push(c);
            proof {
                assert(m1.pending + content@.take(i + 1) =~= (m1.pending + content@.take(
                    i as int,
                )).push(content@[i as int]));
                assert(self@ =~= (WriterM { pending: m1.pending + content@.take(i + 1), ..m1 }));
            }
            i += 1;
        }
        proof {
            assert(content@.take(n as int) =~= content@);
            assert(self@ =~= m_write(old(self)@, color, content@));
        }
    }

    /// Append a sequence of styled characters; the same operation as
    /// [`LineWriter::write_str`].
    pub fn write_chars(&mut self, color: LineColor, content: &Vec<char>)
        ensures
            final(self)@ == m_write(old(self)@, color, content@),
    {
        if self.cur_color != color {
            self.flush();
            self.cur_color = color;
        }
        let ghost m1 = self@;
        let n = content.len();
        let mut i: usize = 0;
        while i < n
            invariant
                n == content@.len(),
                0 <= i <= n,
                self@ == (WriterM { pending: m1.pending + content@.take(i as int), ..m1 }),
            decreases n - i,
        {
            self.buffer.push(content[i]);
            proof {
                assert(m1.pending + content@.take(i + 1) =~= (m1.pending + content@.take(
                    i as int,
                )).push(content@[i as int]));
                assert(self@ =~= (WriterM { pending: m1.pending + content@.take(i + 1), ..m1 }));
            }
            i += 1;
        }
        proof {
            assert(content@.take(n as int) =~= content@);
            assert(self@ =~= m_write(old(self)@, color, content@));
        }
    }

    /// Append one styled character; see [`m_write`].
    pub fn write_char(&mut self, color: LineColor, content: char)
        ensures
            final(self)@ == m_write(old(self)@, color, seq![content]),
    {
        if self.cur_color != color {
            self.flush();
            self.cur_color = color;
        }
        self.buffer.push(content);
        proof {
            assert(self@ =~= m_write(old(self)@, color, seq![content]));
        }
    }

    /// Append styled text; the same operation as [`LineWriter::write_str`].
    pub fn write(&mut self, color: LineColor, content: &str)
        ensures
            final(self)@ == m_write(old(self)@, color, content@),
    {
        self.write_str(color, content);
    }

    /// Append text that inherits the current run's color, with no flush;
    /// see [`m_write_raw`].
    pub fn write_whitespace(&mut self, content: &str)
        ensures
            final(self)@ == m_write_raw(old(self)@, content@),
    {
        let ghost m0 = self@;
        let n = content.unicode_len();
        let mut i: usize = 0;
        while i < n
            invariant
                n == content@.len(),
                0 <= i <= n,
                self@ == (WriterM { pending: m0.pending + content@.take(i as int), ..m0 }),
            decreases n - i,
        {
            let c = content.get_char(i);
            self.buffer.push(c);
            proof {
                assert(m0.pending + content@.take(i + 1) =~= (m0.pending + content@.take(
                    i as int,
                )).push(content@[i as int]));
                assert(self@ =~= (WriterM { pending: m0.pending + content@.take(i + 1), ..m0 }));
            }
            i += 1;
        }
        proof {
            assert(content@.take(n as int) =~= content@);
            assert(self@ =~= m_write_raw(old(self)@, content@));
        }
    }

    /// Flush, then continue at the absolute column `x_position`; see
    /// [`m_seek`].
    pub fn seek(&mut self, x_position: usize)
        ensures
            final(self)@ == m_seek(old(self)@, x_position),
    {
        self.flush();
        self.x = x_position;
        self.width = self.original_width.saturating_sub(x_position);
        proof {
            assert(self@ =~= m_seek(old(self)@, x_position));
        }
    }
}

} // verus!

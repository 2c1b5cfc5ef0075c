//! Composition of the visible rows: the address / hex / ASCII line of each
//! document row, and the status line, assembled through the line writer
//! into styled draw calls. The contracts state, cell by cell, which
//! characters appear in which color, and at which column each draw call
//! starts.

use vstd::prelude::*;
use crate::buffer::bit_set;
use crate::codec::{format_hex, hex_char, hex_char_of, hex_padded};
use crate::line::{CallM, DrawCall, LineColor, LineWriter, WriterM, m_flush, m_seek, m_write,
    sat_add,
    m_write_raw};
use crate::cfg::Keybinds;
use crate::state::{InputState, ModeM, State};

verus! {

/// Characters of `s` paired with one color.
pub open spec fn cells_of(s: Seq<char>, color: LineColor) -> Seq<(char, LineColor)> {
    s.map_values(|c: char| (c, color))
}

/// The cells a single draw call paints.
pub open spec fn call_cells(c: CallM) -> Seq<(char, LineColor)> {
    cells_of(c.text, c.color)
}

/// The cells a sequence of draw calls paints, in order.
pub open spec fn calls_cells(cs: Seq<CallM>) -> Seq<(char, LineColor)>
    decreases cs.len(),
{
    if cs.len() == 0 {
        Seq::empty()
    } else {
        calls_cells(cs.drop_last()) + call_cells(cs.last())
    }
}

/// Total text length of a sequence of draw calls.
pub open spec fn total_len(cs: Seq<CallM>) -> nat
    decreases cs.len(),
{
    if cs.len() == 0 {
        0
    } else {
        total_len(cs.drop_last()) + cs.last().text.len()
    }
}

/// Each call starts where the previous one ended, measured from `base`
/// with the writer's saturating position arithmetic.
pub open spec fn positioned(cs: Seq<CallM>, base: usize) -> bool {
    forall|j: int| 0 <= j < cs.len() ==> #[trigger] cs[j].x == sat_add(base, total_len(cs.take(j)))
}

/// Saturating addition accumulates: adding in two steps is adding the sum.
proof fn lemma_sat_add_assoc(a: usize, b: nat, c: nat)
    ensures
        sat_add(sat_add(a, b), c) == sat_add(a, b + c),
{
}

proof fn lemma_calls_cells_push(cs: Seq<CallM>, c: CallM)
    ensures
        calls_cells(cs.push(c)) == calls_cells(cs) + call_cells(c),
{
    assert(cs.push(c).drop_last() =~= cs);
    assert(cs.push(c).last() == c);
}

proof fn lemma_total_len_push(cs: Seq<CallM>, c: CallM)
    ensures
        total_len(cs.push(c)) == total_len(cs) + c.text.len(),
{
    assert(cs.push(c).drop_last() =~= cs);
}

proof fn lemma_positioned_push(cs: Seq<CallM>, base: usize, c: CallM)
    requires
        positioned(cs, base),
        c.x == sat_add(base, total_len(cs)),
    ensures
        positioned(cs.push(c), base),
{
    let t = cs.push(c);
    assert forall|j: int| 0 <= j < t.len() implies #[trigger] t[j].x == sat_add(
        base,
        total_len(t.take(j)),
    ) by {
        if j < cs.len() {
            assert(t.take(j) =~= cs.take(j));
            assert(t[j] == cs[j]);
        } else {
            assert(t.take(j) =~= cs);
        }
    }
}

/// Invariant tying a writer to the cells composed through it: the first
/// `k` calls (the sealed earlier segment) paint `left` from column
/// `base1`, and the remaining calls plus the pending run paint `seg` from
/// column `base2`, where the cursor continues.
pub open spec fn seg_ok(
    m: WriterM,
    k: int,
    base1: usize,
    base2: usize,
    left: Seq<(char, LineColor)>,
    seg: Seq<(char, LineColor)>,
) -> bool {
    &&& 0 <= k <= m.calls.len()
    &&& calls_cells(m.calls.take(k)) == left
    &&& calls_cells(m.calls.skip(k)) + cells_of(m.pending, m.color) == seg
    &&& positioned(m.calls.take(k), base1)
    &&& positioned(m.calls.skip(k), base2)
    &&& m.x == sat_add(base2, total_len(m.calls.skip(k)))
    &&& total_len(m.calls.skip(k)) + m.pending.len() == seg.len()
}

proof fn lemma_seg_flush(
    m: WriterM,
    k: int,
    base1: usize,
    base2: usize,
    left: Seq<(char, LineColor)>,
    seg: Seq<(char, LineColor)>,
)
    requires
        seg_ok(m, k, base1, base2, left, seg),
    ensures
        seg_ok(m_flush(m), k, base1, base2, left, seg),
        m_flush(m).pending.len() == 0,
        m_flush(m).color == m.color,
        m.calls.len() <= m_flush(m).calls.len(),
{
    let mf = m_flush(m);
    if m.pending.len() == 0 {
        assert(cells_of(m.pending, m.color) =~= Seq::<(char, LineColor)>::empty());
        assert(calls_cells(m.calls.skip(k)) =~= seg);
    } else {
        let c = CallM { x: m.x, width: m.width, color: m.color, text: m.pending };
        assert(mf.calls =~= m.calls.push(c));
        assert(m.calls.push(c).take(k) =~= m.calls.take(k));
        assert(m.calls.push(c).skip(k) =~= m.calls.skip(k).push(c));
        lemma_calls_cells_push(m.calls.skip(k), c);
        lemma_total_len_push(m.calls.skip(k), c);
        lemma_positioned_push(m.calls.skip(k), base2, c);
        lemma_sat_add_assoc(base2, total_len(m.calls.skip(k)), m.pending.len());
        assert(calls_cells(mf.calls.skip(k)) =~= seg);
        assert(cells_of(mf.pending, mf.color) =~= Seq::<(char, LineColor)>::empty());
        assert(calls_cells(mf.calls.skip(k)) + cells_of(mf.pending, mf.color) =~= seg);
    }
}

proof fn lemma_seg_write(
    m: WriterM,
    k: int,
    base1: usize,
    base2: usize,
    left: Seq<(char, LineColor)>,
    seg: Seq<(char, LineColor)>,
    color: LineColor,
    t: Seq<char>,
)
    requires
        seg_ok(m, k, base1, base2, left, seg),
    ensures
        seg_ok(m_write(m, color, t), k, base1, base2, left, seg + cells_of(t, color)),
        m_write(m, color, t).color == color,
{
    let mw = m_write(m, color, t);
    if m.color == color {
        assert(cells_of(m.pending + t, color) =~= cells_of(m.pending, m.color) + cells_of(
            t,
            color,
        ));
        assert(calls_cells(mw.calls.skip(k)) + cells_of(mw.pending, mw.color) =~= seg + cells_of(
            t,
            color,
        ));
    } else {
        lemma_seg_flush(m, k, base1, base2, left, seg);
        let mf = m_flush(m);
        assert(cells_of(mf.pending, mf.color) =~= Seq::<(char, LineColor)>::empty());
        assert(cells_of(mf.pending, color) =~= Seq::<(char, LineColor)>::empty());
        assert(mw.calls == mf.calls);
        assert(mw.pending =~= mf.pending + t);
        assert(mw.pending =~= t);
        assert(cells_of(mw.pending, mw.color) =~= cells_of(t, color));
        assert(calls_cells(mw.calls.skip(k)) + cells_of(mw.pending, mw.color) =~= seg + cells_of(
            t,
            color,
        ));
    }
}

proof fn lemma_seg_write_raw(
    m: WriterM,
    k: int,
    base1: usize,
    base2: usize,
    left: Seq<(char, LineColor)>,
    seg: Seq<(char, LineColor)>,
    t: Seq<char>,
)
    requires
        seg_ok(m, k, base1, base2, left, seg),
    ensures
        seg_ok(m_write_raw(m, t), k, base1, base2, left, seg + cells_of(t, m.color)),
        m_write_raw(m, t).color == m.color,
{
    let mw = m_write_raw(m, t);
    assert(cells_of(m.pending + t, m.color) =~= cells_of(m.pending, m.color) + cells_of(
        t,
        m.color,
    ));
    assert(calls_cells(mw.calls.skip(k)) + cells_of(mw.pending, mw.color) =~= seg + cells_of(
        t,
        m.color,
    ));
}

proof fn lemma_seg_seek(
    m: WriterM,
    base1: usize,
    base2: usize,
    seg: Seq<(char, LineColor)>,
    pos: usize,
)
    requires
        seg_ok(m, 0, base1, base2, Seq::empty(), seg),
    ensures
        seg_ok(m_seek(m, pos), m_flush(m).calls.len() as int, base2, pos, seg, Seq::empty()),
{
    lemma_seg_flush(m, 0, base1, base2, Seq::empty(), seg);
    let mf = m_flush(m);
    let ms = m_seek(m, pos);
    let k = mf.calls.len() as int;
    assert(ms.calls == mf.calls);
    assert(mf.calls.skip(0) =~= mf.calls);
    assert(ms.calls.take(k) =~= mf.calls);
    assert(ms.calls.skip(k) =~= Seq::<CallM>::empty());
    assert(calls_cells(ms.calls.take(k)) =~= seg);
    assert(cells_of(ms.pending, ms.color) =~= Seq::<(char, LineColor)>::empty());
    assert(calls_cells(ms.calls.skip(k)) + cells_of(ms.pending, ms.color) =~= Seq::<(
        char,
        LineColor,
    )>::empty());
}

/// The selected nibble column, if the selection sits on this row.
pub open spec fn sel_col_for_row(sel: Option<(usize, usize)>, row_idx: usize) -> Option<usize> {
    match sel {
        Some((r, c)) => if r == row_idx {
            Some(c)
        } else {
            None
        },
        None => None,
    }
}

/// The color a byte cell shows: modified beats zero beats regular.
pub open spec fn color_of_byte(bits: u16, i: usize, x: u8) -> LineColor {
    if bit_set(bits, i as u16) {
        LineColor::Modified
    } else if x == 0 {
        LineColor::Zero
    } else {
        LineColor::Regular
    }
}

/// The three cells of one byte in the hex panel: its two hex digits and
/// the following space. When the selection sits on this byte, the
/// selected nibble is highlighted; with the low nibble selected, the
/// trailing space reverts to the regular color.
pub open spec fn byte_hex_cells(bits: u16, selcol: Option<usize>, i: usize, x: u8) -> Seq<
    (char, LineColor),
> {
    let cdef = color_of_byte(bits, i, x);
    let hi = hex_char_of(x >> 4);
    let lo = hex_char_of(x & 0xF);
    if selcol is Some && selcol.unwrap() / 2 == i {
        if selcol.unwrap() % 2 == 0 {
            seq![(hi, LineColor::Highlighted), (lo, cdef), (' ', cdef)]
        } else {
            seq![(hi, cdef), (lo, LineColor::Highlighted), (' ', LineColor::Regular)]
        }
    } else {
        seq![(hi, cdef), (lo, cdef), (' ', cdef)]
    }
}

/// The hex-panel cells of the row's bytes `from .. to` (indexes within
/// the row, whose first byte is at `base` of the document).
pub open spec fn hex_cells_range(
    bytes: Seq<u8>,
    base: int,
    bits: u16,
    selcol: Option<usize>,
    from: int,
    to: int,
) -> Seq<(char, LineColor)>
    decreases to - from,
{
    if from >= to {
        Seq::empty()
    } else {
        byte_hex_cells(bits, selcol, from as usize, bytes[base + from]) + hex_cells_range(
            bytes,
            base,
            bits,
            selcol,
            from + 1,
            to,
        )
    }
}

/// The color of the last cell, or `dflt` when there is none.
pub open spec fn last_color(cells: Seq<(char, LineColor)>, dflt: LineColor) -> LineColor {
    if cells.len() > 0 {
        cells.last().1
    } else {
        dflt
    }
}

/// The address column of a row starting at document offset `base`: two
/// groups of four (or more) hex digits, then a colon and two spaces.
pub open spec fn addr_cells(base: int) -> Seq<(char, LineColor)> {
    cells_of(hex_padded((base / 65536) as nat, 4), LineColor::Address) + seq![
        (' ', LineColor::Address),
    ] + cells_of(hex_padded((base % 65536) as nat, 4), LineColor::Address) + seq![
        (':', LineColor::Regular),
        (' ', LineColor::Regular),
        (' ', LineColor::Regular),
    ]
}

/// Bytes of the row starting at `base`: sixteen, or what remains of the
/// document.
pub open spec fn row_len(bytes_len: int, base: int) -> int {
    if bytes_len - base < 16 {
        bytes_len - base
    } else {
        16
    }
}

/// Everything left of the text panel: the address column, the first
/// half-row of hex cells, the half-row separator (which inherits the
/// preceding run's color), and the second half-row.
pub open spec fn line_left_cells(
    bytes: Seq<u8>,
    bits: u16,
    selcol: Option<usize>,
    row_idx: usize,
) -> Seq<(char, LineColor)> {
    let base = row_idx * 16;
    let rl = row_len(bytes.len() as int, base as int);
    let c1 = if rl < 8 {
        rl
    } else {
        8
    };
    let a = addr_cells(base as int);
    let h1 = hex_cells_range(bytes, base as int, bits, selcol, 0, c1);
    let sepc = last_color(a + h1, LineColor::Regular);
    a + h1 + seq![(' ', sepc)] + hex_cells_range(bytes, base as int, bits, selcol, 8, rl)
}

/// What a byte shows in the text panel: itself when it is a printable
/// ASCII character, a dot otherwise.
pub open spec fn ascii_render_spec(x: u8) -> char {
    if 0x21 <= x <= 0x7E {
        x as char
    } else {
        '.'
    }
}

/// The text-panel cells of the row's bytes `from .. to`.
pub open spec fn ascii_cells_range(bytes: Seq<u8>, base: int, from: int, to: int) -> Seq<
    (char, LineColor),
>
    decreases to - from,
{
    if from >= to {
        Seq::empty()
    } else {
        seq![(ascii_render_spec(bytes[base + from]), LineColor::Regular)] + ascii_cells_range(
            bytes,
            base,
            from + 1,
            to,
        )
    }
}

/// The text panel: the row's bytes as printable characters or dots, with
/// a space between the two half-rows.
pub open spec fn line_ascii_cells(bytes: Seq<u8>, row_idx: usize) -> Seq<(char, LineColor)> {
    let base = row_idx * 16;
    let rl = row_len(bytes.len() as int, base as int);
    let c1 = if rl < 8 {
        rl
    } else {
        8
    };
    ascii_cells_range(bytes, base as int, 0, c1) + seq![(' ', LineColor::Regular)]
        + ascii_cells_range(bytes, base as int, 8, rl)
}

/// What [`compose_line`] emits for one row: some first calls paint
/// exactly the address and hex cells, consecutively from column 2, and
/// the remaining calls paint exactly the text-panel cells, consecutively
/// from column 64.
pub open spec fn line_calls_ok(
    cs: Seq<CallM>,
    bytes: Seq<u8>,
    bits: u16,
    selcol: Option<usize>,
    row_idx: usize,
) -> bool {
    exists|k: int|
        0 <= k <= cs.len() && #[trigger] calls_cells(cs.take(k)) == line_left_cells(
            bytes,
            bits,
            selcol,
            row_idx,
        ) && calls_cells(cs.skip(k)) == line_ascii_cells(bytes, row_idx) && positioned(
            cs.take(k),
            2,
        ) && positioned(cs.skip(k), 64)
}

proof fn lemma_hex_range_snoc(
    bytes: Seq<u8>,
    base: int,
    bits: u16,
    selcol: Option<usize>,
    from: int,
    to: int,
)
    requires
        from <= to,
    ensures
        hex_cells_range(bytes, base, bits, selcol, from, to + 1) == hex_cells_range(
            bytes,
            base,
            bits,
            selcol,
            from,
            to,
        ) + byte_hex_cells(bits, selcol, to as usize, bytes[base + to]),
    decreases to - from,
{
    if from == to {
        assert(hex_cells_range(bytes, base, bits, selcol, from, to) =~= Seq::<(
            char,
            LineColor,
        )>::empty());
        assert(hex_cells_range(bytes, base, bits, selcol, to + 1, to + 1) =~= Seq::<(
            char,
            LineColor,
        )>::empty());
        assert(hex_cells_range(bytes, base, bits, selcol, from, to + 1) =~= byte_hex_cells(
            bits,
            selcol,
            to as usize,
            bytes[base + to],
        ));
        assert(hex_cells_range(bytes, base, bits, selcol, from, to) + byte_hex_cells(
            bits,
            selcol,
            to as usize,
            bytes[base + to],
        ) =~= byte_hex_cells(bits, selcol, to as usize, bytes[base + to]));
    } else {
        lemma_hex_range_snoc(bytes, base, bits, selcol, from + 1, to);
        assert(hex_cells_range(bytes, base, bits, selcol, from, to + 1) =~= hex_cells_range(
            bytes,
            base,
            bits,
            selcol,
            from,
            to,
        ) + byte_hex_cells(bits, selcol, to as usize, bytes[base + to]));
    }
}

proof fn lemma_ascii_range_snoc(bytes: Seq<u8>, base: int, from: int, to: int)
    requires
        from <= to,
    ensures
        ascii_cells_range(bytes, base, from, to + 1) == ascii_cells_range(bytes, base, from, to)
            + seq![(ascii_render_spec(bytes[base + to]), LineColor::Regular)],
    decreases to - from,
{
    if from == to {
        assert(ascii_cells_range(bytes, base, from, to) =~= Seq::<(char, LineColor)>::empty());
        assert(ascii_cells_range(bytes, base, to + 1, to + 1) =~= Seq::<(
            char,
            LineColor,
        )>::empty());
        assert(ascii_cells_range(bytes, base, from, to + 1) =~= ascii_cells_range(
            bytes,
            base,
            from,
            to,
        ) + seq![(ascii_render_spec(bytes[base + to]), LineColor::Regular)]);
    } else {
        lemma_ascii_range_snoc(bytes, base, from + 1, to);
        assert(ascii_cells_range(bytes, base, from, to + 1) =~= ascii_cells_range(
            bytes,
            base,
            from,
            to,
        ) + seq![(ascii_render_spec(bytes[base + to]), LineColor::Regular)]);
    }
}


/// Write three single-character cells through the writer, maintaining the
/// segment invariant.
#[verifier::rlimit(100)]
fn write_three_cells(
    w: &mut LineWriter,
    c1: (char, LineColor),
    c2: (char, LineColor),
    c3: (char, LineColor),
    Ghost(k): Ghost<int>,
    Ghost(b1): Ghost<usize>,
    Ghost(b2): Ghost<usize>,
    Ghost(left): Ghost<Seq<(char, LineColor)>>,
    Ghost(seg0): Ghost<Seq<(char, LineColor)>>,
)
    requires
        seg_ok(old(w)@, k, b1, b2, left, seg0),
    ensures
        seg_ok(final(w)@, k, b1, b2, left, seg0 + seq![c1, c2, c3]),
        final(w)@.color == c3.1,
        final(w)@.owidth == old(w)@.owidth,
{
    proof {
        lemma_seg_write(w@, k, b1, b2, left, seg0, c1.1, seq![c1.0]);
        assert(cells_of(seq![c1.0], c1.1) =~= seq![c1]);
    }
    w.write_char(c1.1, c1.0);
    proof {
        lemma_seg_write(w@, k, b1, b2, left, seg0 + seq![c1], c2.1, seq![c2.0]);
        assert(cells_of(seq![c2.0], c2.1) =~= seq![c2]);
    }
    w.write_char(c2.1, c2.0);
    proof {
        lemma_seg_write(w@, k, b1, b2, left, seg0 + seq![c1] + seq![c2], c3.1, seq![c3.0]);
        assert(cells_of(seq![c3.0], c3.1) =~= seq![c3]);
        assert(seg0 + seq![c1] + seq![c2] + seq![c3] =~= seg0 + seq![c1, c2, c3]);
    }
    w.write_char(c3.1, c3.0);
}

/// Write one byte's three hex cells through the writer, maintaining the
/// segment invariant; see [`byte_hex_cells`].
fn write_hex_byte(
    w: &mut LineWriter,
    bits: u16,
    selcol: Option<usize>,
    i: usize,
    x: u8,
    Ghost(k): Ghost<int>,
    Ghost(b1): Ghost<usize>,
    Ghost(b2): Ghost<usize>,
    Ghost(left): Ghost<Seq<(char, LineColor)>>,
    Ghost(seg0): Ghost<Seq<(char, LineColor)>>,
)
    requires
        seg_ok(old(w)@, k, b1, b2, left, seg0),
        i < 16,
    ensures
        seg_ok(final(w)@, k, b1, b2, left, seg0 + byte_hex_cells(bits, selcol, i, x)),
        final(w)@.color == byte_hex_cells(bits, selcol, i, x).last().1,
        final(w)@.owidth == old(w)@.owidth,
{
    let flag = (bits >> (i as u16)) & 1 == 1;
    let cdef = if flag {
        LineColor::Modified
    } else if x == 0 {
        LineColor::Zero
    } else {
        LineColor::Regular
    };
    let hi = hex_char(x >> 4);
    let lo = hex_char(x & 0xF);
    let sel_here = match selcol {
        Some(sc) => sc / 2 == i,
        None => false,
    };
    let cells: ((char, LineColor), (char, LineColor), (char, LineColor));
    if sel_here {
        let sc = match selcol {
            Some(sc) => sc,
            None => 0,
        };
        if sc % 2 == 0 {
            cells = ((hi, LineColor::Highlighted), (lo, cdef), (' ', cdef));
        } else {
            cells = ((hi, cdef), (lo, LineColor::Highlighted), (' ', LineColor::Regular));
        }
    } else {
        cells = ((hi, cdef), (lo, cdef), (' ', cdef));
    }
    proof {
        assert(byte_hex_cells(bits, selcol, i, x) =~= seq![cells.0, cells.1, cells.2]);
    }
    write_three_cells(w, cells.0, cells.1, cells.2, Ghost(k), Ghost(b1), Ghost(b2), Ghost(left), Ghost(seg0));
}

/// Compose the hex/ASCII line of document row `row_idx` into draw calls:
/// the address and hex panel from column 2, the text panel from column
/// 64; see [`line_calls_ok`]. `width` is the width of the row's drawing
/// area.
#[verifier::rlimit(100)]
pub fn compose_line(st: &State, row_idx: usize, width: usize) -> (r: Vec<DrawCall>)
    requires
        st.wf(),
        row_idx < st@.max_rows,
    ensures
        line_calls_ok(
            r@.map_values(|c: DrawCall| c@),
            st@.bytes,
            st.buffer.row_bits(row_idx),
            sel_col_for_row(st@.selection, row_idx),
            row_idx,
        ),
{
    proof {
        assert(st.max_rows * 16 <= st@.bytes.len() + 15) by {
            assert(st@.bytes.len() == 16 * (st@.bytes.len() as int / 16) + st@.bytes.len() as int
                % 16);
        }
    }
    let base = row_idx * 16;
    let bits = st.buffer.row_flags(row_idx);
    let selcol: Option<usize> = match st.selection {
        Some((r, c)) => if r == row_idx {
            Some(c)
        } else {
            None
        },
        None => None,
    };
    let ghost gsel = sel_col_for_row(st@.selection, row_idx);
    let len = st.buffer.len();
    let rl = if len - base < 16 {
        len - base
    } else {
        16
    };
    let c1 = if rl < 8 {
        rl
    } else {
        8
    };
    let ghost bytes = st@.bytes;
    let mut w = LineWriter::new(2, width);
    let ghost empty_cells = Seq::<(char, LineColor)>::empty();

    // Address column.
    proof {
        assert(w@.calls.take(0) =~= Seq::<CallM>::empty());
        assert(w@.calls.skip(0) =~= Seq::<CallM>::empty());
        assert(cells_of(w@.pending, w@.color) =~= empty_cells);
        assert(seg_ok(w@, 0, 2, 2, empty_cells, empty_cells));
    }
    let hi_part = format_hex(base / 65536, 4);
    let lo_part = format_hex(base % 65536, 4);
    proof {
        lemma_seg_write(w@, 0, 2, 2, empty_cells, empty_cells, LineColor::Address, hi_part@);
        assert(empty_cells + cells_of(hi_part@, LineColor::Address) =~= cells_of(
            hi_part@,
            LineColor::Address,
        ));
    }
    w.write_chars(LineColor::Address, &hi_part);
    let ghost s1 = cells_of(hi_part@, LineColor::Address);
    proof {
        lemma_seg_write(w@, 0, 2, 2, empty_cells, s1, LineColor::Address, seq![' ']);
        assert(cells_of(seq![' '], LineColor::Address) =~= seq![(' ', LineColor::Address)]);
    }
    w.write_char(LineColor::Address, ' ');
    let ghost s2 = s1 + seq![(' ', LineColor::Address)];
    proof {
        lemma_seg_write(w@, 0, 2, 2, empty_cells, s2, LineColor::Address, lo_part@);
    }
    w.write_chars(LineColor::Address, &lo_part);
    let ghost s3 = s2 + cells_of(lo_part@, LineColor::Address);
    proof {
        reveal_strlit(":  ");
        lemma_seg_write(w@, 0, 2, 2, empty_cells, s3, LineColor::Regular, ":  "@);
        assert(cells_of(":  "@, LineColor::Regular) =~= seq![
            (':', LineColor::Regular),
            (' ', LineColor::Regular),
            (' ', LineColor::Regular),
        ]);
    }
    w.write_str(LineColor::Regular, ":  ");
    let ghost acells = addr_cells(base as int);
    proof {
        assert(acells =~= s3 + seq![
            (':', LineColor::Regular),
            (' ', LineColor::Regular),
            (' ', LineColor::Regular),
        ]);
        assert(seg_ok(w@, 0, 2, 2, empty_cells, acells));
    }

    // First half-row of hex cells.
    let mut i: usize = 0;
    while i < c1
        invariant
            st.wf(),
            bytes == st@.bytes,
            bits == st.buffer.row_bits(row_idx),
            gsel == selcol,
            base == row_idx * 16,
            base + 16 <= usize::MAX,
            len == bytes.len(),
            base < len,
            rl == row_len(bytes.len() as int, base as int),
            c1 == if rl < 8 {
                rl
            } else {
                8
            },
            0 <= i <= c1,
            acells == addr_cells(base as int),
            seg_ok(
                w@,
                0,
                2,
                2,
                empty_cells,
                acells + hex_cells_range(bytes, base as int, bits, gsel, 0, i as int),
            ),
            w@.color == last_color(
                acells + hex_cells_range(bytes, base as int, bits, gsel, 0, i as int),
                LineColor::Regular,
            ),
            w@.owidth == width,
        decreases c1 - i,
    {
        let ghost seg0 = acells + hex_cells_range(bytes, base as int, bits, gsel, 0, i as int);
        let x = st.buffer.byte_at(base + i);
        write_hex_byte(
            &mut w,
            bits,
            selcol,
            i,
            x,
            Ghost(0),
            Ghost(2),
            Ghost(2),
            Ghost(empty_cells),
            Ghost(seg0),
        );
        proof {
            let bcells = byte_hex_cells(bits, gsel, i as usize, x);
            lemma_hex_range_snoc(bytes, base as int, bits, gsel, 0, i as int);
            assert(acells + hex_cells_range(bytes, base as int, bits, gsel, 0, i + 1) =~= seg0
                + bcells);
            assert((seg0 + bcells).last() == bcells.last());
        }
        i += 1;
    }

    // Separator between the half-rows, inheriting the current run color.
    let ghost h1seg = acells + hex_cells_range(bytes, base as int, bits, gsel, 0, c1 as int);
    proof {
        reveal_strlit(" ");
        lemma_seg_write_raw(w@, 0, 2, 2, empty_cells, h1seg, " "@);
        assert(cells_of(" "@, w@.color) =~= seq![(' ', w@.color)]);
        assert(h1seg + cells_of(" "@, w@.color) =~= h1seg + seq![
            (' ', last_color(h1seg, LineColor::Regular)),
        ]);
    }
    w.write_whitespace(" ");

    // Second half-row of hex cells.
    let ghost sepseg = h1seg + seq![(' ', last_color(h1seg, LineColor::Regular))];
    let mut i2: usize = 8;
    let lim = if rl > 8 {
        rl
    } else {
        8
    };
    while i2 < lim
        invariant
            st.wf(),
            bytes == st@.bytes,
            bits == st.buffer.row_bits(row_idx),
            gsel == selcol,
            base == row_idx * 16,
            base + 16 <= usize::MAX,
            len == bytes.len(),
            base < len,
            rl == row_len(bytes.len() as int, base as int),
            lim == if rl > 8 {
                rl
            } else {
                8
            },
            8 <= i2 <= lim,
            sepseg == h1seg + seq![(' ', last_color(h1seg, LineColor::Regular))],
            seg_ok(
                w@,
                0,
                2,
                2,
                empty_cells,
                sepseg + hex_cells_range(bytes, base as int, bits, gsel, 8, i2 as int),
            ),
            w@.owidth == width,
        decreases lim - i2,
    {
        let ghost seg0 = sepseg + hex_cells_range(bytes, base as int, bits, gsel, 8, i2 as int);
        let x = st.buffer.byte_at(base + i2);
        write_hex_byte(
            &mut w,
            bits,
            selcol,
            i2,
            x,
            Ghost(0),
            Ghost(2),
            Ghost(2),
            Ghost(empty_cells),
            Ghost(seg0),
        );
        proof {
            let bcells = byte_hex_cells(bits, gsel, i2 as usize, x);
            lemma_hex_range_snoc(bytes, base as int, bits, gsel, 8, i2 as int);
            assert(sepseg + hex_cells_range(bytes, base as int, bits, gsel, 8, i2 + 1) =~= seg0
                + bcells);
        }
        i2 += 1;
    }

    // Move to the text panel's fixed column.
    let ghost leftcells = line_left_cells(bytes, bits, gsel, row_idx);
    proof {
        assert(sepseg + hex_cells_range(bytes, base as int, bits, gsel, 8, lim as int)
            =~= leftcells);
        lemma_seg_seek(w@, 2, 2, leftcells, 64);
    }
    w.seek(64);
    let ghost kk = w@.calls.len() as int;

    // Text panel.
    let mut j: usize = 0;
    while j < c1
        invariant
            st.wf(),
            bytes == st@.bytes,
            base == row_idx * 16,
            base + 16 <= usize::MAX,
            len == bytes.len(),
            base < len,
            rl == row_len(bytes.len() as int, base as int),
            c1 == if rl < 8 {
                rl
            } else {
                8
            },
            0 <= j <= c1,
            c1 >= 1,
            j > 0 ==> w@.color == LineColor::Regular,
            leftcells == line_left_cells(bytes, bits, gsel, row_idx),
            seg_ok(
                w@,
                kk,
                2,
                64,
                leftcells,
                ascii_cells_range(bytes, base as int, 0, j as int),
            ),
            w@.owidth == width,
        decreases c1 - j,
    {
        let ghost seg0 = ascii_cells_range(bytes, base as int, 0, j as int);
        let x = st.buffer.byte_at(base + j);
        let a = ascii_char(x);
        proof {
            lemma_seg_write(w@, kk, 2, 64, leftcells, seg0, LineColor::Regular, seq![a]);
            lemma_ascii_range_snoc(bytes, base as int, 0, j as int);
            assert(seg0 + cells_of(seq![a], LineColor::Regular) =~= ascii_cells_range(
                bytes,
                base as int,
                0,
                j + 1,
            ));
        }
        w.write_char(LineColor::Regular, a);
        j += 1;
    }
    let ghost a1seg = ascii_cells_range(bytes, base as int, 0, c1 as int);
    proof {
        reveal_strlit(" ");
        lemma_seg_write_raw(w@, kk, 2, 64, leftcells, a1seg, " "@);
        assert(w@.color == LineColor::Regular);
        assert(cells_of(" "@, LineColor::Regular) =~= seq![(' ', LineColor::Regular)]);
        assert(a1seg + cells_of(" "@, LineColor::Regular) =~= a1seg + seq![
            (' ', LineColor::Regular),
        ]);
    }
    w.write_whitespace(" ");
    let ghost asepseg = a1seg + seq![(' ', LineColor::Regular)];
    let mut j2: usize = 8;
    while j2 < lim
        invariant
            st.wf(),
            bytes == st@.bytes,
            base == row_idx * 16,
            base + 16 <= usize::MAX,
            len == bytes.len(),
            base < len,
            rl == row_len(bytes.len() as int, base as int),
            lim == if rl > 8 {
                rl
            } else {
                8
            },
            8 <= j2 <= lim,
            leftcells == line_left_cells(bytes, bits, gsel, row_idx),
            asepseg == ascii_cells_range(bytes, base as int, 0, c1 as int) + seq![
                (' ', LineColor::Regular),
            ],
            c1 == if rl < 8 {
                rl
            } else {
                8
            },
            seg_ok(
                w@,
                kk,
                2,
                64,
                leftcells,
                asepseg + ascii_cells_range(bytes, base as int, 8, j2 as int),
            ),
            w@.owidth == width,
        decreases lim - j2,
    {
        let ghost seg0 = asepseg + ascii_cells_range(bytes, base as int, 8, j2 as int);
        let x = st.buffer.byte_at(base + j2);
        let a = ascii_char(x);
        proof {
            lemma_seg_write(w@, kk, 2, 64, leftcells, seg0, LineColor::Regular, seq![a]);
            lemma_ascii_range_snoc(bytes, base as int, 8, j2 as int);
            assert(seg0 + cells_of(seq![a], LineColor::Regular) =~= asepseg + ascii_cells_range(
                bytes,
                base as int,
                8,
                j2 + 1,
            ));
        }
        w.write_char(LineColor::Regular, a);
        j2 += 1;
    }
    let ghost arcells = line_ascii_cells(bytes, row_idx);
    proof {
        assert(asepseg + ascii_cells_range(bytes, base as int, 8, lim as int) =~= arcells);
        lemma_seg_flush(w@, kk, 2, 64, leftcells, arcells);
    }
    w.flush();
    proof {
        assert(cells_of(w@.pending, w@.color) =~= Seq::<(char, LineColor)>::empty());
        assert(calls_cells(w@.calls.skip(kk)) =~= arcells);
        assert(line_calls_ok(w@.calls, bytes, bits, gsel, row_idx));
    }
    w.calls
}

/// The character shown in the text panel for byte `x`; see
/// [`ascii_render_spec`].
pub fn ascii_char(x: u8) -> (c: char)
    ensures
        c == ascii_render_spec(x),
{
    if 0x21 <= x && x <= 0x7E {
        x as char
    } else {
        '.'
    }
}

/// Compose every visible row of the document: one list of draw calls per
/// row, for the rows from the scroll position down to the last document
/// row or the bottom of the area, whichever comes first.
pub fn compose_rows(st: &State, width: usize) -> (r: Vec<Vec<DrawCall>>)
    requires
        st.wf(),
    ensures
        r@.len() == if st@.max_rows - st@.scroll_pos < st.spec_visible_rows() {
            st@.max_rows - st@.scroll_pos
        } else {
            st.spec_visible_rows() as int
        },
        forall|i: int|
            0 <= i < r@.len() ==> line_calls_ok(
                (#[trigger] r@[i])@.map_values(|c: DrawCall| c@),
                st@.bytes,
                st.buffer.row_bits((st@.scroll_pos + i) as usize),
                sel_col_for_row(st@.selection, (st@.scroll_pos + i) as usize),
                (st@.scroll_pos + i) as usize,
            ),
{
    let vis = st.visible_content_rows();
    let mut out: Vec<Vec<DrawCall>> = Vec::new();
    let mut i: usize = 0;
    while i < vis && st.scroll_pos + i < st.max_rows
        invariant
            st.wf(),
            vis == st.spec_visible_rows(),
            0 <= i <= vis,
            st@.scroll_pos + i <= st@.max_rows,
            out@.len() == i,
            forall|j: int|
                0 <= j < out@.len() ==> line_calls_ok(
                    (#[trigger] out@[j])@.map_values(|c: DrawCall| c@),
                    st@.bytes,
                    st.buffer.row_bits((st@.scroll_pos + j) as usize),
                    sel_col_for_row(st@.selection, (st@.scroll_pos + j) as usize),
                    (st@.scroll_pos + j) as usize,
                ),
        decreases vis - i,
    {
        let row = compose_line(st, st.scroll_pos + i, width);
        out.push(row);
        i += 1;
    }
    out
}

/// The display characters of a keybinding: the control marker, then the
/// key.
pub open spec fn kb_chars(kb: crate::cfg::Keybind) -> Seq<char> {
    if kb.control {
        seq!['^', kb.key]
    } else {
        seq![kb.key]
    }
}

/// The cells of the byte-pattern input, from pair `i` on: hex digits in
/// groups of two, a space after each group that ends before the input
/// does, and a space after the final complete group.
pub open spec fn pairs_cells(buf: Seq<char>, i: nat) -> Seq<(char, LineColor)>
    decreases buf.len() + 2 - 2 * i,
{
    if 2 * i >= buf.len() {
        Seq::empty()
    } else {
        let chunk = if 2 * i + 2 <= buf.len() {
            buf.subrange(2 * i as int, 2 * i as int + 2)
        } else {
            buf.subrange(2 * i as int, buf.len() as int)
        };
        cells_of(chunk, LineColor::Regular) + (if 2 * i + 1 < buf.len() {
            seq![(' ', LineColor::Regular)]
        } else {
            Seq::empty()
        }) + pairs_cells(buf, i + 1)
    }
}

/// The leading hints: the quit key to exit and the toggle key, followed
/// by `mid` naming what the toggle switches to.
pub open spec fn hints_lead_cells(kb: crate::cfg::Keybinds, mid: Seq<char>) -> Seq<
    (char, LineColor),
> {
    cells_of(kb_chars(kb.quit), LineColor::Emphasis) + cells_of(" exit, "@, LineColor::Regular)
        + cells_of(kb_chars(kb.toggle_cursor), LineColor::Emphasis) + cells_of(
        mid,
        LineColor::Regular,
    )
}

/// The go-to, find and save hints; the save hint carries the given colors,
/// dimmed while nothing is modified.
pub open spec fn hints_mid_cells(
    kb: crate::cfg::Keybinds,
    save_plain: LineColor,
    save_bold: LineColor,
) -> Seq<(char, LineColor)> {
    cells_of(kb_chars(kb.go_to), LineColor::Emphasis) + cells_of(" go to, "@, LineColor::Regular)
        + cells_of(kb_chars(kb.find), LineColor::Emphasis) + cells_of(
        " find, "@,
        LineColor::Regular,
    ) + cells_of(kb_chars(kb.save), save_bold) + cells_of(" save, "@, save_plain)
}

/// The movement hints shown with an active selection.
pub open spec fn hints_move_cells(kb: crate::cfg::Keybinds) -> Seq<(char, LineColor)> {
    cells_of(
        kb_chars(kb.left) + kb_chars(kb.down) + kb_chars(kb.up) + kb_chars(kb.right)
            + "/Arrows"@,
        LineColor::Emphasis,
    ) + cells_of(" move selection ("@, LineColor::Regular) + cells_of(
        "Alt"@,
        LineColor::Emphasis,
    ) + cells_of(" to move by digits) "@, LineColor::Regular)
}

/// The scrolling hints shown without a selection.
pub open spec fn hints_scroll_cells(kb: crate::cfg::Keybinds) -> Seq<(char, LineColor)> {
    cells_of(kb_chars(kb.down) + "/Down"@, LineColor::Emphasis) + cells_of(
        " scroll down, "@,
        LineColor::Regular,
    ) + cells_of(kb_chars(kb.up) + "/Up"@, LineColor::Emphasis) + cells_of(
        " scroll up "@,
        LineColor::Regular,
    )
}

/// The key-hint cells shown in regular mode with an active selection.
pub open spec fn hints_cursor_cells(
    kb: crate::cfg::Keybinds,
    save_plain: LineColor,
    save_bold: LineColor,
) -> Seq<(char, LineColor)> {
    hints_lead_cells(kb, " pager, "@) + hints_mid_cells(kb, save_plain, save_bold)
        + hints_move_cells(kb)
}

/// The key-hint cells shown in regular mode without a selection.
pub open spec fn hints_pager_cells(
    kb: crate::cfg::Keybinds,
    save_plain: LineColor,
    save_bold: LineColor,
) -> Seq<(char, LineColor)> {
    hints_lead_cells(kb, " cursor, "@) + hints_mid_cells(kb, save_plain, save_bold)
        + hints_scroll_cells(kb)
}

/// The cells of the status line, by mode: the prompt and buffer of the
/// active modal input with a cursor mark, or in regular mode the
/// transient status text if one is set, else the key hints (whose save
/// hint is dimmed while nothing is modified).
pub open spec fn bottom_cells(m: crate::state::StateModel, kb: crate::cfg::Keybinds) -> Seq<
    (char, LineColor),
> {
    match m.mode {
        ModeM::Goto(buf) => cells_of("Go to: 0x"@, LineColor::Emphasis) + cells_of(
            buf,
            LineColor::Regular,
        ) + seq![(' ', LineColor::TextCursor)],
        ModeM::Find => cells_of("Find what?  "@ + kb_chars(kb.find_binary), LineColor::Emphasis)
            + cells_of(" bytes, "@, LineColor::Regular) + cells_of(
            kb_chars(kb.find_text),
            LineColor::Emphasis,
        ) + cells_of(" text"@, LineColor::Regular),
        ModeM::FindBytes(buf) => cells_of("Find byte sequence (in hex): "@, LineColor::Emphasis)
            + pairs_cells(buf, 0) + seq![(' ', LineColor::TextCursor)],
        ModeM::FindString(buf) => cells_of("Find text: "@, LineColor::Emphasis) + cells_of(
            buf,
            LineColor::Regular,
        ) + seq![(' ', LineColor::TextCursor)],
        ModeM::Regular => match m.bottom_text {
            Some(t) => cells_of(t, LineColor::Regular),
            None => {
                let unmod = m.modified == Map::<usize, u16>::empty();
                let save_plain = if unmod {
                    LineColor::Zero
                } else {
                    LineColor::Regular
                };
                let save_bold = if unmod {
                    LineColor::Zero
                } else {
                    LineColor::Emphasis
                };
                if m.selection is Some {
                    hints_cursor_cells(kb, save_plain, save_bold)
                } else {
                    hints_pager_cells(kb, save_plain, save_bold)
                }
            },
        },
    }
}


/// Append styled text through the writer, maintaining the segment
/// invariant.
fn seg_write_str(
    w: &mut LineWriter,
    color: LineColor,
    content: &str,
    Ghost(k): Ghost<int>,
    Ghost(b1): Ghost<usize>,
    Ghost(b2): Ghost<usize>,
    Ghost(left): Ghost<Seq<(char, LineColor)>>,
    Ghost(seg0): Ghost<Seq<(char, LineColor)>>,
)
    requires
        seg_ok(old(w)@, k, b1, b2, left, seg0),
    ensures
        seg_ok(final(w)@, k, b1, b2, left, seg0 + cells_of(content@, color)),
        final(w)@.color == color,
        final(w)@.owidth == old(w)@.owidth,
{
    proof {
        lemma_seg_write(w@, k, b1, b2, left, seg0, color, content@);
    }
    w.write_str(color, content);
}

/// Append a styled character sequence through the writer, maintaining the
/// segment invariant.
fn seg_write_chars(
    w: &mut LineWriter,
    color: LineColor,
    content: &Vec<char>,
    Ghost(k): Ghost<int>,
    Ghost(b1): Ghost<usize>,
    Ghost(b2): Ghost<usize>,
    Ghost(left): Ghost<Seq<(char, LineColor)>>,
    Ghost(seg0): Ghost<Seq<(char, LineColor)>>,
)
    requires
        seg_ok(old(w)@, k, b1, b2, left, seg0),
    ensures
        seg_ok(final(w)@, k, b1, b2, left, seg0 + cells_of(content@, color)),
        final(w)@.color == color,
        final(w)@.owidth == old(w)@.owidth,
{
    proof {
        lemma_seg_write(w@, k, b1, b2, left, seg0, color, content@);
    }
    w.write_chars(color, content);
}

/// Append one styled character through the writer, maintaining the
/// segment invariant.
fn seg_write_char(
    w: &mut LineWriter,
    color: LineColor,
    content: char,
    Ghost(k): Ghost<int>,
    Ghost(b1): Ghost<usize>,
    Ghost(b2): Ghost<usize>,
    Ghost(left): Ghost<Seq<(char, LineColor)>>,
    Ghost(seg0): Ghost<Seq<(char, LineColor)>>,
)
    requires
        seg_ok(old(w)@, k, b1, b2, left, seg0),
    ensures
        seg_ok(final(w)@, k, b1, b2, left, seg0 + seq![(content, color)]),
        final(w)@.color == color,
        final(w)@.owidth == old(w)@.owidth,
{
    proof {
        lemma_seg_write(w@, k, b1, b2, left, seg0, color, seq![content]);
        assert(cells_of(seq![content], color) =~= seq![(content, color)]);
    }
    w.write_char(color, content);
}

/// Compose the status line into draw calls painting [`bottom_cells`],
/// consecutively from column 0. `width` is the width of the terminal row.
#[verifier::rlimit(100)]
pub fn compose_bottom(st: &State, keybinds: &Keybinds, width: usize) -> (r: Vec<DrawCall>)
    requires
        st.wf(),
    ensures
        calls_cells(r@.map_values(|c: DrawCall| c@)) == bottom_cells(st@, *keybinds),
        positioned(r@.map_values(|c: DrawCall| c@), 0),
{
    let mut w = LineWriter::new(0, width);
    let ghost empty_cells = Seq::<(char, LineColor)>::empty();
    let ghost mut seg = empty_cells;
    proof {
        assert(w@.calls.take(0) =~= Seq::<CallM>::empty());
        assert(w@.calls.skip(0) =~= Seq::<CallM>::empty());
        assert(cells_of(w@.pending, w@.color) =~= empty_cells);
        assert(seg_ok(w@, 0, 0, 0, empty_cells, empty_cells));
    }
    match &st.input_state {
        InputState::Goto(buf) => {
            seg_write_str(&mut w, LineColor::Emphasis, "Go to: 0x", Ghost(0), Ghost(0), Ghost(0),
                Ghost(empty_cells), Ghost(seg));
            proof {
                seg = seg + cells_of("Go to: 0x"@, LineColor::Emphasis);
            }
            seg_write_chars(&mut w, LineColor::Regular, buf, Ghost(0), Ghost(0), Ghost(0),
                Ghost(empty_cells), Ghost(seg));
            proof {
                seg = seg + cells_of(buf@, LineColor::Regular);
            }
            seg_write_char(&mut w, LineColor::TextCursor, ' ', Ghost(0), Ghost(0), Ghost(0),
                Ghost(empty_cells), Ghost(seg));
            proof {
                seg = seg + seq![(' ', LineColor::TextCursor)];
                assert(seg =~= bottom_cells(st@, *keybinds));
            }
        },
        InputState::Find => {
            let fb = keybinds.find_binary.display_chars();
            let ft = keybinds.find_text.display_chars();
            seg_write_str(&mut w, LineColor::Emphasis, "Find what?  ", Ghost(0), Ghost(0),
                Ghost(0), Ghost(empty_cells), Ghost(seg));
            proof {
                seg = seg + cells_of("Find what?  "@, LineColor::Emphasis);
            }
            seg_write_chars(&mut w, LineColor::Emphasis, &fb, Ghost(0), Ghost(0), Ghost(0),
                Ghost(empty_cells), Ghost(seg));
            proof {
                seg = seg + cells_of(fb@, LineColor::Emphasis);
            }
            seg_write_str(&mut w, LineColor::Regular, " bytes, ", Ghost(0), Ghost(0), Ghost(0),
                Ghost(empty_cells), Ghost(seg));
            proof {
                seg = seg + cells_of(" bytes, "@, LineColor::Regular);
            }
            seg_write_chars(&mut w, LineColor::Emphasis, &ft, Ghost(0), Ghost(0), Ghost(0),
                Ghost(empty_cells), Ghost(seg));
            proof {
                seg = seg + cells_of(ft@, LineColor::Emphasis);
            }
            seg_write_str(&mut w, LineColor::Regular, " text", Ghost(0), Ghost(0), Ghost(0),
                Ghost(empty_cells), Ghost(seg));
            proof {
                seg = seg + cells_of(" text"@, LineColor::Regular);
                assert(cells_of("Find what?  "@ + kb_chars(keybinds.find_binary),
                    LineColor::Emphasis) =~= cells_of("Find what?  "@, LineColor::Emphasis)
                    + cells_of(fb@, LineColor::Emphasis));
                assert(seg =~= bottom_cells(st@, *keybinds));
            }
        },
        InputState::FindBytes(buf) => {
            seg_write_str(&mut w, LineColor::Emphasis, "Find byte sequence (in hex): ", Ghost(0),
                Ghost(0), Ghost(0), Ghost(empty_cells), Ghost(seg));
            proof {
                seg = seg + cells_of("Find byte sequence (in hex): "@, LineColor::Emphasis);
            }
            let ghost hdr = seg;
            let n = buf.len();
            let half = n / 2;
            let mut p: usize = 0;
            let ghost mut done = empty_cells;
            while p < half
                invariant
                    n == buf@.len(),
                    half == n / 2,
                    0 <= p <= half,
                    seg_ok(w@, 0, 0, 0, empty_cells, hdr + done),
                    pairs_cells(buf@, 0) == done + pairs_cells(buf@, p as nat),
                decreases half - p,
            {
                let ghost segb = hdr + done;
                seg_write_char(&mut w, LineColor::Regular, buf[2 * p], Ghost(0), Ghost(0),
                    Ghost(0), Ghost(empty_cells), Ghost(segb));
                seg_write_char(&mut w, LineColor::Regular, buf[2 * p + 1], Ghost(0), Ghost(0),
                    Ghost(0), Ghost(empty_cells),
                    Ghost(segb + seq![(buf@[2 * p as int], LineColor::Regular)]));
                proof {
                    reveal_strlit(" ");
                }
                seg_write_pair_sep(&mut w, Ghost(segb), Ghost(buf@), Ghost(p as nat));
                proof {
                    let chunk = buf@.subrange(2 * p as int, 2 * p as int + 2);
                    assert(cells_of(chunk, LineColor::Regular) =~= seq![
                        (buf@[2 * p as int], LineColor::Regular),
                        (buf@[2 * p as int + 1], LineColor::Regular),
                    ]);
                    let step = cells_of(chunk, LineColor::Regular) + seq![
                        (' ', LineColor::Regular),
                    ];
                    assert(pairs_cells(buf@, p as nat) == step + pairs_cells(buf@, p as nat + 1))
                        by {
                        assert(pairs_cells(buf@, p as nat) =~= step + pairs_cells(
                            buf@,
                            p as nat + 1,
                        ));
                    }
                    done = done + step;
                    assert(hdr + done =~= segb + seq![(buf@[2 * p as int], LineColor::Regular)]
                        + seq![(buf@[2 * p as int + 1], LineColor::Regular)] + cells_of(
                        " "@,
                        LineColor::Regular,
                    ));
                }
                p += 1;
            }
            if n % 2 == 1 {
                let ghost segb = hdr + done;
                seg_write_char(&mut w, LineColor::Regular, buf[2 * p], Ghost(0), Ghost(0),
                    Ghost(0), Ghost(empty_cells), Ghost(segb));
                proof {
                    let chunk = buf@.subrange(2 * p as int, n as int);
                    assert(cells_of(chunk, LineColor::Regular) =~= seq![
                        (buf@[2 * p as int], LineColor::Regular),
                    ]);
                    let step = cells_of(chunk, LineColor::Regular);
                    assert(pairs_cells(buf@, p as nat) == step + pairs_cells(buf@, p as nat + 1))
                        by {
                        assert(pairs_cells(buf@, p as nat) =~= step + pairs_cells(
                            buf@,
                            p as nat + 1,
                        ));
                    }
                    done = done + step;
                    assert(hdr + done =~= segb + seq![(buf@[2 * p as int], LineColor::Regular)]);
                    assert(pairs_cells(buf@, p as nat + 1) =~= empty_cells);
                    assert(done + pairs_cells(buf@, p as nat + 1) =~= done);
                    seg = hdr + done;
                }
            } else {
                proof {
                    assert(pairs_cells(buf@, p as nat) =~= empty_cells);
                    assert(done + pairs_cells(buf@, p as nat) =~= done);
                    seg = hdr + done;
                }
            }
            seg_write_char(&mut w, LineColor::TextCursor, ' ', Ghost(0), Ghost(0), Ghost(0),
                Ghost(empty_cells), Ghost(seg));
            proof {
                seg = seg + seq![(' ', LineColor::TextCursor)];
                assert(seg =~= bottom_cells(st@, *keybinds));
            }
        },
        InputState::FindString(buf) => {
            seg_write_str(&mut w, LineColor::Emphasis, "Find text: ", Ghost(0), Ghost(0), Ghost(0),
                Ghost(empty_cells), Ghost(seg));
            proof {
                seg = seg + cells_of("Find text: "@, LineColor::Emphasis);
            }
            seg_write_chars(&mut w, LineColor::Regular, buf, Ghost(0), Ghost(0), Ghost(0),
                Ghost(empty_cells), Ghost(seg));
            proof {
                seg = seg + cells_of(buf@, LineColor::Regular);
            }
            seg_write_char(&mut w, LineColor::TextCursor, ' ', Ghost(0), Ghost(0), Ghost(0),
                Ghost(empty_cells), Ghost(seg));
            proof {
                seg = seg + seq![(' ', LineColor::TextCursor)];
                assert(seg =~= bottom_cells(st@, *keybinds));
            }
        },
        InputState::Regular => {
            let has_text = match &st.bottom_text {
                Some(_) => true,
                None => false,
            };
            if has_text {
                match &st.bottom_text {
                    Some(t) => {
                        seg_write_str(&mut w, LineColor::Regular, t.as_str(), Ghost(0), Ghost(0),
                            Ghost(0), Ghost(empty_cells), Ghost(seg));
                        proof {
                            seg = seg + cells_of(t@, LineColor::Regular);
                            assert(seg =~= bottom_cells(st@, *keybinds));
                        }
                    },
                    None => {
                        proof {
                            assert(false);
                        }
                    },
                }
            } else {
                let unmod = !st.buffer.has_unsaved();
                proof {
                    if unmod {
                        assert(st@.modified =~= Map::<usize, u16>::empty());
                    }
                }
                let save_plain = if unmod {
                    LineColor::Zero
                } else {
                    LineColor::Regular
                };
                let save_bold = if unmod {
                    LineColor::Zero
                } else {
                    LineColor::Emphasis
                };
                let cursor = st.selection.is_some();
                write_hints_lead(&mut w, cursor, keybinds, Ghost(seg));
                proof {
                    seg = seg + hints_lead_cells(
                        *keybinds,
                        if cursor {
                            " pager, "@
                        } else {
                            " cursor, "@
                        },
                    );
                }
                write_hints_mid(&mut w, keybinds, save_plain, save_bold, Ghost(seg));
                proof {
                    seg = seg + hints_mid_cells(*keybinds, save_plain, save_bold);
                }
                if cursor {
                    write_hints_move(&mut w, keybinds, Ghost(seg));
                    proof {
                        seg = seg + hints_move_cells(*keybinds);
                    }
                } else {
                    write_hints_scroll(&mut w, keybinds, Ghost(seg));
                    proof {
                        seg = seg + hints_scroll_cells(*keybinds);
                    }
                }
                proof {
                    assert(seg =~= bottom_cells(st@, *keybinds));
                }

            }
        },
    }
    proof {
        lemma_seg_flush(w@, 0, 0, 0, empty_cells, seg);
    }
    w.flush();
    proof {
        assert(cells_of(w@.pending, w@.color) =~= empty_cells);
        assert(w@.calls.skip(0) =~= w@.calls);
        assert(calls_cells(w@.calls) =~= bottom_cells(st@, *keybinds));
    }
    w.calls
}

/// Write the space that follows a complete digit pair of the byte-pattern
/// input, maintaining the segment invariant.
fn seg_write_pair_sep(
    w: &mut LineWriter,
    Ghost(segb): Ghost<Seq<(char, LineColor)>>,
    Ghost(buf): Ghost<Seq<char>>,
    Ghost(p): Ghost<nat>,
)
    requires
        seg_ok(
            old(w)@,
            0,
            0,
            0,
            Seq::empty(),
            segb + seq![(buf[2 * p as int], LineColor::Regular)] + seq![
                (buf[2 * p as int + 1], LineColor::Regular),
            ],
        ),
    ensures
        seg_ok(
            final(w)@,
            0,
            0,
            0,
            Seq::empty(),
            segb + seq![(buf[2 * p as int], LineColor::Regular)] + seq![
                (buf[2 * p as int + 1], LineColor::Regular),
            ] + cells_of(" "@, LineColor::Regular),
        ),
        final(w)@.owidth == old(w)@.owidth,
{
    proof {
        lemma_seg_write(
            w@,
            0,
            0,
            0,
            Seq::empty(),
            segb + seq![(buf[2 * p as int], LineColor::Regular)] + seq![
                (buf[2 * p as int + 1], LineColor::Regular),
            ],
            LineColor::Regular,
            " "@,
        );
    }
    w.write_str(LineColor::Regular, " ");
}

/// Write the leading hints; see [`hints_lead_cells`].
#[verifier::rlimit(60)]
fn write_hints_lead(
    w: &mut LineWriter,
    cursor: bool,
    keybinds: &Keybinds,
    Ghost(seg0): Ghost<Seq<(char, LineColor)>>,
)
    requires
        seg_ok(old(w)@, 0, 0, 0, Seq::empty(), seg0),
    ensures
        seg_ok(
            final(w)@,
            0,
            0,
            0,
            Seq::empty(),
            seg0 + hints_lead_cells(
                *keybinds,
                if cursor {
                    " pager, "@
                } else {
                    " cursor, "@
                },
            ),
        ),
{
    let ghost empty_cells = Seq::<(char, LineColor)>::empty();
    let ghost mut seg = seg0;
    let q = keybinds.quit.display_chars();
    let tc = keybinds.toggle_cursor.display_chars();
    seg_write_chars(w, LineColor::Emphasis, &q, Ghost(0), Ghost(0), Ghost(0), Ghost(empty_cells),
        Ghost(seg));
    proof {
        seg = seg + cells_of(q@, LineColor::Emphasis);
    }
    seg_write_str(w, LineColor::Regular, " exit, ", Ghost(0), Ghost(0), Ghost(0),
        Ghost(empty_cells), Ghost(seg));
    proof {
        seg = seg + cells_of(" exit, "@, LineColor::Regular);
    }
    seg_write_chars(w, LineColor::Emphasis, &tc, Ghost(0), Ghost(0), Ghost(0), Ghost(empty_cells),
        Ghost(seg));
    proof {
        seg = seg + cells_of(tc@, LineColor::Emphasis);
    }
    if cursor {
        seg_write_str(w, LineColor::Regular, " pager, ", Ghost(0), Ghost(0), Ghost(0),
            Ghost(empty_cells), Ghost(seg));
        proof {
            seg = seg + cells_of(" pager, "@, LineColor::Regular);
            assert(seg =~= seg0 + hints_lead_cells(*keybinds, " pager, "@));
        }
    } else {
        seg_write_str(w, LineColor::Regular, " cursor, ", Ghost(0), Ghost(0), Ghost(0),
            Ghost(empty_cells), Ghost(seg));
        proof {
            seg = seg + cells_of(" cursor, "@, LineColor::Regular);
            assert(seg =~= seg0 + hints_lead_cells(*keybinds, " cursor, "@));
        }
    }
}

/// Write the go-to, find and save hints; see [`hints_mid_cells`].
#[verifier::rlimit(60)]
fn write_hints_mid(
    w: &mut LineWriter,
    keybinds: &Keybinds,
    save_plain: LineColor,
    save_bold: LineColor,
    Ghost(seg0): Ghost<Seq<(char, LineColor)>>,
)
    requires
        seg_ok(old(w)@, 0, 0, 0, Seq::empty(), seg0),
    ensures
        seg_ok(
            final(w)@,
            0,
            0,
            0,
            Seq::empty(),
            seg0 + hints_mid_cells(*keybinds, save_plain, save_bold),
        ),
{
    let ghost empty_cells = Seq::<(char, LineColor)>::empty();
    let ghost mut seg = seg0;
    let g = keybinds.go_to.display_chars();
    let f = keybinds.find.display_chars();
    let sv = keybinds.save.display_chars();
    seg_write_chars(w, LineColor::Emphasis, &g, Ghost(0), Ghost(0), Ghost(0), Ghost(empty_cells),
        Ghost(seg));
    proof {
        seg = seg + cells_of(g@, LineColor::Emphasis);
    }
    seg_write_str(w, LineColor::Regular, " go to, ", Ghost(0), Ghost(0), Ghost(0),
        Ghost(empty_cells), Ghost(seg));
    proof {
        seg = seg + cells_of(" go to, "@, LineColor::Regular);
    }
    seg_write_chars(w, LineColor::Emphasis, &f, Ghost(0), Ghost(0), Ghost(0), Ghost(empty_cells),
        Ghost(seg));
    proof {
        seg = seg + cells_of(f@, LineColor::Emphasis);
    }
    seg_write_str(w, LineColor::Regular, " find, ", Ghost(0), Ghost(0), Ghost(0),
        Ghost(empty_cells), Ghost(seg));
    proof {
        seg = seg + cells_of(" find, "@, LineColor::Regular);
    }
    seg_write_chars(w, save_bold, &sv, Ghost(0), Ghost(0), Ghost(0), Ghost(empty_cells),
        Ghost(seg));
    proof {
        seg = seg + cells_of(sv@, save_bold);
    }
    seg_write_str(w, save_plain, " save, ", Ghost(0), Ghost(0), Ghost(0), Ghost(empty_cells),
        Ghost(seg));
    proof {
        seg = seg + cells_of(" save, "@, save_plain);
        assert(seg =~= seg0 + hints_mid_cells(*keybinds, save_plain, save_bold));
    }
}

/// Write the movement hints; see [`hints_move_cells`].
#[verifier::rlimit(60)]
fn write_hints_move(
    w: &mut LineWriter,
    keybinds: &Keybinds,
    Ghost(seg0): Ghost<Seq<(char, LineColor)>>,
)
    requires
        seg_ok(old(w)@, 0, 0, 0, Seq::empty(), seg0),
    ensures
        seg_ok(final(w)@, 0, 0, 0, Seq::empty(), seg0 + hints_move_cells(*keybinds)),
{
    let ghost empty_cells = Seq::<(char, LineColor)>::empty();
    let ghost mut seg = seg0;
    let l = keybinds.left.display_chars();
    let d = keybinds.down.display_chars();
    let u = keybinds.up.display_chars();
    let r = keybinds.right.display_chars();
    seg_write_chars(w, LineColor::Emphasis, &l, Ghost(0), Ghost(0), Ghost(0), Ghost(empty_cells),
        Ghost(seg));
    proof {
        seg = seg + cells_of(l@, LineColor::Emphasis);
    }
    seg_write_chars(w, LineColor::Emphasis, &d, Ghost(0), Ghost(0), Ghost(0), Ghost(empty_cells),
        Ghost(seg));
    proof {
        seg = seg + cells_of(d@, LineColor::Emphasis);
    }
    seg_write_chars(w, LineColor::Emphasis, &u, Ghost(0), Ghost(0), Ghost(0), Ghost(empty_cells),
        Ghost(seg));
    proof {
        seg = seg + cells_of(u@, LineColor::Emphasis);
    }
    seg_write_chars(w, LineColor::Emphasis, &r, Ghost(0), Ghost(0), Ghost(0), Ghost(empty_cells),
        Ghost(seg));
    proof {
        seg = seg + cells_of(r@, LineColor::Emphasis);
    }
    seg_write_str(w, LineColor::Emphasis, "/Arrows", Ghost(0), Ghost(0), Ghost(0),
        Ghost(empty_cells), Ghost(seg));
    proof {
        seg = seg + cells_of("/Arrows"@, LineColor::Emphasis);
    }
    seg_write_str(w, LineColor::Regular, " move selection (", Ghost(0), Ghost(0), Ghost(0),
        Ghost(empty_cells), Ghost(seg));
    proof {
        seg = seg + cells_of(" move selection ("@, LineColor::Regular);
    }
    seg_write_str(w, LineColor::Emphasis, "Alt", Ghost(0), Ghost(0), Ghost(0), Ghost(empty_cells),
        Ghost(seg));
    proof {
        seg = seg + cells_of("Alt"@, LineColor::Emphasis);
    }
    seg_write_str(w, LineColor::Regular, " to move by digits) ", Ghost(0), Ghost(0), Ghost(0),
        Ghost(empty_cells), Ghost(seg));
    proof {
        seg = seg + cells_of(" to move by digits) "@, LineColor::Regular);
        assert(cells_of(
            kb_chars(keybinds.left) + kb_chars(keybinds.down) + kb_chars(keybinds.up) + kb_chars(
                keybinds.right,
            ) + "/Arrows"@,
            LineColor::Emphasis,
        ) =~= cells_of(l@, LineColor::Emphasis) + cells_of(d@, LineColor::Emphasis) + cells_of(
            u@,
            LineColor::Emphasis,
        ) + cells_of(r@, LineColor::Emphasis) + cells_of("/Arrows"@, LineColor::Emphasis));
        assert(seg =~= seg0 + hints_move_cells(*keybinds));
    }
}

/// Write the scrolling hints; see [`hints_scroll_cells`].
#[verifier::rlimit(60)]
fn write_hints_scroll(
    w: &mut LineWriter,
    keybinds: &Keybinds,
    Ghost(seg0): Ghost<Seq<(char, LineColor)>>,
)
    requires
        seg_ok(old(w)@, 0, 0, 0, Seq::empty(), seg0),
    ensures
        seg_ok(final(w)@, 0, 0, 0, Seq::empty(), seg0 + hints_scroll_cells(*keybinds)),
{
    let ghost empty_cells = Seq::<(char, LineColor)>::empty();
    let ghost mut seg = seg0;
    let d = keybinds.down.display_chars();
    let u = keybinds.up.display_chars();
    seg_write_chars(w, LineColor::Emphasis, &d, Ghost(0), Ghost(0), Ghost(0), Ghost(empty_cells),
        Ghost(seg));
    proof {
        seg = seg + cells_of(d@, LineColor::Emphasis);
    }
    seg_write_str(w, LineColor::Emphasis, "/Down", Ghost(0), Ghost(0), Ghost(0),
        Ghost(empty_cells), Ghost(seg));
    proof {
        seg = seg + cells_of("/Down"@, LineColor::Emphasis);
    }
    seg_write_str(w, LineColor::Regular, " scroll down, ", Ghost(0), Ghost(0), Ghost(0),
        Ghost(empty_cells), Ghost(seg));
    proof {
        seg = seg + cells_of(" scroll down, "@, LineColor::Regular);
    }
    seg_write_chars(w, LineColor::Emphasis, &u, Ghost(0), Ghost(0), Ghost(0), Ghost(empty_cells),
        Ghost(seg));
    proof {
        seg = seg + cells_of(u@, LineColor::Emphasis);
    }
    seg_write_str(w, LineColor::Emphasis, "/Up", Ghost(0), Ghost(0), Ghost(0), Ghost(empty_cells),
        Ghost(seg));
    proof {
        seg = seg + cells_of("/Up"@, LineColor::Emphasis);
    }
    seg_write_str(w, LineColor::Regular, " scroll up ", Ghost(0), Ghost(0), Ghost(0),
        Ghost(empty_cells), Ghost(seg));
    proof {
        seg = seg + cells_of(" scroll up "@, LineColor::Regular);
        assert(cells_of(kb_chars(keybinds.down) + "/Down"@, LineColor::Emphasis) =~= cells_of(
            d@,
            LineColor::Emphasis,
        ) + cells_of("/Down"@, LineColor::Emphasis));
        assert(cells_of(kb_chars(keybinds.up) + "/Up"@, LineColor::Emphasis) =~= cells_of(
            u@,
            LineColor::Emphasis,
        ) + cells_of("/Up"@, LineColor::Emphasis));
        assert(seg =~= seg0 + hints_scroll_cells(*keybinds));
    }
}

} // verus!

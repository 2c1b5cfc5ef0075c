//! The document bytes together with the modification bitmap: per byte, one
//! flag that records an unsaved in-place edit. Rows of sixteen bytes share
//! one bitmask entry, and a row is present in the map only while at least
//! one of its flags is set.

use std::collections::HashMap;
use vstd::prelude::*;

verus! {

/// Whether bit `i` of `bits` is set. Bit `i` tracks byte `i` of a row.
pub open spec fn bit_set(bits: u16, i: u16) -> bool {
    (bits >> i) & 1 == 1
}

/// Failure of a byte-buffer access.
#[derive(Clone, Copy, Debug, PartialEq, Eq, Structural)]
pub enum BufferError {
    /// The requested offset lies at or beyond the end of the document.
    OutOfRange,
}

/// The byte at `offset` after replacing one of its nibbles: the high one
/// (`half == 0`) or the low one (`half == 1`) by `digit`.
pub open spec fn set_nibble(b: u8, half: usize, digit: u8) -> u8 {
    if half == 0 {
        (b & 0xF) | ((digit << 4) as u8)
    } else {
        (b & 0xF0) | digit
    }
}

/// The document bytes after one nibble overwrite.
pub open spec fn bytes_after_write(bytes: Seq<u8>, offset: usize, half: usize, digit: u8) -> Seq<
    u8,
> {
    bytes.update(offset as int, set_nibble(bytes[offset as int], half, digit))
}

/// The modification map after one nibble overwrite: unchanged when the new
/// byte equals the old one, otherwise the flag of that byte's row slot is set.
pub open spec fn flags_after_write(
    m: Map<usize, u16>,
    bytes: Seq<u8>,
    offset: usize,
    half: usize,
    digit: u8,
) -> Map<usize, u16> {
    let old_b = bytes[offset as int];
    let new_b = set_nibble(old_b, half, digit);
    if new_b == old_b {
        m
    } else {
        let row = (offset / 16) as usize;
        let bits: u16 = if m.contains_key(row) {
            m[row]
        } else {
            0
        };
        m.insert(row, bits | (1u16 << ((offset % 16) as u16)))
    }
}

/// The document bytes and the per-byte unsaved-edit flags.
pub struct ByteBuffer {
    /// The file's contents; its length never changes during a session.
    pub bytes: Vec<u8>,
    /// Row index to one bit per byte of the row; an absent row means
    /// "no byte of this row modified".
    pub modified: HashMap<usize, u16>,
}

impl ByteBuffer {
    /// A row's bitmask appears in the map only while it has a set bit.
    pub open spec fn wf(self) -> bool {
        forall|r: usize| #[trigger] self.modified@.contains_key(r) ==> self.modified@[r] != 0
    }

    /// The stored bitmask of a row, zero when the row is absent.
    pub open spec fn row_bits(self, row: usize) -> u16 {
        if self.modified@.contains_key(row) {
            self.modified@[row]
        } else {
            0
        }
    }

    /// Whether byte `idx` of row `row` carries an unsaved edit.
    pub open spec fn is_modified(self, row: usize, idx: usize) -> bool {
        idx < 16 && bit_set(self.row_bits(row), idx as u16)
    }

    /// Whether no byte of the document carries an unsaved edit.
    pub open spec fn unmodified(self) -> bool {
        self.modified@ =~= Map::<usize, u16>::empty()
    }

    /// Take ownership of the loaded file contents, with no edit recorded.
    pub fn new(bytes: Vec<u8>) -> (r: ByteBuffer)
        ensures
            r.wf(),
            r.bytes@ == bytes@,
            r.unmodified(),
    {
        ByteBuffer { bytes, modified: HashMap::new() }
    }

    /// Number of bytes in the document.
    pub fn len(&self) -> (r: usize)
        ensures
            r == self.bytes@.len(),
    {
        self.bytes.len()
    }

    /// The byte at `offset`, which must lie inside the document.
    pub fn byte_at(&self, offset: usize) -> (r: u8)
        requires
            offset < self.bytes@.len(),
        ensures
            r == self.bytes@[offset as int],
    {
        self.bytes[offset]
    }

    /// The byte at `offset`, or `OutOfRange` exactly when `offset` lies at
    /// or beyond the end of the document.
    pub fn read(&self, offset: usize) -> (r: Result<u8, BufferError>)
        ensures
            offset < self.bytes@.len() ==> r == Ok::<u8, BufferError>(self.bytes@[offset as int]),
            offset >= self.bytes@.len() ==> r == Err::<u8, BufferError>(BufferError::OutOfRange),
    {
        if offset < self.bytes.len() {
            Ok(self.bytes[offset])
        } else {
            Err(BufferError::OutOfRange)
        }
    }

    /// Overwrite one nibble of the byte at `offset`. When this changes the
    /// byte, the byte's modified flag is set; a no-op edit leaves the
    /// modification map untouched.
    pub fn write_nibble(&mut self, offset: usize, half: usize, digit: u8)
        requires
            old(self).wf(),
            offset < old(self).bytes@.len(),
            half < 2,
            digit <= 9,
        ensures
            final(self).wf(),
            final(self).bytes@ == bytes_after_write(old(self).bytes@, offset, half, digit),
            final(self).modified@ == flags_after_write(
                old(self).modified@,
                old(self).bytes@,
                offset,
                half,
                digit,
            ),
    {
        let prev = self.bytes[offset];
        let next = if half == 0 {
            (prev & 0xF) | (digit << 4)
        } else {
            (prev & 0xF0) | digit
        };
        if next != prev {
            self.bytes[offset] = next;
            let row = offset / 16;
            let idx = (offset % 16) as u16;
            let bits = match self.modified.get(&row) {
                Some(b) => *b,
                None => 0,
            };
            let newbits = bits | (1u16 << idx);
            assert(newbits != 0) by (bit_vector)
                requires
                    idx < 16 && newbits == bits | (1u16 << idx),
            ;
            self.modified.insert(row, newbits);
        }
    }

    /// Whether any byte of the document carries an unsaved edit, read off
    /// the map's emptiness.
    pub fn has_unsaved(&self) -> (r: bool)
        ensures
            r == !self.unmodified(),
    {
        !self.modified.is_empty()
    }

    /// Forget every modified flag; the bytes stay as they are. Called when
    /// a save has been confirmed successful.
    pub fn clear_modified(&mut self)
        ensures
            final(self).wf(),
            final(self).bytes@ == old(self).bytes@,
            final(self).unmodified(),
    {
        self.modified.clear();
    }

    /// The bitmask of a row's modified flags, zero for an untouched row;
    /// absent rows read as "all false" without error.
    pub fn row_flags(&self, row: usize) -> (r: u16)
        ensures
            r == self.row_bits(row),
    {
        match self.modified.get(&row) {
            Some(b) => *b,
            None => 0,
        }
    }

    /// A document with no set flag reports no byte as modified.
    pub proof fn lemma_unmodified_no_flags(self)
        requires
            self.unmodified(),
        ensures
            forall|row: usize, idx: usize| !self.is_modified(row, idx),
    {
        assert forall|row: usize, idx: usize| !self.is_modified(row, idx) by {
            assert(!self.modified@.contains_key(row));
            assert(self.row_bits(row) == 0);
            assert(!bit_set(0, idx as u16)) by (bit_vector);
        }
    }
}

/// Writing the same digit to the same nibble a second time is a no-op: the
/// byte value stays, and the modification map (hence every modified flag)
/// stays as it was after the first write.
pub proof fn lemma_write_nibble_idempotent(
    bytes: Seq<u8>,
    m: Map<usize, u16>,
    offset: usize,
    half: usize,
    digit: u8,
)
    requires
        offset < bytes.len(),
        half < 2,
        digit <= 9,
    ensures
        bytes_after_write(bytes_after_write(bytes, offset, half, digit), offset, half, digit)
            == bytes_after_write(bytes, offset, half, digit),
        flags_after_write(
            flags_after_write(m, bytes, offset, half, digit),
            bytes_after_write(bytes, offset, half, digit),
            offset,
            half,
            digit,
        ) == flags_after_write(m, bytes, offset, half, digit),
{
    let b = bytes[offset as int];
    let b1 = set_nibble(b, half, digit);
    assert(set_nibble(b1, half, digit) == b1) by (bit_vector)
        requires
            half < 2 && digit <= 9 && b1 == (if half == 0 {
                (b & 0xF) | ((digit << 4) as u8)
            } else {
                (b & 0xF0) | digit
            }),
    ;
    let bytes1 = bytes_after_write(bytes, offset, half, digit);
    assert(bytes1[offset as int] == b1);
    assert(bytes_after_write(bytes1, offset, half, digit) =~= bytes1);
}

} // verus!

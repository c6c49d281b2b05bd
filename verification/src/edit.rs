//! Atomic byte-range replacement: the `Edit` descriptor, its application to a
//! buffer, and the row/column bookkeeping handed to the caller for each
//! applied edit.

use vstd::prelude::*;

verus! {

/// A single atomic byte-range replacement: delete `deleted_length` bytes at
/// `position`, insert `inserted_text` there. The position refers to the buffer
/// as it exists immediately before application.
pub struct Edit {
    pub position: usize,
    pub deleted_length: usize,
    pub inserted_text: Vec<u8>,
}

impl Edit {
    /// The edit's deleted range lies within a buffer of `n` bytes and the
    /// edited buffer still fits in a machine-sized length.
    pub open spec fn valid(&self, n: int) -> bool {
        &&& self.position + self.deleted_length <= n
        &&& n - self.deleted_length + self.inserted_text@.len() <= usize::MAX as int
    }
}

/// The mathematical value of an edit.
pub struct SpecEdit {
    pub position: usize,
    pub deleted_length: usize,
    pub inserted_text: Seq<u8>,
}

impl View for Edit {
    type V = SpecEdit;

    open spec fn view(&self) -> SpecEdit {
        SpecEdit {
            position: self.position,
            deleted_length: self.deleted_length,
            inserted_text: self.inserted_text@,
        }
    }
}

impl SpecEdit {
    /// The edit's deleted range lies within a buffer of `n` bytes and the
    /// edited buffer still fits in a machine-sized length.
    pub open spec fn valid(&self, n: int) -> bool {
        &&& self.position + self.deleted_length <= n
        &&& n - self.deleted_length + self.inserted_text.len() <= usize::MAX as int
    }
}

/// A row/column position in the buffer.
pub struct Point {
    pub row: usize,
    pub column: usize,
}

/// The description of an applied edit: byte offsets and row/column positions
/// of the replaced range's start, of its old end, and of its new end, the last
/// measured in the buffer after application.
pub struct InputEdit {
    pub start_byte: usize,
    pub old_end_byte: usize,
    pub new_end_byte: usize,
    pub start_position: Point,
    pub old_end_position: Point,
    pub new_end_position: Point,
}

/// The buffer that applying an edit produces.
pub open spec fn spec_apply_edit(buf: Seq<u8>, pos: int, del: int, ins: Seq<u8>) -> Seq<u8> {
    buf.take(pos) + ins + buf.skip(pos + del)
}

/// The number of line breaks before `off`.
pub open spec fn spec_row(buf: Seq<u8>, off: int) -> int
    decreases off,
{
    if off <= 0 {
        0
    } else {
        spec_row(buf, off - 1) + if buf[off - 1] == 10 { 1int } else { 0int }
    }
}

/// The number of bytes between `off` and the line break before it.
pub open spec fn spec_col(buf: Seq<u8>, off: int) -> int
    decreases off,
{
    if off <= 0 {
        0
    } else if buf[off - 1] == 10 {
        0
    } else {
        spec_col(buf, off - 1) + 1
    }
}

/// The row/column position of a byte offset in a buffer.
pub fn position_for_offset(input: &Vec<u8>, offset: usize) -> (r: Point)
    requires
        offset <= input@.len(),
    ensures
        r.row == spec_row(input@, offset as int),
        r.column == spec_col(input@, offset as int),
{
    let mut row: usize = 0;
    let mut column: usize = 0;
    let mut i: usize = 0;
    while i < offset
        invariant
            0 <= i <= offset <= input@.len(),
            row == spec_row(input@, i as int),
            column == spec_col(input@, i as int),
            row <= i,
            column <= i,
        decreases offset - i,
    {
        if input[i] == 10 {
            row += 1;
            column = 0;
        } else {
            column += 1;
        }
        i += 1;
    }
    Point { row, column }
}

/// Applies an edit to the buffer and reports the changed range: only the bytes
/// in `[position, position + deleted_length)` are replaced; everything before
/// the position is kept, and everything after is kept and shifted by the
/// length difference.
pub fn perform_edit(input: &mut Vec<u8>, edit: &Edit) -> (r: InputEdit)
    requires
        edit.valid(old(input)@.len() as int),
    ensures
        final(input)@ == spec_apply_edit(
            old(input)@,
            edit.position as int,
            edit.deleted_length as int,
            edit.inserted_text@,
        ),
        final(input)@.len() == old(input)@.len() - edit.deleted_length
            + edit.inserted_text@.len(),
        r.start_byte == edit.position,
        r.old_end_byte == edit.position + edit.deleted_length,
        r.new_end_byte == edit.position + edit.inserted_text@.len(),
        r.start_position.row == spec_row(old(input)@, edit.position as int),
        r.start_position.column == spec_col(old(input)@, edit.position as int),
        r.old_end_position.row == spec_row(
            old(input)@,
            edit.position + edit.deleted_length,
        ),
        r.old_end_position.column == spec_col(
            old(input)@,
            edit.position + edit.deleted_length,
        ),
        r.new_end_position.row == spec_row(
            final(input)@,
            edit.position + edit.inserted_text@.len(),
        ),
        r.new_end_position.column == spec_col(
            final(input)@,
            edit.position + edit.inserted_text@.len(),
        ),
{
    let n = input.len();
    let start_byte = edit.position;
    let old_end_byte = edit.position + edit.deleted_length;
    let new_end_byte = edit.position + edit.inserted_text.len();
    let start_position = position_for_offset(input, start_byte);
    let old_end_position = position_for_offset(input, old_end_byte);

    let mut out: Vec<u8> = Vec::new();
    let mut i: usize = 0;
    while i < start_byte
        invariant
            0 <= i <= start_byte <= n == input@.len(),
            out@ == input@.take(i as int),
        decreases start_byte - i,
    {
        out.push(input[i]);
        i += 1;
    }
    let mut k: usize = 0;
    let ins_len = edit.inserted_text.len();
    while k < ins_len
        invariant
            0 <= k <= ins_len == edit.inserted_text@.len(),
            start_byte <= n == input@.len(),
            out@ == input@.take(start_byte as int) + edit.inserted_text@.take(k as int),
        decreases ins_len - k,
    {
        out.push(edit.inserted_text[k]);
        k += 1;
    }
    proof {
        assert(edit.inserted_text@.take(ins_len as int) == edit.inserted_text@);
    }
    let mut j: usize = old_end_byte;
    while j < n
        invariant
            old_end_byte <= j <= n == input@.len(),
            start_byte + edit.deleted_length == old_end_byte,
            out@ == input@.take(start_byte as int) + edit.inserted_text@
                + input@.subrange(old_end_byte as int, j as int),
        decreases n - j,
    {
        out.push(input[j]);
        j += 1;
    }
    proof {
        assert(input@.subrange(old_end_byte as int, n as int)
            == input@.skip(old_end_byte as int));
    }
    *input = out;

    let new_end_position = position_for_offset(input, new_end_byte);

    InputEdit {
        start_byte,
        old_end_byte,
        new_end_byte,
        start_position,
        old_end_position,
        new_end_position,
    }
}

/// Applying an edit leaves every byte before the edited range in place and
/// moves every byte at or after the range's old end by exactly the length
/// difference between the inserted and the deleted bytes.
pub proof fn lemma_edit_locality(buf: Seq<u8>, pos: int, del: int, ins: Seq<u8>)
    requires
        0 <= pos,
        0 <= del,
        pos + del <= buf.len(),
    ensures
        spec_apply_edit(buf, pos, del, ins).len() == buf.len() - del + ins.len(),
        forall|i: int| 0 <= i < pos ==> spec_apply_edit(buf, pos, del, ins)[i] == buf[i],
        forall|i: int| pos + del <= i < buf.len()
            ==> spec_apply_edit(buf, pos, del, ins)[i - del + ins.len()] == buf[i],
        forall|i: int| pos <= i < pos + ins.len()
            ==> spec_apply_edit(buf, pos, del, ins)[i] == ins[i - pos],
{
}

} // verus!

//! The line reader's step: take one line's bytes, or as many as there are,
//! from the chunk that a buffered source currently holds.

use vstd::prelude::*;
use crate::header::LINE_FEED;
use crate::search::{find_byte, first_index_of};

verus! {

/// What one step of the line reader did with the source's current chunk.
pub struct ChunkTake {
    /// Bytes appended to the line, and to be consumed from the source.
    pub consumed: usize,
    /// The line is complete: a line feed was taken, or the source is empty.
    pub line_done: bool,
}

/// Appends to `buf` the bytes of `available` up to and including its first
/// line feed, or all of them when it has none. An empty chunk means that the
/// source is exhausted, which ends the line.
pub fn take_line_chunk(available: &[u8], buf: &mut Vec<u8>) -> (r: ChunkTake)
    ensures
        available@.len() == 0 ==> r.consumed == 0 && r.line_done,
        first_index_of(available@, LINE_FEED) >= 0 ==> r.consumed == first_index_of(
            available@,
            LINE_FEED,
        ) + 1 && r.line_done,
        available@.len() > 0 && first_index_of(available@, LINE_FEED) < 0 ==> r.consumed
            == available@.len() && !r.line_done,
        final(buf)@ == old(buf)@ + available@.subrange(0, r.consumed as int),
{
    if available.len() == 0 {
        assert(available@.subrange(0, 0) =~= Seq::<u8>::empty());
        assert(buf@ =~= buf@ + Seq::<u8>::empty());
        return ChunkTake { consumed: 0, line_done: true };
    }
    match find_byte(LINE_FEED, available) {
        Some(pos) => {
            let part = vstd::slice::slice_subrange(available, 0, pos + 1);
            buf.extend_from_slice(part);
            assert(buf@ =~= old(buf)@ + available@.subrange(0, pos + 1));
            ChunkTake { consumed: pos + 1, line_done: true }
        },
        None => {
            buf.extend_from_slice(available);
            assert(available@.subrange(0, available@.len() as int) =~= available@);
            assert(buf@ =~= old(buf)@ + available@);
            ChunkTake { consumed: available.len(), line_done: false }
        },
    }
}

} // verus!

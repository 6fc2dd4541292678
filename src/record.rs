//! Record-level decisions: which line of a four-line record comes next, when
//! the stream ends cleanly, when it is truncated, and when a record is ready
//! to be rewritten and written out.

use vstd::prelude::*;
use crate::header::{
    rewrite_i5, rewrite_header_i5, is_line, ends_with_line_feed, law_rewrite_keeps_line,
};

verus! {

/// The four lines of a FASTQ record, in the order in which they come.
#[derive(Clone, Copy, Debug, PartialEq, Eq, Structural)]
pub enum LineKind {
    Header,
    Sequence,
    Plus,
    Quality,
}

/// The errors that end a run.
#[derive(Clone, Copy, Debug, PartialEq, Eq, Structural)]
pub enum StreamError {
    /// The stream ended after a header but before the record's fourth line.
    TruncatedRecord,
}

impl StreamError {
    /// The diagnostic that a failed run reports.
    pub fn message(&self) -> (r: String)
        ensures
            r@ == "truncated FASTQ record (expected 4 lines)"@,
    {
        match self {
            StreamError::TruncatedRecord => "truncated FASTQ record (expected 4 lines)".to_owned(),
        }
    }
}

/// What the driver does next.
#[derive(Clone, Copy, Debug, PartialEq, Eq, Structural)]
pub enum Action {
    /// Read the next line of the record, of the kind given.
    ReadLine(LineKind),
    /// The stream ended cleanly before a header: flush and stop.
    Finish,
    /// The run fails.
    Fail(StreamError),
    /// All four lines are in: rewrite the header and write the record.
    WriteRecord,
}

/// Position of a line kind within its record.
pub open spec fn kind_index(k: LineKind) -> int {
    match k {
        LineKind::Header => 0,
        LineKind::Sequence => 1,
        LineKind::Plus => 2,
        LineKind::Quality => 3,
    }
}

/// Decides what follows a read of `line_len` bytes for a line of kind
/// `kind`. Zero bytes for a header is a clean end of stream; zero bytes for
/// any later line of the record is a truncated record.
pub fn next_action(kind: LineKind, line_len: usize) -> (r: Action)
    ensures
        line_len == 0 && kind == LineKind::Header ==> r == Action::Finish,
        line_len == 0 && kind != LineKind::Header ==> r == Action::Fail(
            StreamError::TruncatedRecord,
        ),
        line_len > 0 && kind == LineKind::Header ==> r == Action::ReadLine(LineKind::Sequence),
        line_len > 0 && kind == LineKind::Sequence ==> r == Action::ReadLine(LineKind::Plus),
        line_len > 0 && kind == LineKind::Plus ==> r == Action::ReadLine(LineKind::Quality),
        line_len > 0 && kind == LineKind::Quality ==> r == Action::WriteRecord,
{
    if line_len == 0 {
        match kind {
            LineKind::Header => Action::Finish,
            _ => Action::Fail(StreamError::TruncatedRecord),
        }
    } else {
        match kind {
            LineKind::Header => Action::ReadLine(LineKind::Sequence),
            LineKind::Sequence => Action::ReadLine(LineKind::Plus),
            LineKind::Plus => Action::ReadLine(LineKind::Quality),
            LineKind::Quality => Action::WriteRecord,
        }
    }
}

/// The bytes of each line.
pub open spec fn lines_view(v: Seq<Vec<u8>>) -> Seq<Seq<u8>> {
    Seq::new(v.len(), |i: int| v[i]@)
}

/// A stream of lines after the run: the header of every complete four-line
/// record rewritten, every other line as it was.
pub open spec fn fixed_lines(lines: Seq<Seq<u8>>) -> Seq<Seq<u8>> {
    Seq::new(
        lines.len(),
        |i: int|
            if i % 4 == 0 && i + 4 <= lines.len() {
                rewrite_i5(lines[i])
            } else {
                lines[i]
            },
    )
}

/// Runs the record loop over a stream held in memory, one element per line
/// as the line reader returns them. Every complete record has its header
/// rewritten; the run fails exactly when the last record is incomplete.
pub fn fix_lines(lines: &mut Vec<Vec<u8>>) -> (r: Result<(), StreamError>)
    requires
        forall|i: int| 0 <= i < old(lines)@.len() ==> old(lines)@[i]@.len() > 0,
    ensures
        lines_view(final(lines)@) == fixed_lines(lines_view(old(lines)@)),
        r is Ok <==> old(lines)@.len() % 4 == 0,
        r is Err ==> r == Err::<(), StreamError>(StreamError::TruncatedRecord),
{
    let ghost orig = lines_view(lines@);
    let n = lines.len();
    let mut idx: usize = 0;
    let mut kind = LineKind::Header;
    loop
        invariant
            n == lines@.len(),
            n == orig.len(),
            orig == lines_view(old(lines)@),
            0 <= idx <= n,
            kind_index(kind) == idx % 4,
            forall|i: int| 0 <= i < n ==> orig[i].len() > 0,
            lines_view(lines@) == Seq::new(
                n as nat,
                |i: int|
                    if i % 4 == 0 && i + 4 <= idx {
                        rewrite_i5(orig[i])
                    } else {
                        orig[i]
                    },
            ),
        decreases n - idx,
    {
        let len = if idx < n {
            lines[idx].len()
        } else {
            0
        };
        assert(idx < n ==> len == orig[idx as int].len()) by {
            if idx < n {
                assert(lines_view(lines@)[idx as int] == lines@[idx as int]@);
            }
        }
        match next_action(kind, len) {
            Action::Finish => {
                assert(lines_view(lines@) =~= fixed_lines(orig));
                return Ok(());
            },
            Action::Fail(e) => {
                assert(lines_view(lines@) =~= fixed_lines(orig));
                return Err(e);
            },
            Action::ReadLine(k) => {
                kind = k;
                idx += 1;
            },
            Action::WriteRecord => {
                let ghost before = lines_view(lines@);
                let ghost h = idx - 3;
                assert(before[h] == orig[h]);
                assert(before[h] == lines@[h]@);
                rewrite_header_i5(&mut lines[idx - 3]);
                assert(lines@[h]@ == rewrite_i5(orig[h]));
                assert(lines_view(lines@) =~= before.update(idx - 3, rewrite_i5(orig[idx - 3])));
                kind = LineKind::Header;
                idx += 1;
            },
        }
    }
}

/// Running the record loop twice over a stream of lines gives the stream
/// back, and each line of the output is still one line that ends with a
/// line feed exactly when the input line did, so reading the output splits
/// it into the same lines.
pub proof fn law_stream_round_trip(lines: Seq<Seq<u8>>)
    requires
        forall|i: int| 0 <= i < lines.len() ==> is_line(#[trigger] lines[i]),
    ensures
        fixed_lines(fixed_lines(lines)) == lines,
        forall|i: int|
            0 <= i < lines.len() ==> is_line(#[trigger] fixed_lines(lines)[i])
                && ends_with_line_feed(fixed_lines(lines)[i]) == ends_with_line_feed(lines[i]),
{
    assert forall|i: int| 0 <= i < lines.len() implies is_line(#[trigger] fixed_lines(lines)[i])
        && ends_with_line_feed(fixed_lines(lines)[i]) == ends_with_line_feed(lines[i])
        && fixed_lines(fixed_lines(lines))[i] == lines[i] by {
        law_rewrite_keeps_line(lines[i]);
    }
    assert(fixed_lines(fixed_lines(lines)) =~= lines);
}

} // verus!

//! A cursor over one slice of a file.
//!
//! The reader holds no file. It says which transfer the next read needs, and
//! is told what the transfer delivered: whoever owns the file seeks, reads and
//! reports back.

use crate::range::{rejection, resolve_range, resolved_end, resolved_start};
use crate::range::{ByteRange, RangeError, RawRangeSpec};
use vstd::prelude::*;

verus! {

/// A reader as three positions in the file.
pub struct ReaderView {
    pub start: int,
    pub end: int,
    pub cursor: int,
}

/// The sum of a run of byte counts.
pub open spec fn total(counts: Seq<int>) -> int
    decreases counts.len(),
{
    if counts.len() == 0 {
        0
    } else {
        total(counts.drop_last()) + counts.last()
    }
}

impl ReaderView {
    /// The cursor lies in the slice, and the slice in the machine's offsets.
    pub open spec fn wf(self) -> bool {
        0 <= self.start <= self.cursor <= self.end <= u64::MAX
    }

    /// The size of the slice, whatever the size of the file.
    pub open spec fn len(self) -> int {
        self.end - self.start
    }

    /// The bytes between the cursor and the end of the slice.
    pub open spec fn remaining(self) -> int {
        self.end - self.cursor
    }

    /// Nothing is left to read.
    pub open spec fn exhausted(self) -> bool {
        self.cursor == self.end
    }

    /// The transfer that a read into a buffer of `buffer_len` bytes asks for, as
    /// offset and length: none once the slice is exhausted, else as much of the
    /// buffer as the slice still has, from the cursor on.
    pub open spec fn request(self, buffer_len: int) -> Option<(int, int)> {
        if self.exhausted() {
            None
        } else if buffer_len <= self.remaining() {
            Some((self.cursor, buffer_len))
        } else {
            Some((self.cursor, self.remaining()))
        }
    }

    /// The reader after `count` bytes were delivered.
    pub open spec fn advanced(self, count: int) -> ReaderView {
        ReaderView { start: self.start, end: self.end, cursor: self.cursor + count }
    }

    /// The reader after a run of reads that delivered `counts` bytes in turn.
    pub open spec fn after(self, counts: Seq<int>) -> ReaderView
        decreases counts.len(),
    {
        if counts.len() == 0 {
            self
        } else {
            self.after(counts.drop_last()).advanced(counts.last())
        }
    }

    /// Whether a run of reads can have delivered `counts` bytes in turn: no
    /// read delivers more than the slice had left when it was made.
    pub open spec fn admits(self, counts: Seq<int>) -> bool
        decreases counts.len(),
    {
        counts.len() == 0 || {
            &&& self.admits(counts.drop_last())
            &&& 0 <= counts.last() <= self.after(counts.drop_last()).remaining()
        }
    }

    /// The bytes that a run of reads hands out, where each transfer delivers
    /// the bytes of `content` at the offset it was asked for.
    pub open spec fn delivered(self, content: Seq<u8>, counts: Seq<int>) -> Seq<u8>
        decreases counts.len(),
    {
        if counts.len() == 0 {
            Seq::empty()
        } else {
            let before = self.after(counts.drop_last());
            self.delivered(content, counts.drop_last()) + content.subrange(
                before.cursor,
                before.cursor + counts.last(),
            )
        }
    }
}

/// A run of reads moves the cursor by the bytes it delivered, never past the
/// end of the slice, and hands out the bytes that it moved over, in order.
pub proof fn lemma_run(reader: ReaderView, content: Seq<u8>, counts: Seq<int>)
    requires
        reader.wf(),
        reader.end <= content.len(),
        reader.admits(counts),
    ensures
        reader.after(counts).wf(),
        reader.after(counts) == reader.advanced(total(counts)),
        0 <= total(counts) <= reader.remaining(),
        reader.delivered(content, counts) == content.subrange(
            reader.cursor,
            reader.cursor + total(counts),
        ),
    decreases counts.len(),
{
    if counts.len() > 0 {
        lemma_run(reader, content, counts.drop_last());
    }
}

/// A pass over the slice, from a fresh reader until nothing is left, delivers
/// as many bytes as the slice is long, and they are the bytes of the slice:
/// each byte is the file's byte at its offset.
pub proof fn lemma_pass_delivers_slice(reader: ReaderView, content: Seq<u8>, counts: Seq<int>)
    requires
        reader.wf(),
        reader.cursor == reader.start,
        reader.end <= content.len(),
        reader.admits(counts),
        reader.after(counts).exhausted(),
    ensures
        total(counts) == reader.len(),
        reader.delivered(content, counts) == content.subrange(reader.start, reader.end),
{
    lemma_run(reader, content, counts);
}

/// An exhausted reader asks for no transfer, whatever the buffer, and a run
/// of reads on it delivers nothing and leaves it as it is.
pub proof fn lemma_exhausted_stays(reader: ReaderView, buffer_len: int, counts: Seq<int>)
    requires
        reader.wf(),
        reader.exhausted(),
        reader.admits(counts),
    ensures
        reader.request(buffer_len) is None,
        reader.after(counts) == reader,
        forall|i: int| 0 <= i < counts.len() ==> counts[i] == 0,
    decreases counts.len(),
{
    if counts.len() > 0 {
        let earlier = counts.drop_last();
        lemma_exhausted_stays(reader, buffer_len, earlier);
        assert forall|i: int| 0 <= i < counts.len() implies counts[i] == 0 by {
            if i < earlier.len() {
                assert(counts[i] == earlier[i]);
            }
        }
    }
}

/// The transfer that a read needs: `len` bytes of the file from `offset` on.
#[derive(Clone, Copy, Debug, PartialEq, Eq)]
pub struct ReadRequest {
    pub offset: u64,
    pub len: usize,
}

/// A cursor over the slice `[start, end)` of a file.
#[derive(Debug)]
pub struct SliceReader {
    start: u64,
    end: u64,
    cursor: u64,
}

impl View for SliceReader {
    type V = ReaderView;

    closed spec fn view(&self) -> ReaderView {
        ReaderView { start: self.start as int, end: self.end as int, cursor: self.cursor as int }
    }
}

impl SliceReader {
    #[verifier::type_invariant]
    spec fn cursor_in_slice(self) -> bool {
        self.start <= self.cursor <= self.end
    }

    /// A reader over the slice that the raw range denotes in a file of
    /// `file_size` bytes, with the cursor at the start of the slice. The range
    /// is resolved as `resolve_range` does, and refused as it is there.
    pub fn new(file_size: u64, raw_start: Option<i64>, raw_end: Option<i64>) -> (result: Result<
        SliceReader,
        RangeError,
    >)
        ensures
            ({
                let raw = RawRangeSpec { start: raw_start, end: raw_end };
                match rejection(raw, file_size) {
                    Some(error) => result == Err::<SliceReader, RangeError>(error),
                    None => result matches Ok(reader) && reader@ == (ReaderView {
                        start: resolved_start(raw, file_size),
                        end: resolved_end(raw, file_size),
                        cursor: resolved_start(raw, file_size),
                    }),
                }
            }),
            result matches Ok(reader) ==> reader@.wf() && reader@.end <= file_size,
    {
        match resolve_range(RawRangeSpec { start: raw_start, end: raw_end }, file_size) {
            Ok(range) => Ok(SliceReader::from_range(range)),
            Err(error) => Err(error),
        }
    }

    /// A reader over `range`, with the cursor at its start.
    pub fn from_range(range: ByteRange) -> (reader: SliceReader)
        ensures
            reader@ == (ReaderView { start: range@.0, end: range@.1, cursor: range@.0 }),
            reader@.wf(),
    {
        let start: u64 = range.start();
        let end: u64 = range.end();
        SliceReader { start, end, cursor: start }
    }

    /// The size of the slice: `end - start`, whatever the size of the file and
    /// wherever the cursor stands.
    pub fn len(&self) -> (len: u64)
        ensures
            len == self@.len(),
            self@.wf(),
    {
        proof {
            use_type_invariant(self);
        }
        self.end - self.start
    }

    /// The transfer that a read into a buffer of `buffer_len` bytes needs: none
    /// once the cursor has reached the end of the slice, else from the cursor
    /// on, the buffer's length or what the slice has left, whichever is less.
    pub fn next_read(&self, buffer_len: usize) -> (request: Option<ReadRequest>)
        ensures
            self@.wf(),
            match self@.request(buffer_len as int) {
                None => request is None,
                Some((offset, len)) => request == Some(
                    ReadRequest { offset: offset as u64, len: len as usize },
                ),
            },
            request matches Some(r) ==> r.offset == self@.cursor && r.len <= buffer_len
                && r.offset + r.len <= self@.end,
    {
        proof {
            use_type_invariant(self);
        }
        let left: u64 = self.end - self.cursor;
        if left == 0 {
            return None;
        }
        let len: usize = if buffer_len as u64 > left {
            left as usize
        } else {
            buffer_len
        };
        Some(ReadRequest { offset: self.cursor, len })
    }

    /// Takes note of how a transfer ended, and gives what the read returns.
    /// A transfer that delivered `count` bytes moves the cursor by `count`; one
    /// that failed leaves the reader as it was and hands the failure on.
    pub fn complete_read<E>(&mut self, outcome: Result<usize, E>) -> (result: Result<usize, E>)
        requires
            outcome matches Ok(count) ==> count <= old(self)@.remaining(),
        ensures
            result == outcome,
            final(self)@ == (match outcome {
                Ok(count) => old(self)@.advanced(count as int),
                Err(_) => old(self)@,
            }),
            final(self)@.wf(),
    {
        proof {
            use_type_invariant(&*self);
        }
        match outcome {
            Ok(count) => {
                self.cursor = self.cursor + count as u64;
                Ok(count)
            },
            Err(error) => Err(error),
        }
    }
}

} // verus!

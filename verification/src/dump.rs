//! The two dumps, each as a machine that is fed what was read, chunk by
//! chunk, and says what to print.

use crate::hex::{format_inline, format_line, line_number_width};
use crate::hex::{hex_cells, lemma_hex_cells_concat, number_width, table_line};
use vstd::prelude::*;
use vstd::slice::slice_subrange;

verus! {

/// The lines that the table holds back before it hands them out.
pub const FLUSH_LINES: u64 = 16;

/// The bytes that the continuous dump asks for at a time.
pub const INLINE_CHUNK: usize = 1024;

/// A table dump in progress.
pub struct TableView {
    /// Whether each line begins with its number.
    pub line_numbers: bool,
    /// Whether each line ends with the text column.
    pub ascii: bool,
    /// The digits that a line number is filled up to.
    pub width: nat,
    /// The lines made so far.
    pub lines: nat,
    /// The text made and not handed out yet.
    pub pending: Seq<char>,
}

impl TableView {
    /// The line that `chunk` makes.
    pub open spec fn line(self, chunk: Seq<u8>) -> Seq<char> {
        table_line(self.lines, self.width, chunk, self.line_numbers, self.ascii)
    }

    /// Whether the next line completes a block of sixteen.
    pub open spec fn flush_due(self) -> bool {
        (self.lines + 1) % 16 == 0
    }

    /// What is handed out when `chunk` is fed: with each sixteenth line, all
    /// the text that was held back, that line included.
    pub open spec fn flushed(self, chunk: Seq<u8>) -> Option<Seq<char>> {
        if self.flush_due() {
            Some(self.pending + self.line(chunk))
        } else {
            None
        }
    }

    /// The dump after `chunk` was fed.
    pub open spec fn fed(self, chunk: Seq<u8>) -> TableView {
        TableView {
            line_numbers: self.line_numbers,
            ascii: self.ascii,
            width: self.width,
            lines: self.lines + 1,
            pending: if self.flush_due() {
                Seq::empty()
            } else {
                self.pending + self.line(chunk)
            },
        }
    }
}

impl TableView {
    /// The dump after the chunks were fed, one after the other.
    pub open spec fn fed_all(self, chunks: Seq<Seq<u8>>) -> TableView
        decreases chunks.len(),
    {
        if chunks.len() == 0 {
            self
        } else {
            self.fed_all(chunks.drop_last()).fed(chunks.last())
        }
    }

    /// All the text that was handed out while the chunks were fed.
    pub open spec fn flushed_all(self, chunks: Seq<Seq<u8>>) -> Seq<char>
        decreases chunks.len(),
    {
        if chunks.len() == 0 {
            Seq::empty()
        } else {
            self.flushed_all(chunks.drop_last()) + (match self.fed_all(
                chunks.drop_last(),
            ).flushed(chunks.last()) {
                Some(text) => text,
                None => Seq::empty(),
            })
        }
    }

    /// The lines that the chunks make, one behind the other, numbered on from
    /// where the dump stands.
    pub open spec fn lines_of(self, chunks: Seq<Seq<u8>>) -> Seq<char>
        decreases chunks.len(),
    {
        if chunks.len() == 0 {
            Seq::empty()
        } else {
            self.lines_of(chunks.drop_last()) + table_line(
                (self.lines + chunks.len() - 1) as nat,
                self.width,
                chunks.last(),
                self.line_numbers,
                self.ascii,
            )
        }
    }
}

/// Holding lines back loses nothing and moves nothing: the text handed out
/// while the chunks were fed, and behind it the text still held back, is the
/// text held back at first and behind it the lines of the chunks in order.
pub proof fn lemma_table_text(dump: TableView, chunks: Seq<Seq<u8>>)
    ensures
        dump.flushed_all(chunks) + dump.fed_all(chunks).pending == dump.pending + dump.lines_of(
            chunks,
        ),
        dump.fed_all(chunks).lines == dump.lines + chunks.len(),
        dump.fed_all(chunks).width == dump.width,
        dump.fed_all(chunks).line_numbers == dump.line_numbers,
        dump.fed_all(chunks).ascii == dump.ascii,
    decreases chunks.len(),
{
    if chunks.len() == 0 {
        assert(dump.flushed_all(chunks) + dump.fed_all(chunks).pending =~= dump.pending
            + dump.lines_of(chunks));
    } else {
        let earlier = chunks.drop_last();
        lemma_table_text(dump, earlier);
        let before = dump.fed_all(earlier);
        let line = before.line(chunks.last());
        assert(dump.flushed_all(chunks) + dump.fed_all(chunks).pending =~= (dump.flushed_all(
            earlier,
        ) + before.pending) + line);
        assert(dump.pending + dump.lines_of(chunks) =~= (dump.pending + dump.lines_of(earlier))
            + line);
    }
}

/// Builds the table: one line for each chunk, handed out in blocks of
/// sixteen lines.
pub struct TableDump {
    display_line_numbers: bool,
    display_ascii: bool,
    width: usize,
    line_number: u64,
    pending: String,
}

impl View for TableDump {
    type V = TableView;

    closed spec fn view(&self) -> TableView {
        TableView {
            line_numbers: self.display_line_numbers,
            ascii: self.display_ascii,
            width: self.width as nat,
            lines: self.line_number as nat,
            pending: self.pending@,
        }
    }
}

impl TableDump {
    /// The table for a slice of `slice_len` bytes, with no line made yet.
    pub fn new(slice_len: u64, display_line_numbers: bool, display_ascii: bool) -> (dump: TableDump)
        ensures
            dump@ == (TableView {
                line_numbers: display_line_numbers,
                ascii: display_ascii,
                width: number_width(slice_len),
                lines: 0,
                pending: Seq::empty(),
            }),
    {
        TableDump {
            display_line_numbers,
            display_ascii,
            width: line_number_width(slice_len),
            line_number: 0,
            pending: String::new(),
        }
    }

    /// The number of lines made so far.
    pub fn lines(&self) -> (lines: u64)
        ensures
            lines == self@.lines,
    {
        self.line_number
    }

    /// Makes the line for `chunk`. With each sixteenth line the text held
    /// back so far is handed out to be printed.
    pub fn push_chunk(&mut self, chunk: &[u8]) -> (flushed: Option<String>)
        requires
            old(self)@.lines < u64::MAX,
        ensures
            final(self)@ == old(self)@.fed(chunk@),
            match old(self)@.flushed(chunk@) {
                Some(text) => flushed matches Some(printed) && printed@ == text,
                None => flushed is None,
            },
    {
        let line: String = format_line(
            self.line_number,
            self.width,
            chunk,
            self.display_line_numbers,
            self.display_ascii,
        );
        self.pending.append(line.as_str());
        self.line_number = self.line_number + 1;
        if self.line_number % FLUSH_LINES == 0 {
            let mut text: String = String::new();
            core::mem::swap(&mut text, &mut self.pending);
            Some(text)
        } else {
            None
        }
    }

    /// Ends the dump: the text that is still held back.
    pub fn finish(self) -> (text: String)
        ensures
            text@ == self@.pending,
    {
        self.pending
    }
}

/// A continuous dump in progress: the size of the slice and the bytes shown
/// so far.
pub struct InlineView {
    pub slice_len: nat,
    pub shown: nat,
}

impl InlineView {
    /// How many bytes of a chunk of `chunk_len` bytes are shown: all of them,
    /// but no more than the slice still lacks.
    pub open spec fn take(self, chunk_len: nat) -> nat {
        if self.shown + chunk_len <= self.slice_len {
            chunk_len
        } else {
            (self.slice_len - self.shown) as nat
        }
    }

    /// The dump after a chunk of `chunk_len` bytes was fed.
    pub open spec fn fed(self, chunk_len: nat) -> InlineView {
        InlineView { slice_len: self.slice_len, shown: self.shown + self.take(chunk_len) }
    }

    /// Whether the whole slice was shown.
    pub open spec fn complete(self) -> bool {
        self.shown >= self.slice_len
    }
}

impl InlineView {
    /// The dump after the chunks were fed, one after the other.
    pub open spec fn fed_all(self, chunks: Seq<Seq<u8>>) -> InlineView
        decreases chunks.len(),
    {
        if chunks.len() == 0 {
            self
        } else {
            self.fed_all(chunks.drop_last()).fed(chunks.last().len())
        }
    }

    /// The bytes that are shown while the chunks are fed: of each chunk as
    /// many as the slice still lacked when it came.
    pub open spec fn shown_of(self, chunks: Seq<Seq<u8>>) -> Seq<u8>
        decreases chunks.len(),
    {
        if chunks.len() == 0 {
            Seq::empty()
        } else {
            self.shown_of(chunks.drop_last()) + chunks.last().take(
                self.fed_all(chunks.drop_last()).take(chunks.last().len()) as int,
            )
        }
    }

    /// The digits that are handed out while the chunks are fed.
    pub open spec fn text_of(self, chunks: Seq<Seq<u8>>) -> Seq<char>
        decreases chunks.len(),
    {
        if chunks.len() == 0 {
            Seq::empty()
        } else {
            self.text_of(chunks.drop_last()) + hex_cells(
                chunks.last().take(
                    self.fed_all(chunks.drop_last()).take(chunks.last().len()) as int,
                ),
                Seq::empty(),
            )
        }
    }
}

/// The continuous dump made chunk by chunk is the dump of the bytes shown,
/// taken as one run, and it never shows more bytes than the slice has.
pub proof fn lemma_inline_text(dump: InlineView, chunks: Seq<Seq<u8>>)
    requires
        dump.shown <= dump.slice_len,
    ensures
        dump.text_of(chunks) == hex_cells(dump.shown_of(chunks), Seq::empty()),
        dump.fed_all(chunks).shown == dump.shown + dump.shown_of(chunks).len(),
        dump.fed_all(chunks).shown <= dump.slice_len,
        dump.fed_all(chunks).slice_len == dump.slice_len,
    decreases chunks.len(),
{
    if chunks.len() > 0 {
        let earlier = chunks.drop_last();
        lemma_inline_text(dump, earlier);
        let part = chunks.last().take(dump.fed_all(earlier).take(chunks.last().len()) as int);
        lemma_hex_cells_concat(dump.shown_of(earlier), part, Seq::empty());
    }
}

/// What the continuous dump says of one chunk.
#[derive(Debug)]
pub struct InlineStep {
    /// The digits to print.
    pub text: String,
    /// Whether the slice is complete, so that no read need follow.
    pub done: bool,
}

/// Builds the continuous dump: the digits of each chunk, and an end as soon
/// as the slice is complete.
pub struct InlineDump {
    slice_len: u64,
    shown: u64,
}

impl View for InlineDump {
    type V = InlineView;

    closed spec fn view(&self) -> InlineView {
        InlineView { slice_len: self.slice_len as nat, shown: self.shown as nat }
    }
}

impl InlineDump {
    #[verifier::type_invariant]
    spec fn within_slice(self) -> bool {
        self.shown <= self.slice_len
    }

    /// The dump of a slice of `slice_len` bytes, with nothing shown yet.
    pub fn new(slice_len: u64) -> (dump: InlineDump)
        ensures
            dump@ == (InlineView { slice_len: slice_len as nat, shown: 0 }),
    {
        InlineDump { slice_len, shown: 0 }
    }

    /// The digits for `chunk`, cut off where the slice ends, and whether the
    /// slice is complete with them.
    pub fn push_chunk(&mut self, chunk: &[u8]) -> (step: InlineStep)
        ensures
            final(self)@ == old(self)@.fed(chunk@.len()),
            step.text@ == hex_cells(
                chunk@.take(old(self)@.take(chunk@.len()) as int),
                Seq::empty(),
            ),
            step.done == final(self)@.complete(),
            final(self)@.shown <= final(self)@.slice_len,
    {
        proof {
            use_type_invariant(&*self);
        }
        let left: u64 = self.slice_len - self.shown;
        let take: usize = if chunk.len() as u64 > left {
            left as usize
        } else {
            chunk.len()
        };
        let text: String = format_inline(slice_subrange(chunk, 0, take));
        self.shown = self.shown + take as u64;
        InlineStep { text, done: self.shown >= self.slice_len }
    }
}

} // verus!

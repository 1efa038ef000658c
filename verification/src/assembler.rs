//! The receiving side: bytes go in, completed lines come out.

use vstd::prelude::*;
use vstd::slice::slice_subrange;
use crate::lines::{
    completed, cr_count, pending_after, lemma_empty_input, lemma_next_byte,
    lemma_nothing_pending_after_cr, lemma_one_line_per_cr, lemma_only_printable,
};
use crate::text::{ascii_text, texts, line_text};
use crate::wire::{CR, is_printable, all_printable, ByteClass, classify};

verus! {

/// What the read loop does after one attempt to read from the device.
#[derive(Debug, PartialEq, Eq)]
pub enum ReadAction {
    /// Hand these lines to the handler, in this order, then read again.
    Deliver(Vec<String>),
    /// The attempt failed or timed out: the loop ends, and ends well. An
    /// idle device is the expected way out, not an error.
    Finish,
}

/// The bytes that a read reporting `len` bytes left in `buf`. A count
/// beyond the buffer's length stands for the whole buffer.
pub open spec fn received(buf: Seq<u8>, len: usize) -> Seq<u8> {
    if len <= buf.len() {
        buf.take(len as int)
    } else {
        buf
    }
}

/// Collects the printable bytes of the line in progress.
///
/// Access is exclusive by construction: every operation that changes the
/// collected bytes takes `&mut self`, so completing a line and starting the
/// next one empty is a single step that nothing can interleave with. To
/// share an assembler between threads, put it behind a lock and hold the
/// lock for the whole call.
#[derive(Debug)]
pub struct LineAssembler {
    buffer: Vec<u8>,
}

impl View for LineAssembler {
    type V = Seq<u8>;

    /// The bytes collected since the last CR.
    closed spec fn view(&self) -> Seq<u8> {
        self.buffer@
    }
}

impl LineAssembler {
    #[verifier::type_invariant]
    spec fn holds_printable_only(&self) -> bool {
        all_printable(self.buffer@)
    }

    /// An assembler with nothing pending.
    pub fn new() -> (fresh: Self)
        ensures
            fresh@ == Seq::<u8>::empty(),
    {
        LineAssembler { buffer: Vec::new() }
    }

    /// The bytes of the line in progress. They are always printable ASCII.
    pub fn pending(&self) -> (bytes: &[u8])
        ensures
            bytes@ == self@,
            all_printable(bytes@),
    {
        proof {
            use_type_invariant(self);
        }
        self.buffer.as_slice()
    }

    /// Takes one incoming byte.
    ///
    /// CR completes the line: its text is returned and nothing stays
    /// pending. A printable byte is appended to the line in progress. Any
    /// other byte is dropped.
    pub fn push_byte(&mut self, byte: u8) -> (line: Option<String>)
        ensures
            line is Some <==> byte == CR,
            line matches Some(text) ==> text@ == ascii_text(old(self)@),
            final(self)@ == if byte == CR {
                Seq::<u8>::empty()
            } else if is_printable(byte) {
                old(self)@.push(byte)
            } else {
                old(self)@
            },
            all_printable(old(self)@),
            all_printable(final(self)@),
    {
        proof {
            use_type_invariant(&*self);
        }
        match classify(byte) {
            // In both arms that change the buffer, the bytes are moved out
            // while they are worked on and moved back after, so that the
            // assembler holds a valid buffer at every instant.
            ByteClass::Terminator => {
                let mut spent: Vec<u8> = Vec::new();
                core::mem::swap(&mut self.buffer, &mut spent);
                let text = line_text(spent.as_slice());
                spent.clear();
                self.buffer = spent;
                Some(text)
            },
            ByteClass::Printable => {
                let mut grown: Vec<u8> = Vec::new();
                core::mem::swap(&mut self.buffer, &mut grown);
                grown.push(byte);
                self.buffer = grown;
                None
            },
            ByteClass::Ignored => None,
        }
    }

    /// Takes a chunk of incoming bytes, in order, and returns the text of
    /// each line that the chunk completes.
    ///
    /// How the stream is cut into chunks makes no difference: see
    /// `lines::lemma_concat`.
    pub fn feed(&mut self, chunk: &[u8]) -> (lines: Vec<String>)
        ensures
            lines.deep_view() == texts(completed(old(self)@, chunk@)),
            final(self)@ == pending_after(old(self)@, chunk@),
            lines@.len() == cr_count(chunk@),
            chunk@.len() == 0 ==> lines@.len() == 0 && final(self)@ == old(self)@,
            chunk@.len() > 0 && chunk@.last() == CR ==> final(self)@ == Seq::<u8>::empty(),
            all_printable(old(self)@),
            all_printable(final(self)@),
    {
        let mut lines: Vec<String> = Vec::new();
        let mut i: usize = 0;
        proof {
            use_type_invariant(&*self);
            lemma_empty_input(self@);
        }
        while i < chunk.len()
            invariant
                i <= chunk.len(),
                lines.deep_view() == texts(completed(old(self)@, chunk@.take(i as int))),
                self@ == pending_after(old(self)@, chunk@.take(i as int)),
            decreases chunk.len() - i,
        {
            let ghost seen = chunk@.take(i as int);
            let ghost done = lines.deep_view();
            let byte: u8 = chunk[i];
            match self.push_byte(byte) {
                Some(text) => {
                    lines.push(text);
                },
                None => {},
            }
            proof {
                assert(chunk@.take(i + 1) =~= seen.push(byte));
                lemma_next_byte(old(self)@, seen, byte);
                if byte == CR {
                    let line = pending_after(old(self)@, seen);
                    assert(texts(completed(old(self)@, seen).push(line)) =~= done.push(
                        ascii_text(line),
                    ));
                }
            }
            i += 1;
        }
        proof {
            assert(chunk@.take(chunk.len() as int) =~= chunk@);
            lemma_one_line_per_cr(old(self)@, chunk@);
            if chunk@.len() == 0 {
                lemma_empty_input(old(self)@);
            }
            lemma_only_printable(old(self)@, chunk@);
            if chunk@.len() > 0 && chunk@.last() == CR {
                lemma_nothing_pending_after_cr(old(self)@, chunk@);
            }
        }
        lines
    }

    /// One turn of the read loop. `outcome` is what the device read
    /// returned after filling `buf`.
    ///
    /// A successful read, of however many bytes, is fed to the assembler
    /// and the loop goes on. The first failure ends the loop: there is no
    /// retry, and the line in progress is kept for the next call.
    pub fn on_read(&mut self, buf: &[u8], outcome: Result<usize, std::io::Error>) -> (action:
        ReadAction)
        ensures
            match outcome {
                Ok(len) => {
                    &&& action matches ReadAction::Deliver(lines)
                    &&& lines.deep_view() == texts(completed(old(self)@, received(buf@, len)))
                    &&& lines@.len() == cr_count(received(buf@, len))
                    &&& final(self)@ == pending_after(old(self)@, received(buf@, len))
                    &&& len == 0 ==> lines@.len() == 0 && final(self)@ == old(self)@
                },
                Err(_) => action is Finish && final(self)@ == old(self)@,
            },
            all_printable(old(self)@),
            all_printable(final(self)@),
    {
        proof {
            use_type_invariant(&*self);
        }
        match outcome {
            Ok(len) => {
                let end: usize = if len <= buf.len() {
                    len
                } else {
                    buf.len()
                };
                proof {
                    assert(buf@.take(buf.len() as int) =~= buf@);
                }
                ReadAction::Deliver(self.feed(slice_subrange(buf, 0, end)))
            },
            Err(_) => ReadAction::Finish,
        }
    }
}

impl Default for LineAssembler {
    /// Same as `new`: nothing pending.
    fn default() -> (fresh: Self)
        ensures
            fresh@ == Seq::<u8>::empty(),
    {
        LineAssembler::new()
    }
}

} // verus!

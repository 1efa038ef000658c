//! The sending side: what goes to the device for one line of text.

use vstd::prelude::*;
use vstd::slice::slice_to_vec;
use vstd::string::StringSliceAdditionalSpecFns;
use vstd::utf8::*;
use crate::lines::{
    completed, pending_after, printable, lemma_concat, lemma_no_cr, lemma_next_byte,
    lemma_printable_kept, lemma_single_byte,
};
use crate::text::{ascii_text, texts};
use crate::wire::{CR, LF};

verus! {

/// One thing to do to the device.
#[derive(Debug, PartialEq, Eq)]
pub enum DeviceOp {
    /// Write these bytes, in one write.
    Write(Vec<u8>),
    /// Push out whatever an intermediate layer still holds back.
    Flush,
}

/// The two bytes that end every outgoing line.
pub open spec fn terminator() -> Seq<u8> {
    seq![CR, LF]
}

/// The bytes that `ops`, carried out in order, put on the wire.
pub open spec fn transmitted(ops: Seq<DeviceOp>) -> Seq<u8>
    decreases ops.len(),
{
    if ops.len() == 0 {
        Seq::empty()
    } else {
        transmitted(ops.drop_last()) + match ops.last() {
            DeviceOp::Write(bytes) => bytes@,
            DeviceOp::Flush => Seq::empty(),
        }
    }
}

/// What sending `text` as one line asks of the device: write the text's
/// UTF-8 bytes, write CR LF, flush. The caller carries the steps out in
/// order and stops at the first that fails.
pub fn send_ops(text: &str) -> (ops: Vec<DeviceOp>)
    ensures
        ops@.len() == 3,
        ops@[0] matches DeviceOp::Write(bytes) && bytes@ == text.spec_bytes(),
        ops@[1] matches DeviceOp::Write(bytes) && bytes@ == terminator(),
        ops@[2] is Flush,
        transmitted(ops@) == text.spec_bytes() + terminator(),
{
    let payload = slice_to_vec(text.as_bytes());
    let mut ending: Vec<u8> = Vec::new();
    ending.push(CR);
    ending.push(LF);
    let mut ops: Vec<DeviceOp> = Vec::new();
    ops.push(DeviceOp::Write(payload));
    ops.push(DeviceOp::Write(ending));
    ops.push(DeviceOp::Flush);
    proof {
        reveal_with_fuel(transmitted, 4);
    }
    ops
}

/// A payload without CR, followed by CR LF, reaches a receiver with
/// nothing pending as exactly one line: the payload's printable bytes. The
/// trailing LF leaves nothing behind.
pub proof fn lemma_framed_payload(payload: Seq<u8>)
    requires
        forall|i: int| 0 <= i < payload.len() ==> payload[i] != CR,
    ensures
        completed(Seq::empty(), payload + terminator()) == seq![printable(payload)],
        pending_after(Seq::empty(), payload + terminator()) == Seq::<u8>::empty(),
{
    let none = Seq::<u8>::empty();
    lemma_no_cr(none, payload);
    lemma_concat(none, payload, terminator());
    assert(terminator() =~= seq![CR].push(LF));
    lemma_single_byte(printable(payload), CR);
    lemma_next_byte(printable(payload), seq![CR], LF);
}

/// Round trip: a text of printable ASCII, sent as one line, is received as
/// that text and nothing else.
pub proof fn lemma_round_trip(text: Seq<char>)
    requires
        forall|i: int| 0 <= i < text.len() ==> ' ' <= #[trigger] text[i] <= '~',
    ensures
        texts(completed(Seq::empty(), encode_utf8(text) + terminator())) == seq![text],
        pending_after(Seq::empty(), encode_utf8(text) + terminator()) == Seq::<u8>::empty(),
{
    let bytes = encode_utf8(text);
    is_ascii_chars_encode_utf8(text);
    lemma_printable_kept(bytes);
    lemma_framed_payload(bytes);
    assert(ascii_text(bytes) =~= text);
}

} // verus!

//! The bytes that matter on the wire, and how an incoming byte is classed.

use vstd::prelude::*;

verus! {

/// Carriage return: closes a line on the way in, and opens the terminator
/// on the way out.
pub const CR: u8 = 0x0D;

/// Line feed: second byte of the outgoing terminator, dropped on the way in.
pub const LF: u8 = 0x0A;

/// Printable ASCII runs from space through tilde.
pub open spec fn is_printable(byte: u8) -> bool {
    0x20 <= byte <= 0x7E
}

/// Every byte of `bytes` is printable ASCII.
pub open spec fn all_printable(bytes: Seq<u8>) -> bool {
    forall|i: int| 0 <= i < bytes.len() ==> is_printable(#[trigger] bytes[i])
}

/// What the receiver does with one incoming byte.
#[derive(Clone, Copy, Debug, PartialEq, Eq, Structural)]
pub enum ByteClass {
    /// CR: the line collected so far is complete.
    Terminator,
    /// Printable ASCII: becomes part of the line.
    Printable,
    /// Anything else, LF included: dropped without a trace.
    Ignored,
}

/// The class of each byte value: CR terminates, space through tilde is
/// printable, all else is ignored.
pub open spec fn class_of(byte: u8) -> ByteClass {
    if byte == CR {
        ByteClass::Terminator
    } else if is_printable(byte) {
        ByteClass::Printable
    } else {
        ByteClass::Ignored
    }
}

/// Classes one incoming byte.
pub fn classify(byte: u8) -> (class: ByteClass)
    ensures
        class == class_of(byte),
{
    if byte == CR {
        ByteClass::Terminator
    } else if 0x20 <= byte && byte <= 0x7E {
        ByteClass::Printable
    } else {
        ByteClass::Ignored
    }
}

} // verus!

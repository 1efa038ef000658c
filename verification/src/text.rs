//! From collected bytes to the text handed to callers.

use vstd::prelude::*;
use vstd::utf8::*;
use crate::wire::all_printable;

verus! {

/// The text whose characters are the bytes of `bytes`, one for one.
pub open spec fn ascii_text(bytes: Seq<u8>) -> Seq<char> {
    Seq::new(bytes.len(), |i: int| bytes[i] as char)
}

/// `ascii_text` of each line, in order.
pub open spec fn texts(lines: Seq<Seq<u8>>) -> Seq<Seq<char>> {
    Seq::new(lines.len(), |k: int| ascii_text(lines[k]))
}

/// Bytes below 0x80 are well-formed UTF-8 on their own, and decode to one
/// character each.
pub proof fn lemma_ascii_decodes(bytes: Seq<u8>)
    requires
        forall|i: int| 0 <= i < bytes.len() ==> bytes[i] < 0x80,
    ensures
        valid_utf8(bytes),
        decode_utf8(bytes) == ascii_text(bytes),
{
    let chars = ascii_text(bytes);
    is_ascii_chars_encode_utf8(chars);
    assert(encode_utf8(chars) =~= bytes);
    encode_utf8_valid_utf8(chars);
    encode_utf8_decode_utf8(chars);
}

/// The characters that `String::from_utf8_lossy` makes of `bytes`. On
/// ill-formed input they include replacement characters, placed as the
/// standard library sees fit; on well-formed input see `lossy_string`.
pub uninterp spec fn lossy_decoded(bytes: Seq<u8>) -> Seq<char>;

/// Calls `String::from_utf8_lossy` and takes ownership of what it gives.
///
/// Trusted, not proved: the result depends on the bytes alone, and on
/// well-formed UTF-8 it is the text that those bytes encode.
#[verifier::external_body]
fn lossy_string(bytes: &[u8]) -> (text: String)
    ensures
        text@ == lossy_decoded(bytes@),
        valid_utf8(bytes@) ==> text@ == decode_utf8(bytes@),
{
    String::from_utf8_lossy(bytes).into_owned()
}

/// The text of a line made of printable bytes only.
pub(crate) fn line_text(bytes: &[u8]) -> (text: String)
    requires
        all_printable(bytes@),
    ensures
        text@ == ascii_text(bytes@),
{
    proof {
        lemma_ascii_decodes(bytes@);
    }
    lossy_string(bytes)
}

} // verus!

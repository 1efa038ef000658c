//! What a stream of incoming bytes means: which lines it completes and
//! what it leaves pending.
//!
//! A line ends at each CR. Its content is whatever was pending before the
//! input began (for the first line only) followed by the printable bytes
//! seen up to that CR. Bytes after the last CR stay pending.

use vstd::prelude::*;
use crate::wire::{CR, is_printable, all_printable};

verus! {

/// The printable bytes of `bytes`, in order.
pub open spec fn printable(bytes: Seq<u8>) -> Seq<u8> {
    bytes.filter(|b: u8| is_printable(b))
}

/// How many CR bytes `bytes` holds.
pub open spec fn cr_count(bytes: Seq<u8>) -> nat {
    bytes.filter(|b: u8| b == CR).len()
}

/// Position of the first CR in `input`, or `input.len()` if it has none.
pub open spec fn first_cr(input: Seq<u8>) -> nat
    decreases input.len(),
{
    if input.len() == 0 || input[0] == CR {
        0
    } else {
        1 + first_cr(input.drop_first())
    }
}

/// The lines that `input` completes when `pending` was collected before it.
pub open spec fn completed(pending: Seq<u8>, input: Seq<u8>) -> Seq<Seq<u8>>
    decreases input.len(),
{
    let k = first_cr(input) as int;
    if k < input.len() {
        seq![pending + printable(input.take(k))] + completed(Seq::empty(), input.skip(k + 1))
    } else {
        Seq::empty()
    }
}

/// What is left pending once `input` has been consumed after `pending`.
pub open spec fn pending_after(pending: Seq<u8>, input: Seq<u8>) -> Seq<u8>
    decreases input.len(),
{
    let k = first_cr(input) as int;
    if k < input.len() {
        pending_after(Seq::empty(), input.skip(k + 1))
    } else {
        pending + printable(input)
    }
}

/// Filtering leaves a sequence of printable bytes as it is.
pub proof fn lemma_printable_kept(bytes: Seq<u8>)
    requires
        all_printable(bytes),
    ensures
        printable(bytes) == bytes,
    decreases bytes.len(),
{
    reveal(Seq::filter);
    if bytes.len() > 0 {
        lemma_printable_kept(bytes.drop_last());
    }
}

/// `first_cr` points at a CR or past the end, and no CR comes before it.
pub proof fn lemma_first_cr(input: Seq<u8>)
    ensures
        first_cr(input) <= input.len(),
        first_cr(input) < input.len() ==> input[first_cr(input) as int] == CR,
        forall|i: int| 0 <= i < first_cr(input) ==> input[i] != CR,
    decreases input.len(),
{
    if input.len() == 0 || input[0] == CR {
    } else {
        let rest = input.drop_first();
        lemma_first_cr(rest);
        assert forall|i: int| 0 <= i < first_cr(input) implies input[i] != CR by {
            if i > 0 {
                assert(input[i] == rest[i - 1]);
            }
        }
    }
}

/// The first CR of a concatenation lies in the left part if that has one,
/// and otherwise where the right part has its own.
pub proof fn lemma_first_cr_concat(a: Seq<u8>, b: Seq<u8>)
    ensures
        first_cr(a + b) == if first_cr(a) < a.len() {
            first_cr(a)
        } else {
            a.len() + first_cr(b)
        },
    decreases a.len(),
{
    lemma_first_cr(a);
    if a.len() > 0 && a[0] != CR {
        assert((a + b).drop_first() =~= a.drop_first() + b);
        lemma_first_cr_concat(a.drop_first(), b);
        lemma_first_cr(a.drop_first());
    }
}

/// Empty input completes no line and leaves the pending bytes as they were.
pub proof fn lemma_empty_input(pending: Seq<u8>)
    ensures
        completed(pending, Seq::empty()) == Seq::<Seq<u8>>::empty(),
        pending_after(pending, Seq::empty()) == pending,
{
    reveal(Seq::filter);
}

/// A single byte: CR completes the pending line and leaves nothing; a
/// printable byte is appended; any other byte changes nothing.
pub proof fn lemma_single_byte(pending: Seq<u8>, byte: u8)
    ensures
        completed(pending, seq![byte]) == if byte == CR {
            seq![pending]
        } else {
            Seq::<Seq<u8>>::empty()
        },
        pending_after(pending, seq![byte]) == if byte == CR {
            Seq::<u8>::empty()
        } else if is_printable(byte) {
            pending.push(byte)
        } else {
            pending
        },
{
    if byte == CR {
        assert(seq![byte].skip(1) =~= Seq::<u8>::empty());
        lemma_empty_input(Seq::empty());
        lemma_empty_input(pending);
    } else {
        Seq::<u8>::empty().lemma_filter_push(byte, |b: u8| is_printable(b));
    }
}

/// Input may be cut anywhere: consuming `a` and then `b` completes the same
/// lines, and leaves the same bytes pending, as consuming `a + b` at once.
pub proof fn lemma_concat(pending: Seq<u8>, a: Seq<u8>, b: Seq<u8>)
    ensures
        completed(pending, a + b) == completed(pending, a) + completed(
            pending_after(pending, a),
            b,
        ),
        pending_after(pending, a + b) == pending_after(pending_after(pending, a), b),
    decreases a.len(),
{
    let ab = a + b;
    let ka = first_cr(a) as int;
    let kb = first_cr(b) as int;
    lemma_first_cr(a);
    lemma_first_cr(b);
    lemma_first_cr_concat(a, b);
    if ka < a.len() {
        let tail = a.skip(ka + 1);
        assert(ab.take(ka) =~= a.take(ka));
        assert(ab.skip(ka + 1) =~= tail + b);
        lemma_concat(Seq::empty(), tail, b);
    } else {
        let mid = pending + printable(a);
        if kb < b.len() {
            assert(ab.take(a.len() + kb) =~= a + b.take(kb));
            assert(ab.skip(a.len() + kb + 1) =~= b.skip(kb + 1));
            Seq::filter_distributes_over_add(a, b.take(kb), |x: u8| is_printable(x));
            assert(pending + (printable(a) + printable(b.take(kb))) =~= mid + printable(
                b.take(kb),
            ));
        } else {
            Seq::filter_distributes_over_add(a, b, |x: u8| is_printable(x));
        }
    }
}

/// One more byte at the end of the input: CR completes one more line, made
/// of what was pending, and empties the pending bytes; a printable byte
/// joins them; any other byte is dropped.
pub proof fn lemma_next_byte(pending: Seq<u8>, input: Seq<u8>, byte: u8)
    ensures
        completed(pending, input.push(byte)) == if byte == CR {
            completed(pending, input).push(pending_after(pending, input))
        } else {
            completed(pending, input)
        },
        pending_after(pending, input.push(byte)) == if byte == CR {
            Seq::<u8>::empty()
        } else if is_printable(byte) {
            pending_after(pending, input).push(byte)
        } else {
            pending_after(pending, input)
        },
{
    assert(input.push(byte) =~= input + seq![byte]);
    lemma_concat(pending, input, seq![byte]);
    lemma_single_byte(pending_after(pending, input), byte);
}

/// Exactly one line is completed for each CR in the input.
pub proof fn lemma_one_line_per_cr(pending: Seq<u8>, input: Seq<u8>)
    ensures
        completed(pending, input).len() == cr_count(input),
    decreases input.len(),
{
    if input.len() == 0 {
        lemma_empty_input(pending);
        reveal(Seq::filter);
    } else {
        let front = input.drop_last();
        let byte = input.last();
        assert(input =~= front.push(byte));
        lemma_one_line_per_cr(pending, front);
        lemma_next_byte(pending, front, byte);
        front.lemma_filter_push(byte, |b: u8| b == CR);
    }
}

/// Only printable bytes ever reach a line or stay pending, provided only
/// printable bytes were pending to begin with.
pub proof fn lemma_only_printable(pending: Seq<u8>, input: Seq<u8>)
    requires
        all_printable(pending),
    ensures
        all_printable(pending_after(pending, input)),
        forall|k: int|
            0 <= k < completed(pending, input).len() ==> all_printable(
                #[trigger] completed(pending, input)[k],
            ),
    decreases input.len(),
{
    if input.len() == 0 {
        lemma_empty_input(pending);
    } else {
        let front = input.drop_last();
        let byte = input.last();
        assert(input =~= front.push(byte));
        lemma_only_printable(pending, front);
        lemma_next_byte(pending, front, byte);
    }
}

/// Nothing is pending right after a CR.
pub proof fn lemma_nothing_pending_after_cr(pending: Seq<u8>, input: Seq<u8>)
    requires
        input.len() > 0,
        input.last() == CR,
    ensures
        pending_after(pending, input) == Seq::<u8>::empty(),
{
    assert(input =~= input.drop_last().push(CR));
    lemma_next_byte(pending, input.drop_last(), CR);
}

/// Input without a CR completes no line: its printable bytes simply join
/// the pending ones.
pub proof fn lemma_no_cr(pending: Seq<u8>, input: Seq<u8>)
    requires
        forall|i: int| 0 <= i < input.len() ==> input[i] != CR,
    ensures
        completed(pending, input) == Seq::<Seq<u8>>::empty(),
        pending_after(pending, input) == pending + printable(input),
{
    lemma_first_cr(input);
}

/// What is pending once the chunks of `chunks` have been consumed one after
/// another, each starting from what the one before left.
pub open spec fn pending_in_turn(pending: Seq<u8>, chunks: Seq<Seq<u8>>) -> Seq<u8>
    decreases chunks.len(),
{
    if chunks.len() == 0 {
        pending
    } else {
        pending_after(pending_in_turn(pending, chunks.drop_last()), chunks.last())
    }
}

/// The lines completed while the chunks of `chunks` are consumed one after
/// another, in the order in which they are completed.
pub open spec fn completed_in_turn(pending: Seq<u8>, chunks: Seq<Seq<u8>>) -> Seq<Seq<u8>>
    decreases chunks.len(),
{
    if chunks.len() == 0 {
        Seq::empty()
    } else {
        completed_in_turn(pending, chunks.drop_last()) + completed(
            pending_in_turn(pending, chunks.drop_last()),
            chunks.last(),
        )
    }
}

/// A read loop sees one stream: however many reads deliver the bytes, and
/// wherever they cut, the lines and the pending bytes are those of the
/// chunks laid end to end.
pub proof fn lemma_chunks_are_one_stream(pending: Seq<u8>, chunks: Seq<Seq<u8>>)
    ensures
        completed_in_turn(pending, chunks) == completed(pending, chunks.flatten()),
        pending_in_turn(pending, chunks) == pending_after(pending, chunks.flatten()),
    decreases chunks.len(),
{
    if chunks.len() == 0 {
        lemma_empty_input(pending);
    } else {
        let front = chunks.drop_last();
        let chunk = chunks.last();
        lemma_chunks_are_one_stream(pending, front);
        assert(chunks =~= front.push(chunk));
        front.lemma_flatten_push(chunk);
        lemma_concat(pending, front.flatten(), chunk);
    }
}

/// With a CR at `last` and none after it, what stays pending is the
/// printable part of what follows that CR.
pub proof fn lemma_pending_since_cr(pending: Seq<u8>, input: Seq<u8>, last: int)
    requires
        0 <= last < input.len(),
        input[last] == CR,
        forall|i: int| last < i < input.len() ==> input[i] != CR,
    ensures
        pending_after(pending, input) == printable(input.skip(last + 1)),
{
    let head = input.take(last + 1);
    let tail = input.skip(last + 1);
    assert(input =~= head + tail);
    lemma_concat(pending, head, tail);
    lemma_nothing_pending_after_cr(pending, head);
    lemma_no_cr(Seq::empty(), tail);
}

/// The line completed by the CR at position `at` is what was pending just
/// before that CR, and its place among the lines is the number of CRs that
/// came earlier.
pub proof fn lemma_line_at_cr(pending: Seq<u8>, input: Seq<u8>, at: int)
    requires
        0 <= at < input.len(),
        input[at] == CR,
    ensures
        cr_count(input.take(at)) < completed(pending, input).len(),
        completed(pending, input)[cr_count(input.take(at)) as int] == pending_after(
            pending,
            input.take(at),
        ),
{
    let before = input.take(at);
    let rest = input.skip(at);
    assert(input =~= before + rest);
    lemma_concat(pending, before, rest);
    lemma_one_line_per_cr(pending, before);
}

/// Between two neighbouring CRs, at `from` and at `to`, lies exactly one
/// line: the printable bytes found strictly between them.
pub proof fn lemma_line_between_crs(pending: Seq<u8>, input: Seq<u8>, from: int, to: int)
    requires
        0 <= from < to < input.len(),
        input[from] == CR,
        input[to] == CR,
        forall|i: int| from < i < to ==> input[i] != CR,
    ensures
        cr_count(input.take(to)) < completed(pending, input).len(),
        completed(pending, input)[cr_count(input.take(to)) as int] == printable(
            input.subrange(from + 1, to),
        ),
{
    lemma_line_at_cr(pending, input, to);
    lemma_pending_since_cr(pending, input.take(to), from);
    assert(input.take(to).skip(from + 1) =~= input.subrange(from + 1, to));
}

/// Up to the first CR, at `to`, lies the first line: what was pending
/// before the input, then the printable bytes that precede that CR.
pub proof fn lemma_first_line(pending: Seq<u8>, input: Seq<u8>, to: int)
    requires
        0 <= to < input.len(),
        input[to] == CR,
        forall|i: int| 0 <= i < to ==> input[i] != CR,
    ensures
        completed(pending, input).len() > 0,
        completed(pending, input)[0] == pending + printable(input.take(to)),
{
    lemma_first_cr(input);
}

} // verus!

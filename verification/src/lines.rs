//! Newline-delimited records in a byte sequence.
//!
//! A line is a run of bytes that ends with its terminator, `'\n'`. Only the
//! last line of a sequence may lack one. Lines are raw bytes: nothing is
//! trimmed and no encoding is assumed.

use vstd::prelude::*;

verus! {

/// The line terminator, `'\n'`.
pub const NEWLINE: u8 = 0x0A;

/// The number of line terminators in `bytes`.
pub open spec fn newline_count(bytes: Seq<u8>) -> nat {
    bytes.filter(|b: u8| b == NEWLINE).len()
}

/// The length of the first line of `bytes`: it reaches up to and including
/// the first terminator, or to the end of `bytes` where there is none.
pub open spec fn first_line_len(bytes: Seq<u8>) -> nat {
    match bytes.index_of_first(NEWLINE) {
        Some(i) => (i + 1) as nat,
        None => bytes.len(),
    }
}

/// `bytes` cut into its lines, in order, each with its terminator.
pub open spec fn lines(bytes: Seq<u8>) -> Seq<Seq<u8>>
    decreases bytes.len(),
    via lines_terminates
{
    if bytes.len() == 0 {
        Seq::empty()
    } else {
        let n = first_line_len(bytes) as int;
        seq![bytes.take(n)] + lines(bytes.skip(n))
    }
}

#[via_fn]
proof fn lines_terminates(bytes: Seq<u8>) {
    lemma_first_line_shape(bytes);
}

/// Whether `bytes` is nonempty and its last byte is not a terminator.
pub open spec fn ends_unterminated(bytes: Seq<u8>) -> bool {
    bytes.len() > 0 && bytes.last() != NEWLINE
}

/// Whether `line` is one well-formed line: nonempty, with no terminator
/// before its last byte.
pub open spec fn is_line(line: Seq<u8>) -> bool {
    &&& line.len() > 0
    &&& forall|i: int| 0 <= i < line.len() - 1 ==> line[i] != NEWLINE
}

/// The first line is nonempty unless `bytes` is, lies within `bytes`, holds
/// no terminator before its last byte, and ends with one unless it reaches
/// the end of `bytes`.
pub proof fn lemma_first_line_shape(bytes: Seq<u8>)
    ensures
        first_line_len(bytes) <= bytes.len(),
        bytes.len() > 0 ==> first_line_len(bytes) > 0,
        forall|i: int| 0 <= i < first_line_len(bytes) - 1 ==> bytes[i] != NEWLINE,
        bytes.contains(NEWLINE) ==> bytes[first_line_len(bytes) - 1] == NEWLINE,
        !bytes.contains(NEWLINE) ==> first_line_len(bytes) == bytes.len(),
{
    bytes.index_of_first_ensures(NEWLINE);
}

/// A length with the shape of a first line is the first line's length.
pub proof fn lemma_first_line_unique(bytes: Seq<u8>, n: int)
    requires
        0 <= n <= bytes.len(),
        bytes.len() > 0 ==> n > 0,
        forall|i: int| 0 <= i < n - 1 ==> bytes[i] != NEWLINE,
        n < bytes.len() ==> bytes[n - 1] == NEWLINE,
    ensures
        first_line_len(bytes) == n,
{
    bytes.index_of_first_ensures(NEWLINE);
}

/// A first line that is already complete does not change when more bytes
/// follow: where lines are cut does not depend on how much has arrived.
pub proof fn lemma_first_line_stable(head: Seq<u8>, tail: Seq<u8>)
    requires
        head.contains(NEWLINE),
    ensures
        first_line_len(head + tail) == first_line_len(head),
        (head + tail).take(first_line_len(head) as int) == head.take(first_line_len(head) as int),
        (head + tail).skip(first_line_len(head) as int) == head.skip(first_line_len(head) as int)
            + tail,
{
    let n = first_line_len(head) as int;
    lemma_first_line_shape(head);
    lemma_first_line_unique(head + tail, n);
}

/// The lines of two pieces joined at a line boundary are the lines of the
/// first followed by the lines of the second.
pub proof fn lemma_lines_append(head: Seq<u8>, tail: Seq<u8>)
    requires
        !ends_unterminated(head),
    ensures
        lines(head + tail) == lines(head) + lines(tail),
    decreases head.len(),
{
    if head.len() > 0 {
        let n = first_line_len(head) as int;
        lemma_first_line_shape(head);
        lemma_first_line_stable(head, tail);
        lemma_lines_append(head.skip(n), tail);
    }
}

/// Joining the lines gives the bytes back: nothing is lost, added or moved.
pub proof fn lemma_lines_flatten(bytes: Seq<u8>)
    ensures
        lines(bytes).flatten() == bytes,
    decreases bytes.len(),
{
    if bytes.len() > 0 {
        let n = first_line_len(bytes) as int;
        lemma_first_line_shape(bytes);
        lemma_lines_flatten(bytes.skip(n));
        assert(lines(bytes).drop_first() =~= lines(bytes.skip(n)));
    }
}

/// Every line is well formed, and every line but the last ends with a
/// terminator. The last one ends with a terminator exactly when the bytes do.
pub proof fn lemma_lines_shape(bytes: Seq<u8>)
    ensures
        forall|i: int| 0 <= i < lines(bytes).len() ==> is_line(#[trigger] lines(bytes)[i]),
        forall|i: int|
            0 <= i < lines(bytes).len() - 1 ==> (#[trigger] lines(bytes)[i]).last() == NEWLINE,
        bytes.len() > 0 ==> lines(bytes).len() > 0 && lines(bytes).last().last() == bytes.last(),
        bytes.len() == 0 ==> lines(bytes).len() == 0,
    decreases bytes.len(),
{
    if bytes.len() > 0 {
        let n = first_line_len(bytes) as int;
        let rest = bytes.skip(n);
        lemma_first_line_shape(bytes);
        lemma_lines_shape(rest);
        let parts = lines(bytes);
        assert forall|i: int| 0 < i < parts.len() implies parts[i] == lines(rest)[i - 1] by {}
    }
}

/// There is one line for each terminator, and one more where the bytes end
/// without one.
pub proof fn lemma_line_count(bytes: Seq<u8>)
    ensures
        lines(bytes).len() == newline_count(bytes) + if ends_unterminated(bytes) {
            1nat
        } else {
            0nat
        },
    decreases bytes.len(),
{
    let is_newline = |b: u8| b == NEWLINE;
    if bytes.len() == 0 {
        assert(bytes.filter(is_newline).len() == 0);
    } else {
        // The first line holds one terminator, at its end, or none.
        let n = first_line_len(bytes) as int;
        let line = bytes.take(n);
        let rest = bytes.skip(n);
        lemma_first_line_shape(bytes);
        lemma_line_count(rest);
        assert(line + rest =~= bytes);
        let body = line.drop_last();
        assert(body.push(line.last()) =~= line);
        body.lemma_filter_len_push(is_newline, line.last());
        body.lemma_all_neg_filter_empty(is_newline);
    }
}

/// Counts the line terminators in `data`.
pub fn count_newlines(data: &[u8]) -> (count: usize)
    ensures
        count == newline_count(data@),
{
    let mut count: usize = 0;
    let mut i: usize = 0;
    while i < data.len()
        invariant
            i <= data.len(),
            count <= i,
            count == newline_count(data@.take(i as int)),
        decreases data.len() - i,
    {
        proof {
            let seen = data@.take(i as int);
            assert(data@.take(i + 1) =~= seen.push(data@[i as int]));
            seen.lemma_filter_len_push(|b: u8| b == NEWLINE, data@[i as int]);
        }
        if data[i] == NEWLINE {
            count = count + 1;
        }
        i = i + 1;
    }
    assert(data@.take(i as int) =~= data@);
    count
}

/// Finds where the line that starts at `start` ends: one past its
/// terminator, or at the end of `data` where it has none.
pub(crate) fn line_end(data: &[u8], start: usize) -> (end: usize)
    requires
        start <= data.len(),
    ensures
        end == start + first_line_len(data@.skip(start as int)),
        start <= end <= data.len(),
{
    let mut i: usize = start;
    while i < data.len() && data[i] != NEWLINE
        invariant
            start <= i <= data.len(),
            forall|k: int| start <= k < i ==> data@[k] != NEWLINE,
        decreases data.len() - i,
    {
        i = i + 1;
    }
    let end: usize = if i < data.len() { i + 1 } else { i };
    proof {
        lemma_first_line_unique(data@.skip(start as int), end - start);
    }
    end
}

} // verus!

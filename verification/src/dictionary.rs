//! A producer of the lines of a newline-delimited byte source.
//!
//! The producer does no reading of its own. Its owner reads the source and
//! hands over what each read gave; the producer cuts the bytes into lines,
//! decides when the sequence ends and keeps that decision.
//!
//! An owner that reads a source piece by piece pulls a candidate like this:
//! while [`LineProducer::needs_input`] holds, it reads once and passes the
//! outcome to [`LineProducer::supply`]; then it calls `next`. A failed read
//! is not an error of the pull: it ends the sequence early.

use crate::lines::{
    count_newlines, ends_unterminated, first_line_len, lemma_first_line_shape, lemma_line_count,
    line_end, lines, newline_count, NEWLINE,
};
use crate::producer::Producer;
use std::sync::Arc;
use vstd::prelude::*;
use vstd::slice::{slice_subrange, slice_to_vec};

verus! {

/// Where a line producer stands with respect to its source.
#[derive(Clone, Copy, Debug, PartialEq, Eq, Structural)]
pub enum Phase {
    /// More bytes may still be supplied.
    Open,
    /// The source has ended: the bytes at hand are all that is left.
    Ended,
    /// The end of the sequence has been reached. This is final.
    Exhausted,
}

/// What one read of the source gave.
pub enum ReadOutcome {
    /// The bytes that were read, in the order of the source.
    Data(Vec<u8>),
    /// The source has no more bytes.
    End,
    /// The read failed.
    Failed,
}

/// Hands out the lines of a byte source, each with its terminator.
pub struct LineProducer {
    buffer: Vec<u8>,
    consumed: usize,
    phase: Phase,
    size: usize,
}

impl LineProducer {
    #[verifier::type_invariant]
    spec fn consistent(self) -> bool {
        self.consumed <= self.buffer@.len()
    }

    /// The bytes that were supplied and not yet handed out.
    pub closed spec fn pending(&self) -> Seq<u8> {
        self.buffer@.skip(self.consumed as int)
    }

    /// Where the producer stands with respect to its source.
    pub closed spec fn phase(&self) -> Phase {
        self.phase
    }

    /// A producer over a source whose bytes are all at hand.
    ///
    /// Its size is the number of line terminators in `data`. A last line
    /// without a terminator is handed out like the others but is not
    /// counted, so that the producer then yields one candidate more than its
    /// size.
    pub fn from(data: Vec<u8>) -> (producer: Self)
        ensures
            producer.pending() == data@,
            producer.phase() == Phase::Ended,
            producer.total() == newline_count(data@),
            producer.upcoming() == lines(data@),
            producer.upcoming().len() == producer.total() + if ends_unterminated(data@) {
                1nat
            } else {
                0nat
            },
    {
        let size = count_newlines(data.as_slice());
        proof {
            lemma_line_count(data@);
        }
        LineProducer { buffer: data, consumed: 0, phase: Phase::Ended, size }
    }

    /// A producer over a source that is read piece by piece.
    ///
    /// `scan` is the content of the source as one full pass over it found
    /// it: the size is the number of line terminators in it. The producer
    /// starts with no bytes at hand.
    pub fn streaming(scan: &[u8]) -> (producer: Self)
        ensures
            producer.pending() == Seq::<u8>::empty(),
            producer.phase() == Phase::Open,
            producer.total() == newline_count(scan@),
    {
        let size = count_newlines(scan);
        LineProducer { buffer: Vec::new(), consumed: 0, phase: Phase::Open, size }
    }

    /// Whether the owner should read the source and supply the outcome
    /// before it pulls the next candidate: the producer is open and holds no
    /// complete line.
    pub fn needs_input(&self) -> (needed: bool)
        ensures
            needed == (self.phase() == Phase::Open && !self.pending().contains(NEWLINE)),
    {
        proof {
            use_type_invariant(self);
            lemma_first_line_shape(self.pending());
        }
        match self.phase {
            Phase::Open => {
                let end = line_end(self.buffer.as_slice(), self.consumed);
                if end == self.consumed {
                    true
                } else {
                    assert(self.buffer@[end - 1] == self.pending()[end - 1 - self.consumed]);
                    self.buffer[end - 1] != NEWLINE
                }
            },
            _ => false,
        }
    }

    /// Takes in what one read of the source gave.
    ///
    /// While the producer is open, data is added behind the bytes at hand,
    /// the end of the source closes it, and a failed read ends the sequence
    /// at once: what was at hand is dropped. Once the producer is no longer
    /// open, outcomes are ignored.
    pub fn supply(&mut self, outcome: ReadOutcome)
        ensures
            final(self).total() == old(self).total(),
            old(self).phase() == Phase::Open ==> match outcome {
                ReadOutcome::Data(chunk) => {
                    &&& final(self).phase() == Phase::Open
                    &&& final(self).pending() == old(self).pending() + chunk@
                },
                ReadOutcome::End => {
                    &&& final(self).phase() == Phase::Ended
                    &&& final(self).pending() == old(self).pending()
                },
                ReadOutcome::Failed => {
                    &&& final(self).phase() == Phase::Exhausted
                    &&& final(self).pending() == Seq::<u8>::empty()
                },
            },
            old(self).phase() != Phase::Open ==> {
                &&& final(self).phase() == old(self).phase()
                &&& final(self).pending() == old(self).pending()
            },
    {
        proof {
            use_type_invariant(&*self);
        }
        match self.phase {
            Phase::Open => match outcome {
                ReadOutcome::Data(chunk) => {
                    let mut chunk = chunk;
                    if self.consumed == self.buffer.len() {
                        self.consumed = 0;
                        self.buffer = chunk;
                    } else {
                        let mut joined = slice_to_vec(
                            slice_subrange(
                                self.buffer.as_slice(),
                                self.consumed,
                                self.buffer.len(),
                            ),
                        );
                        joined.append(&mut chunk);
                        self.consumed = 0;
                        self.buffer = joined;
                    }
                },
                ReadOutcome::End => {
                    self.phase = Phase::Ended;
                },
                ReadOutcome::Failed => {
                    self.phase = Phase::Exhausted;
                    self.consumed = 0;
                    self.buffer = Vec::new();
                },
            },
            _ => {},
        }
    }
}

impl Producer for LineProducer {
    /// The lines of the bytes at hand, and none once the producer is
    /// exhausted. For an open producer these are the lines that come if
    /// nothing more is supplied.
    open spec fn upcoming(&self) -> Seq<Seq<u8>> {
        if self.phase() == Phase::Exhausted {
            Seq::empty()
        } else {
            lines(self.pending())
        }
    }

    /// The number of line terminators that the producer was made for.
    closed spec fn total(&self) -> nat {
        self.size as nat
    }

    /// Hands out the first line of the bytes at hand, up to and including
    /// its terminator, as a buffer of its own.
    ///
    /// With no bytes at hand the sequence ends, for good. A line that is
    /// handed out without a terminator is the last of its source: the
    /// producer takes the source as ended.
    fn next(&mut self) -> (candidate: Option<Arc<Vec<u8>>>)
        ensures
            match candidate {
                Some(bytes) => {
                    &&& old(self).phase() != Phase::Exhausted
                    &&& bytes@ == old(self).pending().take(
                        first_line_len(old(self).pending()) as int,
                    )
                    &&& final(self).pending() == old(self).pending().skip(
                        first_line_len(old(self).pending()) as int,
                    )
                    &&& final(self).phase() == if bytes@.last() == NEWLINE {
                        old(self).phase()
                    } else {
                        Phase::Ended
                    }
                },
                None => {
                    &&& final(self).phase() == Phase::Exhausted
                    &&& final(self).pending() == old(self).pending()
                },
            },
    {
        proof {
            use_type_invariant(&*self);
            lemma_first_line_shape(self.pending());
        }
        match self.phase {
            Phase::Exhausted => None,
            _ => {
                if self.consumed == self.buffer.len() {
                    self.phase = Phase::Exhausted;
                    None
                } else {
                    let start = self.consumed;
                    let end = line_end(self.buffer.as_slice(), start);
                    let line = slice_to_vec(slice_subrange(self.buffer.as_slice(), start, end));
                    let terminated = self.buffer[end - 1] == NEWLINE;
                    self.consumed = end;
                    if !terminated {
                        self.phase = Phase::Ended;
                    }
                    assert(self.pending() =~= old(self).pending().skip(end - start));
                    Some(Arc::new(line))
                }
            },
        }
    }

    /// The number of line terminators that the producer was made for.
    fn size(&self) -> (count: usize) {
        self.size
    }
}

} // verus!

//! The pull interface that every source of candidates implements.

use std::sync::Arc;
use vstd::prelude::*;

verus! {

/// A stateful, single-consumer cursor over an ordered source of candidates.
///
/// A candidate is an immutable byte string. The producer hands each one out
/// once and keeps no handle to it.
pub trait Producer {
    /// The candidates that the pulls from here on hand out, in order.
    spec fn upcoming(&self) -> Seq<Seq<u8>>;

    /// The count of candidates this producer was built for. It is fixed at
    /// construction and is not the number of candidates that remain.
    spec fn total(&self) -> nat;

    /// Hands out the next candidate and moves past it, or signals with `None`
    /// that the source is exhausted. Exhaustion is final.
    fn next(&mut self) -> (candidate: Option<Arc<Vec<u8>>>)
        ensures
            final(self).total() == old(self).total(),
            match candidate {
                Some(bytes) => {
                    &&& old(self).upcoming().len() > 0
                    &&& bytes@ == old(self).upcoming().first()
                    &&& final(self).upcoming() == old(self).upcoming().drop_first()
                },
                None => {
                    &&& old(self).upcoming().len() == 0
                    &&& final(self).upcoming().len() == 0
                },
            },
    ;

    /// The count of candidates this producer was built for, for showing
    /// progress. Pulling candidates does not change it.
    fn size(&self) -> (count: usize)
        ensures
            count == self.total(),
    ;
}

} // verus!

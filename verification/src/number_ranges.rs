//! A producer of the zero-padded decimal numerals of an integer range.

use crate::decimal::{format_padded, zero_padded};
use crate::producer::Producer;
use std::sync::Arc;
use vstd::prelude::*;

verus! {

/// The numerals of the integers from `lower` up to but not including `upper`,
/// in ascending order, each padded to `width`.
pub open spec fn padded_range(lower: nat, upper: nat, width: nat) -> Seq<Seq<u8>> {
    Seq::new(
        if lower <= upper {
            (upper - lower) as nat
        } else {
            0
        },
        |i: int| zero_padded((lower + i) as nat, width),
    )
}

/// Enumerates a half-open range of integers as fixed-width decimal strings.
pub struct RangeProducer {
    padding_len: usize,
    cursor: usize,
    upper_bound: usize,
    size: usize,
}

impl RangeProducer {
    /// A producer of the integers from `lower_bound` up to but not including
    /// `upper_bound`, each padded with zeros to at least `padding_len`
    /// characters.
    ///
    /// The bounds are not validated: the caller sees to it that the lower
    /// bound does not exceed the upper one.
    pub fn new(padding_len: usize, lower_bound: usize, upper_bound: usize) -> (producer: Self)
        requires
            lower_bound <= upper_bound,
        ensures
            producer.upcoming() == padded_range(
                lower_bound as nat,
                upper_bound as nat,
                padding_len as nat,
            ),
            producer.total() == upper_bound - lower_bound,
            producer.upcoming().len() == producer.total(),
    {
        RangeProducer {
            padding_len,
            cursor: lower_bound,
            upper_bound,
            size: upper_bound - lower_bound,
        }
    }
}

impl Producer for RangeProducer {
    /// The numerals from the cursor up to the upper bound.
    closed spec fn upcoming(&self) -> Seq<Seq<u8>> {
        padded_range(self.cursor as nat, self.upper_bound as nat, self.padding_len as nat)
    }

    /// The length of the range the producer was made for.
    closed spec fn total(&self) -> nat {
        self.size as nat
    }

    /// Hands out the numeral of the integer at the cursor and moves the
    /// cursor up by one, until it reaches the upper bound.
    fn next(&mut self) -> (candidate: Option<Arc<Vec<u8>>>) {
        if self.cursor < self.upper_bound {
            let number = self.cursor;
            let data = format_padded(number, self.padding_len);
            self.cursor = number + 1;
            Some(Arc::new(data))
        } else {
            None
        }
    }

    /// The length of the range the producer was made for.
    fn size(&self) -> (count: usize) {
        self.size
    }
}

} // verus!

//! Lazily produced sequences of byte-string candidates.
//!
//! A [`Producer`] is a cursor over a source of candidates. It hands them out
//! one at a time, in order, until the source is exhausted, and reports the
//! count it was built for as a denominator for progress display.
//!
//! Two producers implement the interface:
//! [`dictionary::LineProducer`] hands out the lines of a newline-delimited
//! byte source, and [`number_ranges::RangeProducer`] the zero-padded decimal
//! numerals of an integer range.

pub mod decimal;
pub mod dictionary;
pub mod lines;
pub mod number_ranges;
pub mod producer;

pub use producer::Producer;

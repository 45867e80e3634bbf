use production::number_ranges::RangeProducer;
use production::Producer;
use std::sync::Arc;

fn drain(producer: &mut RangeProducer) -> Vec<Vec<u8>> {
    let mut out = Vec::new();
    while let Some(candidate) = producer.next() {
        out.push(candidate.as_ref().clone());
    }
    out
}

#[test]
fn range_yields_padded_numbers_then_ends() {
    let mut producer = RangeProducer::new(3, 5, 8);
    assert_eq!(producer.size(), 3);
    assert_eq!(producer.next().unwrap().as_slice(), b"005");
    assert_eq!(producer.next().unwrap().as_slice(), b"006");
    assert_eq!(producer.next().unwrap().as_slice(), b"007");
    assert!(producer.next().is_none());
}

#[test]
fn range_keeps_a_number_wider_than_the_padding_whole() {
    let mut producer = RangeProducer::new(2, 999, 1000);
    assert_eq!(producer.size(), 1);
    assert_eq!(producer.next().unwrap().as_slice(), b"999");
    assert!(producer.next().is_none());
}

#[test]
fn range_size_is_the_same_before_during_and_after_consumption() {
    let mut producer = RangeProducer::new(1, 10, 14);
    assert_eq!(producer.size(), 4);
    assert!(producer.next().is_some());
    assert_eq!(producer.size(), 4);
    assert!(producer.next().is_some());
    assert!(producer.next().is_some());
    assert_eq!(producer.size(), 4);
    assert!(producer.next().is_some());
    assert!(producer.next().is_none());
    assert_eq!(producer.size(), 4);
    assert!(producer.next().is_none());
    assert_eq!(producer.size(), 4);
}

#[test]
fn range_with_equal_bounds_is_empty() {
    let mut producer = RangeProducer::new(4, 7, 7);
    assert_eq!(producer.size(), 0);
    assert!(producer.next().is_none());
    assert!(producer.next().is_none());
}

#[test]
fn range_without_padding_yields_plain_numerals() {
    let mut producer = RangeProducer::new(0, 0, 3);
    assert_eq!(drain(&mut producer), vec![b"0".to_vec(), b"1".to_vec(), b"2".to_vec()]);
}

#[test]
fn range_is_ascending_across_a_change_of_digit_count() {
    let mut producer = RangeProducer::new(2, 8, 12);
    assert_eq!(producer.size(), 4);
    assert_eq!(
        drain(&mut producer),
        vec![b"08".to_vec(), b"09".to_vec(), b"10".to_vec(), b"11".to_vec()]
    );
}

#[test]
fn range_stays_exhausted() {
    let mut producer = RangeProducer::new(3, 1, 2);
    assert_eq!(producer.next().unwrap().as_slice(), b"001");
    for _ in 0..5 {
        assert!(producer.next().is_none());
    }
}

#[test]
fn range_reaches_the_largest_lower_bound() {
    let mut producer = RangeProducer::new(1, usize::MAX - 1, usize::MAX);
    assert_eq!(producer.size(), 1);
    let expected = format!("{}", usize::MAX - 1);
    assert_eq!(producer.next().unwrap().as_slice(), expected.as_bytes());
    assert!(producer.next().is_none());
}

#[test]
fn range_yields_exactly_size_candidates() {
    let mut producer = RangeProducer::new(5, 95, 1005);
    let size = producer.size();
    assert_eq!(size, 910);
    let all = drain(&mut producer);
    assert_eq!(all.len(), size);
    for (offset, candidate) in all.iter().enumerate() {
        let expected = format!("{:0>5}", 95 + offset);
        assert_eq!(candidate.as_slice(), expected.as_bytes());
    }
}

#[test]
fn range_candidates_are_buffers_of_their_own() {
    let mut producer = RangeProducer::new(2, 3, 5);
    let first: Arc<Vec<u8>> = producer.next().unwrap();
    let second: Arc<Vec<u8>> = producer.next().unwrap();
    assert_eq!(Arc::strong_count(&first), 1);
    assert_eq!(Arc::strong_count(&second), 1);
    assert_eq!(first.as_slice(), b"03");
    assert_eq!(second.as_slice(), b"04");
}

#[test]
fn range_through_the_interface() {
    let mut producers: Vec<Box<dyn Producer>> = Vec::new();
    producers.push(Box::new(RangeProducer::new(1, 0, 2)));
    let producer = &mut producers[0];
    assert_eq!(producer.size(), 2);
    assert_eq!(producer.next().unwrap().as_slice(), b"0");
    assert_eq!(producer.next().unwrap().as_slice(), b"1");
    assert!(producer.next().is_none());
}

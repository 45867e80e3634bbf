use production::decimal::format_padded;

#[test]
fn zero_is_one_digit() {
    assert_eq!(format_padded(0, 0), b"0".to_vec());
    assert_eq!(format_padded(0, 1), b"0".to_vec());
}

#[test]
fn zero_is_padded_like_any_number() {
    assert_eq!(format_padded(0, 3), b"000".to_vec());
}

#[test]
fn short_numbers_get_zeros_in_front() {
    assert_eq!(format_padded(5, 3), b"005".to_vec());
    assert_eq!(format_padded(42, 5), b"00042".to_vec());
    assert_eq!(format_padded(9, 2), b"09".to_vec());
}

#[test]
fn numbers_of_the_exact_width_are_unchanged() {
    assert_eq!(format_padded(5, 1), b"5".to_vec());
    assert_eq!(format_padded(100, 3), b"100".to_vec());
}

#[test]
fn wide_numbers_are_not_cut() {
    assert_eq!(format_padded(999, 2), b"999".to_vec());
    assert_eq!(format_padded(12345, 3), b"12345".to_vec());
    assert_eq!(format_padded(10, 0), b"10".to_vec());
}

#[test]
fn the_largest_number_is_formatted_whole() {
    let digits = format!("{}", usize::MAX);
    assert_eq!(format_padded(usize::MAX, 0), digits.as_bytes().to_vec());
    let padded = format!("00000{}", usize::MAX);
    assert_eq!(format_padded(usize::MAX, digits.len() + 5), padded.as_bytes().to_vec());
}

#[test]
fn powers_of_ten_have_the_right_digit_count() {
    let mut power: usize = 1;
    let mut digits = 1;
    while digits <= 9 {
        assert_eq!(format_padded(power, 0).len(), digits);
        assert_eq!(format_padded(power - 1, 0).len(), if digits == 1 { 1 } else { digits - 1 });
        power *= 10;
        digits += 1;
    }
}

#[test]
fn agrees_with_the_standard_formatter() {
    let numbers: [usize; 12] =
        [0, 1, 9, 10, 11, 99, 100, 101, 4095, 65535, 1_000_000, 987_654_321];
    for number in numbers {
        for width in 0..12 {
            let expected = format!("{:0>width$}", number, width = width);
            assert_eq!(format_padded(number, width), expected.as_bytes().to_vec());
        }
    }
}

#[test]
fn length_is_the_larger_of_width_and_digit_count() {
    for number in [0usize, 7, 70, 700, 7000] {
        let digits = format!("{}", number).len();
        for width in 0..8 {
            assert_eq!(format_padded(number, width).len(), digits.max(width));
        }
    }
}

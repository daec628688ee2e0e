use fas_rs::error::SetupError;
use fas_rs::order::{sort, unique};
use fas_rs::table::FrequencyTable;
use fas_rs::text::{count_words, parse_list, parse_word};

const I64_MIN: i128 = i64::MIN as i128;
const I64_MAX: i128 = i64::MAX as i128;

#[test]
fn words_are_split_at_any_white_space() {
    assert_eq!(
        parse_list(b"  12\t13\n14\r\n15\x0b16\x0c17 ", true, I64_MIN, I64_MAX),
        Ok(vec![12, 13, 14, 15, 16, 17])
    );
    assert_eq!(count_words(b"  12\t13\n14\r\n15\x0b16\x0c17 "), 6);
}

#[test]
fn an_empty_list_has_no_words() {
    assert_eq!(parse_list(b"", true, I64_MIN, I64_MAX), Ok(vec![]));
    assert_eq!(parse_list(b" \n\t", true, I64_MIN, I64_MAX), Ok(vec![]));
    assert_eq!(count_words(b""), 0);
    assert_eq!(count_words(b"\n"), 0);
}

#[test]
fn count_words_does_not_read_the_words() {
    assert_eq!(count_words(b"0 1 two 3"), 4);
    assert_eq!(count_words(b"0-3"), 1);
}

#[test]
fn a_word_may_carry_a_sign() {
    assert_eq!(parse_word(b"+5", 0, 2, true, I64_MIN, I64_MAX), Some(5));
    assert_eq!(parse_word(b"-5", 0, 2, true, I64_MIN, I64_MAX), Some(-5));
    assert_eq!(parse_word(b"+5", 0, 2, false, 0, I64_MAX), Some(5));
    assert_eq!(parse_word(b"-5", 0, 2, false, I64_MIN, I64_MAX), None);
    assert_eq!(parse_word(b"-0", 0, 2, false, 0, I64_MAX), None);
    assert_eq!(parse_word(b"-0", 0, 2, true, 0, I64_MAX), Some(0));
}

#[test]
fn a_word_needs_a_digit_and_nothing_but_digits() {
    assert_eq!(parse_word(b"", 0, 0, true, I64_MIN, I64_MAX), None);
    assert_eq!(parse_word(b"+", 0, 1, true, I64_MIN, I64_MAX), None);
    assert_eq!(parse_word(b"-", 0, 1, true, I64_MIN, I64_MAX), None);
    assert_eq!(parse_word(b"+-5", 0, 3, true, I64_MIN, I64_MAX), None);
    assert_eq!(parse_word(b"5+", 0, 2, true, I64_MIN, I64_MAX), None);
    assert_eq!(parse_word(b"12a", 0, 3, true, I64_MIN, I64_MAX), None);
    assert_eq!(parse_word(b"1.5", 0, 3, true, I64_MIN, I64_MAX), None);
    assert_eq!(parse_word(b"0x10", 0, 4, true, I64_MIN, I64_MAX), None);
    assert_eq!(parse_word(b"007", 0, 3, true, I64_MIN, I64_MAX), Some(7));
}

#[test]
fn a_word_is_read_between_its_bounds() {
    assert_eq!(parse_word(b"12 345 6", 3, 6, true, I64_MIN, I64_MAX), Some(345));
    assert_eq!(parse_word(b"12 345 6", 3, 5, true, I64_MIN, I64_MAX), Some(34));
    assert_eq!(parse_word(b"12 345 6", 2, 6, true, I64_MIN, I64_MAX), None);
}

#[test]
fn a_word_out_of_range_is_refused() {
    assert_eq!(
        parse_word(b"9223372036854775807", 0, 19, true, I64_MIN, I64_MAX),
        Some(9223372036854775807)
    );
    assert_eq!(parse_word(b"9223372036854775808", 0, 19, true, I64_MIN, I64_MAX), None);
    assert_eq!(
        parse_word(b"-9223372036854775808", 0, 20, true, I64_MIN, I64_MAX),
        Some(-9223372036854775808)
    );
    assert_eq!(parse_word(b"-9223372036854775809", 0, 20, true, I64_MIN, I64_MAX), None);
    assert_eq!(parse_word(b"11", 0, 2, true, 0, 10), None);
    assert_eq!(parse_word(b"10", 0, 2, true, 0, 10), Some(10));
    let long = [b'9'; 60];
    assert_eq!(parse_word(&long, 0, 60, true, I64_MIN, I64_MAX), None);
    let zeros = [b'0'; 60];
    assert_eq!(parse_word(&zeros, 0, 60, true, I64_MIN, I64_MAX), Some(0));
}

#[test]
fn every_128_bit_integer_can_be_read() {
    let max = b"170141183460469231731687303715884105727";
    let over = b"170141183460469231731687303715884105728";
    let min = b"-170141183460469231731687303715884105728";
    let under = b"-170141183460469231731687303715884105729";
    assert_eq!(parse_word(max, 0, 39, true, i128::MIN, i128::MAX), Some(i128::MAX));
    assert_eq!(parse_word(over, 0, 39, true, i128::MIN, i128::MAX), None);
    assert_eq!(parse_word(min, 0, 40, true, i128::MIN, i128::MAX), Some(i128::MIN));
    assert_eq!(parse_word(under, 0, 40, true, i128::MIN, i128::MAX), None);
    assert_eq!(parse_word(min, 0, 40, true, i128::MIN + 1, i128::MAX), None);
    assert_eq!(
        parse_word(b"340282366920938463463374607431768211456", 0, 39, true, i128::MIN, i128::MAX),
        None
    );
}

#[test]
fn one_bad_word_fails_the_list() {
    assert_eq!(parse_list(b"1 2 x 4", true, I64_MIN, I64_MAX), Err(SetupError::Unparseable));
    assert_eq!(parse_list(b"1 2 3 -", true, I64_MIN, I64_MAX), Err(SetupError::Unparseable));
    assert_eq!(parse_list(b"1,2", true, I64_MIN, I64_MAX), Err(SetupError::Unparseable));
    assert_eq!(
        parse_list("1\u{a0}2".as_bytes(), true, I64_MIN, I64_MAX),
        Err(SetupError::Unparseable)
    );
}

#[test]
fn sort_keeps_every_value() {
    assert_eq!(sort(&vec![3, 1, 2, 3, -7, 1]), vec![-7, 1, 1, 2, 3, 3]);
    assert_eq!(sort(&vec![]), Vec::<i128>::new());
    assert_eq!(sort(&vec![5]), vec![5]);
    assert_eq!(sort(&vec![2, 2, 2]), vec![2, 2, 2]);
}

#[test]
fn unique_keeps_each_value_once() {
    assert_eq!(unique(&vec![-7, 1, 1, 2, 3, 3]), vec![-7, 1, 2, 3]);
    assert_eq!(unique(&vec![]), Vec::<i128>::new());
    assert_eq!(unique(&vec![4, 4, 4]), vec![4]);
}

fn entries(table: &FrequencyTable) -> Vec<i64> {
    (0..table.len()).map(|pos| table.get(pos)).collect()
}

#[test]
fn a_table_is_ascending_and_holds_each_frequency_once() {
    let table = FrequencyTable::parse(b"900000 300000 600000 300000\n").unwrap_or_else(|_| panic!());
    assert_eq!(entries(&table), vec![300_000_000, 600_000_000, 900_000_000]);
    assert_eq!(table.top(), 2);
}

#[test]
fn a_table_is_in_cycles_per_second() {
    let table = FrequencyTable::parse(b"1 -2").unwrap_or_else(|_| panic!());
    assert_eq!(entries(&table), vec![-2000, 1000]);
}

#[test]
fn a_table_holds_what_fits_in_64_bits() {
    let table = FrequencyTable::parse(b"9223372036854775 -9223372036854775")
        .unwrap_or_else(|_| panic!());
    assert_eq!(
        entries(&table),
        vec![-9_223_372_036_854_775_000, 9_223_372_036_854_775_000]
    );
    assert!(matches!(
        FrequencyTable::parse(b"9223372036854776"),
        Err(SetupError::Unparseable)
    ));
    assert!(matches!(
        FrequencyTable::parse(b"-9223372036854776"),
        Err(SetupError::Unparseable)
    ));
}

#[test]
fn a_table_needs_a_frequency() {
    assert!(matches!(FrequencyTable::parse(b""), Err(SetupError::Empty)));
    assert!(matches!(FrequencyTable::parse(b"\n"), Err(SetupError::Empty)));
    assert!(matches!(FrequencyTable::parse(b"1200 MHz"), Err(SetupError::Unparseable)));
}

#[test]
fn lists_are_read_as_the_standard_library_reads_them() {
    let texts: [&str; 12] = [
        "300000 600000 900000\n",
        "  -5\t+7 \r\n 007",
        "",
        "\n",
        "1 2 three",
        "9223372036854775807 -9223372036854775808",
        "9223372036854775808",
        "+",
        "- 5",
        "1_000",
        "12\x0b34\x0c56",
        "0 1 2 3 4 5 6 7",
    ];
    for text in texts {
        let expected: Option<Vec<i128>> = text
            .split_whitespace()
            .map(|word| word.parse::<i64>().ok().map(i128::from))
            .collect();
        assert_eq!(parse_list(text.as_bytes(), true, I64_MIN, I64_MAX).ok(), expected);
        assert_eq!(count_words(text.as_bytes()), text.split_whitespace().count());

        let unsigned: Option<Vec<i128>> = text
            .split_whitespace()
            .map(|word| word.parse::<u32>().ok().map(i128::from))
            .collect();
        assert_eq!(parse_list(text.as_bytes(), false, 0, u32::MAX as i128).ok(), unsigned);
    }
}

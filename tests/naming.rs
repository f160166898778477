use lambda_test_format::decimal::{decimal_text, padded_text};
use lambda_test_format::stamp::{csv_path, file_name, output_file_path, Timestamp};

fn stamp(year: i32, month: u32, day: u32, hour: u32, minute: u32) -> Timestamp {
    Timestamp { year, month, day, hour, minute }
}

#[test]
fn decimal_text_matches_to_string() {
    assert_eq!(decimal_text(0), "0");
    assert_eq!(decimal_text(9), "9");
    assert_eq!(decimal_text(10), "10");
    assert_eq!(decimal_text(1234567890), "1234567890");
    assert_eq!(decimal_text(u64::MAX), u64::MAX.to_string());
}

#[test]
fn padded_text_leads_with_zeros() {
    assert_eq!(padded_text(7, 2), "07");
    assert_eq!(padded_text(0, 2), "00");
    assert_eq!(padded_text(59, 2), "59");
    assert_eq!(padded_text(123, 2), "123");
    assert_eq!(padded_text(21, 4), "0021");
    assert_eq!(padded_text(5, 0), "5");
}

#[test]
fn file_name_puts_minute_before_hour() {
    assert_eq!(file_name(&stamp(2021, 3, 4, 5, 6)), "202103040605.csv");
    assert_eq!(file_name(&stamp(1999, 12, 31, 23, 59)), "199912315923.csv");
    assert_eq!(file_name(&stamp(2024, 1, 1, 0, 0)), "202401010000.csv");
}

#[test]
fn file_name_writes_years_outside_four_digits_with_a_sign() {
    assert_eq!(file_name(&stamp(21, 3, 4, 5, 6)), "002103040605.csv");
    assert_eq!(file_name(&stamp(10000, 3, 4, 5, 6)), "+1000003040605.csv");
    assert_eq!(file_name(&stamp(-1, 3, 4, 5, 6)), "-000103040605.csv");
}

#[test]
fn csv_path_joins_directory_and_name() {
    assert_eq!(csv_path("out", &stamp(2021, 3, 4, 5, 6)), "out/202103040605.csv");
    assert_eq!(csv_path("", &stamp(2021, 3, 4, 5, 6)), "/202103040605.csv");
}

#[test]
fn output_file_path_is_under_the_directory() {
    let p = output_file_path("results");
    assert!(p.starts_with("results/"));
    assert!(p.ends_with(".csv"));
    assert_eq!(p.len(), "results/".len() + 12 + ".csv".len());
    assert!(p["results/".len()..p.len() - 4].chars().all(|c| c.is_ascii_digit()));
}

use herdr_tilt::digest::hex_text;
use herdr_tilt::order::text_not_after;
use herdr_tilt::text::{
    contains, decimal_text, eq_ignoring_case, fit_bytes, lines, signed_decimal_text, split_once,
    strip_prefix, to_lower, trim, trim_end, CharClass,
};

const SAMPLES: [&str; 12] = [
    "",
    "a",
    "ab",
    "Z",
    "z",
    "é",
    "日本",
    "\u{ffff}",
    "\u{10000}",
    " \t\u{a0}both sides\u{2003}\r\n",
    "first\r\nsecond\n\nlast",
    "one │ two │ three",
];

#[test]
fn texts_are_ordered_by_their_bytes() {
    for left in SAMPLES {
        for right in SAMPLES {
            assert_eq!(text_not_after(left, right), left <= right, "{left:?} {right:?}");
            assert_eq!(
                text_not_after(left, right),
                left.as_bytes() <= right.as_bytes()
            );
        }
    }
}

#[test]
fn texts_are_cut_as_the_standard_library_cuts_them() {
    for sample in SAMPLES {
        assert_eq!(trim(sample), sample.trim());
        assert_eq!(
            trim_end(sample, CharClass::LineEnd),
            sample.trim_end_matches(['\r', '\n'])
        );
        assert_eq!(lines(sample), sample.lines().collect::<Vec<_>>());
        assert_eq!(
            split_once(sample, " │ "),
            sample
                .split_once(" │ ")
                .map(|(before, after)| (before.to_owned(), after.to_owned()))
        );
        for pattern in ["", "a", "two", "日"] {
            assert_eq!(contains(sample, pattern), sample.contains(pattern));
            assert_eq!(
                strip_prefix(sample, pattern),
                sample.strip_prefix(pattern).map(|rest| rest.to_owned())
            );
        }
    }
    assert_eq!(trim_end("path//", CharClass::Slash), "path");
}

#[test]
fn only_ascii_letters_have_two_cases() {
    assert_eq!(to_lower("AZ az É"), "az az É");
    assert!(eq_ignoring_case("DisAbled", "disabled"));
    assert!(!eq_ignoring_case("É", "é"));
}

#[test]
fn numbers_are_written_in_digits() {
    for number in [0, 7, 10, 41234, u64::MAX] {
        assert_eq!(decimal_text(number), number.to_string());
    }
    for number in [0, -1, 42, i64::MIN, i64::MAX] {
        assert_eq!(signed_decimal_text(number), number.to_string());
    }
    assert_eq!(hex_text(&vec![0, 9, 10, 255]), "00090aff");
}

#[test]
fn texts_are_cut_to_bytes_between_characters() {
    assert_eq!(fit_bytes("aé日", 6), "aé日");
    assert_eq!(fit_bytes("aé日", 5), "aé");
    assert_eq!(fit_bytes("aé日", 2), "a");
    assert_eq!(fit_bytes("é", 0), "");
}

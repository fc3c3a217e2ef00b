use scribe::model::numbers::{to_digits, to_digits_checked};

fn same(input: &str, expected: &str) {
    assert_eq!(to_digits(input), expected, "input: {input}");
}

#[test]
fn years_read_as_pairs_not_sums() {
    same("due in twenty twenty six", "due in 2026");
    same("born nineteen eighty four", "born 1984");
    same("the year twenty twenty", "the year 2020");
}

#[test]
fn scaled_numbers_accumulate() {
    same("one hundred and three", "103");
    same("two thousand twenty six", "2026");
    same("three million", "3000000");
    same("sixteen hundred", "1600");
}

#[test]
fn digit_strings_stay_digit_strings() {
    same("error four zero four", "error 404");
    same("extension one two three", "extension 123");
}

#[test]
fn a_lone_small_number_stays_a_word() {
    same("I need one thing", "I need one thing");
    same("just two", "just two");
}

#[test]
fn a_lone_large_number_converts() {
    same("about twenty people", "about 20 people");
    same("fifteen minutes", "15 minutes");
}

#[test]
fn hyphens_join_a_number_but_commas_break_it() {
    same("twenty-three items", "23 items");
    same("twenty, six", "20, six");
}

#[test]
fn decimals_read_the_fraction_digit_by_digit() {
    same("pi is three point one four", "pi is 3.14");
}

#[test]
fn trailing_connectors_are_not_swallowed() {
    same("twenty three and then some", "23 and then some");
}

#[test]
fn text_without_numbers_is_returned_unchanged() {
    same("nothing numeric here at all", "nothing numeric here at all");
    same("", "");
}

#[test]
fn number_words_inside_other_words_are_not_matched() {
    same("someone tenderly won", "someone tenderly won");
}

#[test]
fn capitalised_number_words_are_read_in_lowercase() {
    same("Twenty Twenty Six", "2026");
    same("ONE HUNDRED", "100");
}

#[test]
fn a_point_with_no_digits_after_it_leaves_the_whole_number() {
    same("twenty point", "20 point");
    same("three point twenty", "3");
}

#[test]
fn a_pair_outside_two_digits_is_summed() {
    same("nine twenty", "29");
    same("twenty twenty five", "2025");
}

#[test]
fn a_reading_beyond_u64_is_reported_rather_than_wrapped() {
    let many = "nine hundred hundred hundred hundred hundred hundred hundred hundred hundred hundred";
    assert_eq!(to_digits_checked(many), None);
    assert_eq!(to_digits_checked("one hundred").as_deref(), Some("100"));
}

#[test]
fn billions_and_thousands_combine() {
    same("two billion three million four thousand five", "2003004005");
}

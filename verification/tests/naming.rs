use orbit_sim::naming::get_planet_name_from_index;
use orbit_sim::text::{decimal_string, split_whitespace};

#[test]
fn first_names_cycle_through_the_list() {
    assert_eq!(get_planet_name_from_index(0), "Alpha");
    assert_eq!(get_planet_name_from_index(1), "Beta");
    assert_eq!(get_planet_name_from_index(13), "Omicron");
    assert_eq!(get_planet_name_from_index(17), "Omega");
}

#[test]
fn later_rounds_get_a_number() {
    assert_eq!(get_planet_name_from_index(18), "Alpha 1");
    assert_eq!(get_planet_name_from_index(35), "Omega 1");
    assert_eq!(get_planet_name_from_index(41), "Zeta 2");
    assert_eq!(get_planet_name_from_index(1000), "Lambda 55");
}

#[test]
fn decimal_notation_of_integers() {
    assert_eq!(decimal_string(0), "0");
    assert_eq!(decimal_string(7), "7");
    assert_eq!(decimal_string(10), "10");
    assert_eq!(decimal_string(90210), "90210");
    assert_eq!(decimal_string(usize::MAX), usize::MAX.to_string());
}

#[test]
fn words_are_split_on_any_white_space() {
    let words = split_whitespace("  1 2\n\t3 \u{a0}4\u{3000}five\r\n");
    assert_eq!(words, vec!["1", "2", "3", "4", "five"]);
}

#[test]
fn empty_and_blank_text_has_no_words() {
    assert!(split_whitespace("").is_empty());
    assert!(split_whitespace(" \n\t \u{2028}").is_empty());
}

#[test]
fn split_matches_std_on_mixed_text() {
    let text = "a\u{85}b\u{1680}c\u{200a}d\u{202f}e\u{205f}f\u{b}g\u{c}h x\u{200b}y";
    let expected: Vec<String> = text.split_whitespace().map(String::from).collect();
    assert_eq!(split_whitespace(text), expected);
}

#[test]
fn white_space_test_agrees_with_std_on_every_char() {
    for u in 0..=0x10FFFFu32 {
        if let Some(c) = char::from_u32(u) {
            assert_eq!(orbit_sim::text::char_is_whitespace(c), c.is_whitespace(), "U+{u:04X}");
        }
    }
}

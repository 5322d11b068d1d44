use wordle::date_to_word::{day_index_from_elapsed, DayIndexError};
use wordle::discord_err_msg;
use wordle::parse_word;
use wordle::parse_word_err;
use wordle::word_bank::WordBank;
use wordle::Word;

fn word(s: &str) -> Word {
    parse_word(s).unwrap()
}

#[test]
fn bank_accepts_words_of_both_lists() {
    let bank = WordBank::from_raw("crane\nsolar", "trace\nslate").unwrap();
    // Words of the guess list are acceptable.
    assert!(bank.is_valid_guess(&word("trace")));
    assert!(bank.is_valid_guess(&word("slate")));
    // Every daily answer is itself acceptable.
    assert!(bank.is_valid_guess(&word("crane")));
    assert!(bank.is_valid_guess(&word("solar")));
    // A word in neither list is not.
    assert!(!bank.is_valid_guess(&word("zzzzz")));
}

#[test]
fn bank_serves_day_words_in_order() {
    let bank = WordBank::from_raw("crane\nsolar\nthose", "trace").unwrap();
    assert_eq!(bank.get_word(0), Some(&word("crane")));
    assert_eq!(bank.get_word(1), Some(&word("solar")));
    assert_eq!(bank.get_word(2), Some(&word("those")));
    assert_eq!(bank.get_word(3), None);
}

#[test]
fn bank_build_fails_on_long_day_word() {
    let err = WordBank::from_raw("abcdef", "trace").unwrap_err();
    assert_eq!(err.text, "Could not fit word into 5 character array: abcdef");
}

#[test]
fn bank_build_error_cites_the_offending_line() {
    // The error names the misfitting line itself, not the rest of the list.
    let err = WordBank::from_raw("crane\nabcdef\nsolar", "trace").unwrap_err();
    assert_eq!(err.text, "Could not fit word into 5 character array: abcdef");
    let err = WordBank::from_raw("crane", "trace\nxy\nslate").unwrap_err();
    assert_eq!(err.text, "Could not fit word into 5 character array: xy");
}

#[test]
fn bank_build_error_carries_the_raw_line_truncated() {
    // The cited line is the raw one, surrounding whitespace included, and
    // is cut to ten characters when longer.
    let err = WordBank::from_raw("crane\n abcdef \nsolar", "trace").unwrap_err();
    assert_eq!(err.text, "Could not fit word into 5 character array:  abcdef ");
    let err = WordBank::from_raw("abcdefghijklmno\ncrane", "trace").unwrap_err();
    assert_eq!(err.text, "Could not fit word into 5 character array: abcdefghij...");
}

#[test]
fn bank_build_fails_on_short_guess_word() {
    let err = WordBank::from_raw("crane", "abc").unwrap_err();
    assert_eq!(err.text, "Could not fit word into 5 character array: abc");
}

#[test]
fn bank_build_trims_lines_and_skips_empty_ones() {
    let bank = WordBank::from_raw("  crane  \n\nsolar\n", "trace\r\nslate\r\n").unwrap();
    assert_eq!(bank.get_word(0), Some(&word("crane")));
    assert_eq!(bank.get_word(1), Some(&word("solar")));
    assert_eq!(bank.get_word(2), None);
    assert!(bank.is_valid_guess(&word("trace")));
    assert!(bank.is_valid_guess(&word("slate")));
}

#[test]
fn empty_lists_build_an_empty_bank() {
    let bank = WordBank::from_raw("", "").unwrap();
    assert_eq!(bank.get_word(0), None);
    assert!(!bank.is_valid_guess(&word("crane")));
}

#[test]
fn whitespace_only_lists_build_an_empty_bank() {
    let bank = WordBank::from_raw("\n  \n", "\t\n").unwrap();
    assert_eq!(bank.get_word(0), None);
}

#[test]
fn trimming_covers_unicode_whitespace() {
    let bank = WordBank::from_raw("\u{a0}crane\u{a0}\n\u{3000}\u{2028}\n", "\u{2003}trace").unwrap();
    assert_eq!(bank.get_word(0), Some(&word("crane")));
    assert_eq!(bank.get_word(1), None);
    assert!(bank.is_valid_guess(&word("trace")));
}

#[test]
fn parse_word_trims_and_checks_length() {
    assert_eq!(parse_word(" crane "), Ok(word("crane")));
    let err = parse_word("scrabble").unwrap_err();
    assert_eq!(err.text, "Could not fit word into 5 character array: scrabble");
    assert!(parse_word("").is_err());
    assert!(parse_word("   \t ").is_err());
}

#[test]
fn word_error_truncates_long_text() {
    let err = parse_word_err("abcdefghijk");
    assert_eq!(err.text, "Could not fit word into 5 character array: abcdefghij...");
    let err = parse_word_err("abcdefghij");
    assert_eq!(err.text, "Could not fit word into 5 character array: abcdefghij");
}

#[test]
fn day_index_rejects_negative_counts() {
    assert_eq!(day_index_from_elapsed(-1), Err(DayIndexError));
    assert_eq!(day_index_from_elapsed(0), Ok(0));
    assert_eq!(day_index_from_elapsed(227), Ok(227));
}

#[test]
fn error_report_carries_debug_form() {
    assert_eq!(discord_err_msg("boom"), "Error sending message: \"boom\"");
    assert_eq!(discord_err_msg(7u32), "Error sending message: 7");
}

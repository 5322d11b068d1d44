use wordle::board::{Board, State};
use wordle::guesses::{Guess, WordGuess};
use wordle::parse_word;
use wordle::render_ansi_newline;
use wordle::Word;

fn word(s: &str) -> Word {
    parse_word(s).unwrap()
}

#[test]
fn score_trace_against_crane() {
    let row = WordGuess::from_guess(&word("crane"), &word("trace"));
    // t -> NotIncluded, r -> Correct, a -> Correct, c -> WrongPosition, e -> Correct
    assert_eq!(
        row.render_ansi(),
        "\u{001b}[37;40;1m t \u{001b}[37;45;1m r \u{001b}[37;45;1m a \u{001b}[37;41;1m c \u{001b}[37;45;1m e "
    );
    assert_eq!(
        row.as_discord_emojis(),
        ":black_large_square::green_square::green_square::orange_square::green_square:"
    );
    assert!(!row.matches());
    assert!(!row.unset());
}

#[test]
fn score_exact_secret_matches() {
    let row = WordGuess::from_guess(&word("crane"), &word("crane"));
    assert!(row.matches());
    assert_eq!(
        row.as_discord_emojis(),
        ":green_square::green_square::green_square::green_square::green_square:"
    );
}

#[test]
fn score_checks_whole_word_for_duplicates() {
    // The naive algorithm checks containment against the whole secret, so a
    // letter the secret holds once can be WrongPosition several times.
    let row = WordGuess::from_guess(&word("abcza"), &word("zzzzz"));
    assert_eq!(
        row.as_discord_emojis(),
        ":orange_square::orange_square::orange_square::green_square::orange_square:"
    );
}

#[test]
fn fresh_row_is_unset() {
    let row = WordGuess::new();
    assert!(row.unset());
    assert!(!row.matches());
    assert_eq!(
        row.as_discord_emojis(),
        ":black_large_square::black_large_square::black_large_square::black_large_square::black_large_square:"
    );
    assert_eq!(
        row.render_ansi(),
        "\u{001b}[37;49;1m   \u{001b}[37;49;1m   \u{001b}[37;49;1m   \u{001b}[37;49;1m   \u{001b}[37;49;1m   "
    );
}

#[test]
fn winning_guess_ends_game_on_written_row() {
    let mut board = Board::new(word("crane"));
    assert_eq!(board.state(), State::Playing);
    assert_eq!(board.guess(&word("slate")), State::Playing);
    assert_eq!(board.guess(&word("crane")), State::Won);
    assert_eq!(board.state(), State::Won);
    // Two rows were consumed, no more: the cursor stayed on the winning row.
    let summary = board.as_discord_emojis();
    assert!(summary.ends_with("2 / 6"));
}

#[test]
fn six_misses_lose_the_game() {
    let mut board = Board::new(word("crane"));
    for _ in 0..5 {
        assert_eq!(board.guess(&word("slate")), State::Playing);
    }
    assert_eq!(board.guess(&word("slate")), State::Lost);
    assert_eq!(board.state(), State::Lost);
    assert!(board.as_discord_emojis().ends_with("6 / 6"));
}

#[test]
fn board_reports_its_secret_and_rows() {
    let mut board = Board::new(word("crane"));
    assert_eq!(board.correct_word(), &word("crane"));
    assert_eq!(board.rows().len(), 6);
    assert!(board.rows()[0].unset());
    board.guess(&word("crane"));
    assert!(board.rows()[0].matches());
    assert!(board.rows()[1].unset());
}

#[test]
fn fresh_board_renders_empty() {
    let board = Board::new(word("crane"));
    assert_eq!(board.as_discord_emojis(), "0 / 6");
    let cell = "\u{001b}[37;49;1m   ";
    let line = format!("{}{}{}{}{}{}", cell, cell, cell, cell, cell, render_ansi_newline());
    let all = format!("{}{}{}{}{}{}", line, line, line, line, line, line);
    assert_eq!(board.render_ansi(), all);
}

#[test]
fn won_board_summary_lists_played_rows() {
    let mut board = Board::new(word("crane"));
    board.guess(&word("trace"));
    board.guess(&word("crane"));
    assert_eq!(
        board.as_discord_emojis(),
        ":black_large_square::green_square::green_square::orange_square::green_square:\n\
         :green_square::green_square::green_square::green_square::green_square:\n\
         2 / 6"
    );
}

#[test]
fn feedback_tokens_are_stable_and_distinct() {
    // Each played kind has one fixed token, whatever letter it carries.
    assert_eq!(Guess::Correct('a').discord_emoji(), ":green_square:");
    assert_eq!(Guess::Correct('z').discord_emoji(), ":green_square:");
    assert_eq!(Guess::WrongPosition('a').discord_emoji(), ":orange_square:");
    assert_eq!(Guess::WrongPosition('z').discord_emoji(), ":orange_square:");
    assert_eq!(Guess::NotIncluded('a').discord_emoji(), ":black_large_square:");
    assert_eq!(Guess::NotIncluded('z').discord_emoji(), ":black_large_square:");
    // The three played tokens are pairwise distinct.
    assert_ne!(Guess::Correct('a').discord_emoji(), Guess::WrongPosition('a').discord_emoji());
    assert_ne!(Guess::Correct('a').discord_emoji(), Guess::NotIncluded('a').discord_emoji());
    assert_ne!(Guess::WrongPosition('a').discord_emoji(), Guess::NotIncluded('a').discord_emoji());
    // An unplayed position deliberately shares the NotIncluded token.
    assert_eq!(Guess::Unset.discord_emoji(), ":black_large_square:");
}

#[test]
fn letter_feedback_accessors() {
    assert_eq!(Guess::Correct('q').to_char(), 'q');
    assert_eq!(Guess::WrongPosition('w').to_char(), 'w');
    assert_eq!(Guess::NotIncluded('x').to_char(), 'x');
    assert_eq!(Guess::Unset.to_char(), ' ');
    assert_eq!(Guess::Correct('q').ansi_color(), 45);
    assert_eq!(Guess::NotIncluded('q').ansi_color(), 40);
    assert_eq!(Guess::WrongPosition('q').ansi_color(), 41);
    assert_eq!(Guess::Unset.ansi_color(), 49);
    assert_eq!(Guess::Correct('k').render_ansi(), "\u{001b}[37;45;1m k ");
    assert_eq!(Guess::default(), Guess::Unset);
}

#[test]
fn ansi_newline_resets_colors() {
    assert_eq!(render_ansi_newline(), "\u{001b}[0m\n");
}

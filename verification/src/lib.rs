use vstd::prelude::*;

pub mod board;
pub mod date_to_word;
pub mod guesses;
pub mod word_bank;

use vstd::string::StrSliceExecFns;
use vstd::string::StringExecFns;

verus! {

/// Number of guesses a board allows before the game is lost.
pub const NUM_GUESSES: usize = 6;

/// Every secret word and every guess has exactly this many letters.
pub const WORD_LENGTH: usize = 5;

/// A word of the game: exactly `WORD_LENGTH` characters.
pub type Word = [char; WORD_LENGTH];

/// The text of the error for a word of the wrong length: a fixed prefix
/// followed by the offending text, cut down to ten characters and an
/// ellipsis when longer.
pub open spec fn spec_word_err_text(word: Seq<char>) -> Seq<char> {
    if word.len() > 10 {
        "Could not fit word into 5 character array: "@ + word.subrange(0, 10) + "..."@
    } else {
        "Could not fit word into 5 character array: "@ + word
    }
}

/// The error raised when a word-list line, or user-entered text, does not
/// have exactly `WORD_LENGTH` characters; carries the offending text,
/// truncated for display.
#[derive(Debug, PartialEq, Eq)]
pub struct WordLengthError {
    pub text: String,
}

/// Builds the error for text that could not become a `Word`.
pub fn parse_word_err(word: &str) -> (r: WordLengthError)
    ensures
        r.text@ == spec_word_err_text(word@),
{
    let len = word.unicode_len();
    let mut text = String::from_str("Could not fit word into 5 character array: ");
    if len > 10 {
        text.append(word.substring_char(0, 10));
        text.append("...");
    } else {
        text.append(word);
    }
    WordLengthError { text }
}

/// Parses one word of user-entered text: the text is trimmed of
/// surrounding whitespace and must then have exactly `WORD_LENGTH`
/// characters; anything else is refused with an error carrying the raw
/// text, truncated for display.
pub fn parse_word(text: &str) -> (r: Result<Word, WordLengthError>)
    ensures
        r is Ok <==> word_bank::spec_trim(text@).len() == WORD_LENGTH,
        r is Ok ==> (r->Ok_0)@ == word_bank::spec_trim(text@),
        r is Err ==> (r->Err_0).text@ == spec_word_err_text(text@),
{
    let cs = word_bank::str_chars(text);
    let t = word_bank::trim_chars(&cs);
    if t.len() == WORD_LENGTH {
        let w: Word = [t[0], t[1], t[2], t[3], t[4]];
        proof {
            assert(w@ =~= t@);
        }
        Ok(w)
    } else {
        Err(parse_word_err(text))
    }
}

/// Relies on String::push: appends exactly the one character to the end.
#[verifier::external_body]
pub(crate) fn push_char(s: &mut String, c: char)
    ensures
        final(s)@ == old(s)@ + seq![c],
{
    s.push(c)
}

/// Relies on the format macro over std's Debug: the rendered text starts
/// with the fixed report prefix, followed by the argument's debug form.
#[verifier::external_body]
pub fn discord_err_msg<T: core::fmt::Debug>(msg: T) -> (r: String)
    ensures
        r@.len() >= 23,
        r@.subrange(0, 23) == "Error sending message: "@,
{
    format!("Error sending message: {:?}", msg)
}

/// Terminal escape sequence that resets colors and ends the line,
/// placed after each rendered row of a board.
pub fn render_ansi_newline() -> (r: &'static str)
    ensures
        r@ == "\u{001b}[0m\n"@,
{
    "\u{001b}[0m\n"
}

} // verus!

use crate::push_char;
use crate::Word;
use crate::WORD_LENGTH;
use vstd::prelude::*;
use vstd::string::StringExecFns;

verus! {

/// Feedback for one letter of a guess: the letter sits in the right
/// position, occurs elsewhere in the secret word, does not occur at all,
/// or the position has not been played yet.
#[derive(Debug, Clone, Copy, PartialEq, Eq, Structural)]
pub enum Guess {
    Correct(char),
    WrongPosition(char),
    NotIncluded(char),
    Unset,
}

/// The feedback the naive per-letter algorithm gives position `i`:
/// an exact positional match is `Correct`; otherwise a letter found
/// anywhere in the secret is `WrongPosition`; otherwise `NotIncluded`.
/// Containment is checked against the whole secret, with no accounting
/// for duplicate letters: that quirk is part of the intended behavior.
pub open spec fn spec_letter_feedback(secret: Seq<char>, guess: Seq<char>, i: int) -> Guess {
    if guess[i] == secret[i] {
        Guess::Correct(guess[i])
    } else if secret.contains(guess[i]) {
        Guess::WrongPosition(guess[i])
    } else {
        Guess::NotIncluded(guess[i])
    }
}

impl Guess {
    /// The letter this feedback carries, or a space for an unplayed position.
    pub open spec fn spec_char(self) -> char {
        match self {
            Guess::Correct(c) => c,
            Guess::WrongPosition(c) => c,
            Guess::NotIncluded(c) => c,
            Guess::Unset => ' ',
        }
    }

    pub fn to_char(self) -> (c: char)
        ensures
            c == self.spec_char(),
    {
        match self {
            Guess::Correct(c) => c,
            Guess::WrongPosition(c) => c,
            Guess::NotIncluded(c) => c,
            Guess::Unset => ' ',
        }
    }

    /// The ANSI background color code used when rendering this feedback.
    pub open spec fn spec_ansi_color(self) -> usize {
        match self {
            Guess::Correct(_) => 45,
            Guess::NotIncluded(_) => 40,
            Guess::WrongPosition(_) => 41,
            Guess::Unset => 49,
        }
    }

    pub fn ansi_color(self) -> (color: usize)
        ensures
            color == self.spec_ansi_color(),
    {
        match self {
            Guess::Correct(_) => 45,
            Guess::NotIncluded(_) => 40,
            Guess::WrongPosition(_) => 41,
            Guess::Unset => 49,
        }
    }

    /// The pictorial token a chat client shows for this feedback.
    /// An unplayed position shares its token with `NotIncluded`.
    pub open spec fn spec_emoji(self) -> Seq<char> {
        match self {
            Guess::Correct(_) => ":green_square:"@,
            Guess::NotIncluded(_) => ":black_large_square:"@,
            Guess::WrongPosition(_) => ":orange_square:"@,
            Guess::Unset => ":black_large_square:"@,
        }
    }

    /// The terminal form of this feedback: an ANSI color escape, then the
    /// letter padded with one space on each side.
    pub open spec fn spec_render_ansi(self) -> Seq<char> {
        "\u{001b}[37;"@ + (match self {
            Guess::Correct(_) => "45"@,
            Guess::NotIncluded(_) => "40"@,
            Guess::WrongPosition(_) => "41"@,
            Guess::Unset => "49"@,
        }) + ";1m "@ + seq![self.spec_char()] + " "@
    }

    pub fn render_ansi(self) -> (r: String)
        ensures
            r@ == self.spec_render_ansi(),
    {
        let mut s = String::from_str("\u{001b}[37;");
        let color: &'static str = match self {
            Guess::Correct(_) => "45",
            Guess::NotIncluded(_) => "40",
            Guess::WrongPosition(_) => "41",
            Guess::Unset => "49",
        };
        s.append(color);
        s.append(";1m ");
        push_char(&mut s, self.to_char());
        s.append(" ");
        s
    }

    pub fn discord_emoji(self) -> (r: &'static str)
        ensures
            r@ == self.spec_emoji(),
    {
        match self {
            Guess::Correct(_) => ":green_square:",
            Guess::NotIncluded(_) => ":black_large_square:",
            Guess::WrongPosition(_) => ":orange_square:",
            Guess::Unset => ":black_large_square:",
        }
    }
}

impl Default for Guess {
    /// A position starts out unplayed.
    fn default() -> (r: Self)
        ensures
            r == Guess::Unset,
    {
        Guess::Unset
    }
}

/// The row the scoring algorithm produces for a full guess.
pub open spec fn spec_score_row(secret: Seq<char>, guess: Seq<char>) -> Seq<Guess> {
    Seq::new(WORD_LENGTH as nat, |i: int| spec_letter_feedback(secret, guess, i))
}

/// A row matches (wins the game) when every position is an exact hit.
pub open spec fn spec_row_matches(row: Seq<Guess>) -> bool {
    forall|i: int| 0 <= i < row.len() ==> row[i] is Correct
}

/// A row is unplayed when every position is still `Unset`.
pub open spec fn spec_row_unset(row: Seq<Guess>) -> bool {
    forall|i: int| 0 <= i < row.len() ==> row[i] == Guess::Unset
}

/// The terminal form of a whole row: each position's rendering, in order.
pub open spec fn spec_render_row_ansi(row: Seq<Guess>) -> Seq<char>
    decreases row.len(),
{
    if row.len() == 0 {
        Seq::empty()
    } else {
        spec_render_row_ansi(row.drop_last()) + row.last().spec_render_ansi()
    }
}

/// The pictorial form of a whole row: each position's token, in order.
pub open spec fn spec_emoji_row(row: Seq<Guess>) -> Seq<char>
    decreases row.len(),
{
    if row.len() == 0 {
        Seq::empty()
    } else {
        spec_emoji_row(row.drop_last()) + row.last().spec_emoji()
    }
}

/// Whether `word` contains the letter `c` anywhere.
fn word_contains(word: &Word, c: char) -> (r: bool)
    ensures
        r == word@.contains(c),
{
    let mut i: usize = 0;
    while i < WORD_LENGTH
        invariant
            i <= WORD_LENGTH,
            forall|j: int| 0 <= j < i ==> word@[j] != c,
        decreases WORD_LENGTH - i,
    {
        if word[i] == c {
            assert(word@.contains(c)) by {
                assert(word@[i as int] == c);
            }
            return true;
        }
        i += 1;
    }
    false
}

/// The feedback for one whole guess: one `Guess` entry per letter position.
#[derive(Debug, Clone, Copy)]
pub struct WordGuess {
    chars: [Guess; WORD_LENGTH],
}

impl View for WordGuess {
    type V = Seq<Guess>;

    closed spec fn view(&self) -> Seq<Guess> {
        self.chars@
    }
}

impl WordGuess {
    /// A fresh, unplayed row.
    pub fn new() -> (r: Self)
        ensures
            r@.len() == WORD_LENGTH,
            spec_row_unset(r@),
    {
        Self { chars: [Guess::Unset; WORD_LENGTH] }
    }

    /// Scores `guess_chars` against the secret word `wordle`,
    /// position by position.
    pub fn from_guess(wordle: &Word, guess_chars: &Word) -> (r: Self)
        ensures
            r@ == spec_score_row(wordle@, guess_chars@),
    {
        let mut guesses = Self::new();
        let mut i: usize = 0;
        while i < WORD_LENGTH
            invariant
                i <= WORD_LENGTH,
                guesses@.len() == WORD_LENGTH,
                forall|j: int|
                    0 <= j < i ==> guesses@[j] == spec_letter_feedback(wordle@, guess_chars@, j),
            decreases WORD_LENGTH - i,
        {
            let c = guess_chars[i];
            if wordle[i] == c {
                guesses.chars[i] = Guess::Correct(c);
            } else if word_contains(wordle, c) {
                guesses.chars[i] = Guess::WrongPosition(c);
            } else {
                guesses.chars[i] = Guess::NotIncluded(c);
            }
            i += 1;
        }
        proof {
            assert(guesses@ =~= spec_score_row(wordle@, guess_chars@));
        }
        guesses
    }

    /// Whether every position of this row is an exact hit.
    pub fn matches(&self) -> (r: bool)
        ensures
            r == spec_row_matches(self@),
    {
        let mut i: usize = 0;
        while i < WORD_LENGTH
            invariant
                i <= WORD_LENGTH,
                self@.len() == WORD_LENGTH,
                forall|j: int| 0 <= j < i ==> self@[j] is Correct,
            decreases WORD_LENGTH - i,
        {
            if !matches!(self.chars[i], Guess::Correct(_)) {
                assert(!spec_row_matches(self@)) by {
                    assert(!(self@[i as int] is Correct));
                }
                return false;
            }
            i += 1;
        }
        true
    }

    /// Renders the row for a terminal, one colored cell per position.
    pub fn render_ansi(self) -> (r: String)
        ensures
            r@ == spec_render_row_ansi(self@),
    {
        let mut s = String::new();
        let mut i: usize = 0;
        while i < WORD_LENGTH
            invariant
                i <= WORD_LENGTH,
                self@.len() == WORD_LENGTH,
                s@ == spec_render_row_ansi(self@.subrange(0, i as int)),
            decreases WORD_LENGTH - i,
        {
            let piece = self.chars[i].render_ansi();
            s.append(piece.as_str());
            proof {
                let pre = self@.subrange(0, i + 1);
                assert(pre.drop_last() =~= self@.subrange(0, i as int));
                assert(pre.last() == self@[i as int]);
            }
            i += 1;
        }
        proof {
            assert(self@.subrange(0, WORD_LENGTH as int) =~= self@);
        }
        s
    }

    /// Renders the row as pictorial tokens, one per position.
    pub fn as_discord_emojis(self) -> (r: String)
        ensures
            r@ == spec_emoji_row(self@),
    {
        let mut s = String::new();
        let mut i: usize = 0;
        while i < WORD_LENGTH
            invariant
                i <= WORD_LENGTH,
                self@.len() == WORD_LENGTH,
                s@ == spec_emoji_row(self@.subrange(0, i as int)),
            decreases WORD_LENGTH - i,
        {
            s.append(self.chars[i].discord_emoji());
            proof {
                let pre = self@.subrange(0, i + 1);
                assert(pre.drop_last() =~= self@.subrange(0, i as int));
                assert(pre.last() == self@[i as int]);
            }
            i += 1;
        }
        proof {
            assert(self@.subrange(0, WORD_LENGTH as int) =~= self@);
        }
        s
    }

    /// Whether this row has not been played yet.
    pub fn unset(&self) -> (r: bool)
        ensures
            r == spec_row_unset(self@),
    {
        let mut i: usize = 0;
        while i < WORD_LENGTH
            invariant
                i <= WORD_LENGTH,
                self@.len() == WORD_LENGTH,
                forall|j: int| 0 <= j < i ==> self@[j] == Guess::Unset,
            decreases WORD_LENGTH - i,
        {
            if !matches!(self.chars[i], Guess::Unset) {
                assert(!spec_row_unset(self@)) by {
                    assert(self@[i as int] != Guess::Unset);
                }
                return false;
            }
            i += 1;
        }
        true
    }
}

/// Law: the scoring algorithm gives every position of a full-length
/// secret/guess pair exactly one of the three played feedback kinds,
/// never `Unset`; a position is `Correct` exactly when the guessed letter
/// equals the secret's letter there, `WrongPosition` exactly when it
/// differs but occurs somewhere in the secret, and `NotIncluded` exactly
/// when it does not occur in the secret at all.
pub proof fn lemma_score_positions(secret: Seq<char>, guess: Seq<char>, i: int)
    requires
        secret.len() == WORD_LENGTH,
        guess.len() == WORD_LENGTH,
        0 <= i < WORD_LENGTH,
    ensures
        !(spec_score_row(secret, guess)[i] is Unset),
        spec_score_row(secret, guess)[i] is Correct <==> guess[i] == secret[i],
        spec_score_row(secret, guess)[i] is WrongPosition <==> (guess[i] != secret[i]
            && secret.contains(guess[i])),
        spec_score_row(secret, guess)[i] is NotIncluded <==> (guess[i] != secret[i]
            && !secret.contains(guess[i])),
{
}

/// Law: scoring a word against itself yields a fully matching row, so
/// guessing the exact secret always wins immediately.
pub proof fn lemma_self_score_matches(w: Seq<char>)
    requires
        w.len() == WORD_LENGTH,
    ensures
        spec_row_matches(spec_score_row(w, w)),
{
}

/// Law: each played feedback kind maps to its own fixed pictorial token,
/// independent of the letter it carries, and the tokens of the three
/// played kinds are pairwise distinct. The mapping is deliberately lossy
/// beyond that: an unplayed position shares the `NotIncluded` token.
pub proof fn lemma_emoji_tokens(c: char, d: char)
    ensures
        Guess::Correct(c).spec_emoji() == Guess::Correct(d).spec_emoji(),
        Guess::WrongPosition(c).spec_emoji() == Guess::WrongPosition(d).spec_emoji(),
        Guess::NotIncluded(c).spec_emoji() == Guess::NotIncluded(d).spec_emoji(),
        Guess::Correct(c).spec_emoji() != Guess::WrongPosition(d).spec_emoji(),
        Guess::Correct(c).spec_emoji() != Guess::NotIncluded(d).spec_emoji(),
        Guess::WrongPosition(c).spec_emoji() != Guess::NotIncluded(d).spec_emoji(),
        Guess::Unset.spec_emoji() == Guess::NotIncluded(c).spec_emoji(),
{
    reveal_strlit(":green_square:");
    reveal_strlit(":orange_square:");
    reveal_strlit(":black_large_square:");
    assert(":green_square:"@.len() == 14);
    assert(":orange_square:"@.len() == 15);
    assert(":black_large_square:"@.len() == 20);
}

impl Default for WordGuess {
    /// The default row is a fresh, unplayed one.
    fn default() -> (r: Self)
        ensures
            r@.len() == WORD_LENGTH,
            spec_row_unset(r@),
    {
        Self::new()
    }
}

} // verus!

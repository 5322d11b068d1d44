use crate::guesses::spec_emoji_row;
use crate::guesses::Guess;
use crate::guesses::spec_render_row_ansi;
use crate::guesses::spec_row_matches;
use crate::guesses::spec_row_unset;
use crate::guesses::spec_score_row;
use crate::guesses::WordGuess;
use crate::push_char;
use crate::render_ansi_newline;
use crate::Word;
use crate::NUM_GUESSES;
use crate::WORD_LENGTH;
use vstd::prelude::*;
use vstd::string::StringExecFns;

verus! {

/// The lifecycle state of a board. `Playing` is the only state in which
/// a guess may be submitted; `Won` and `Lost` are terminal.
#[derive(Debug, PartialEq, Eq, Clone, Copy, Structural)]
pub enum State {
    Won,
    Lost,
    Playing,
}

/// The state a board moves to after a guess: a matching row wins at once,
/// a miss on the last row loses, and any other miss keeps the game going.
pub open spec fn spec_next_state(cursor: int, matched: bool) -> State {
    if matched {
        State::Won
    } else if cursor == NUM_GUESSES - 1 {
        State::Lost
    } else {
        State::Playing
    }
}

/// Where the cursor stands after a guess: it advances only while the game
/// stays in play, so a winning or losing row is never left behind.
pub open spec fn spec_next_cursor(cursor: int, matched: bool) -> int {
    if !matched && cursor < NUM_GUESSES - 1 {
        cursor + 1
    } else {
        cursor
    }
}

/// The terminal form of a board: every row's rendering, each followed by
/// the color-reset escape and a line break.
pub open spec fn spec_render_board_ansi(rows: Seq<WordGuess>) -> Seq<char>
    decreases rows.len(),
{
    if rows.len() == 0 {
        Seq::empty()
    } else {
        spec_render_board_ansi(rows.drop_last()) + spec_render_row_ansi(rows.last()@)
            + "\u{001b}[0m\n"@
    }
}

/// The pictorial lines of a score summary: each played row's tokens
/// followed by a line break; unplayed rows leave no trace.
pub open spec fn spec_emoji_lines(rows: Seq<WordGuess>) -> Seq<char>
    decreases rows.len(),
{
    if rows.len() == 0 {
        Seq::empty()
    } else {
        spec_emoji_lines(rows.drop_last()) + (if spec_row_unset(rows.last()@) {
            Seq::<char>::empty()
        } else {
            spec_emoji_row(rows.last()@) + "\n"@
        })
    }
}

/// How many rows of the board have been played.
pub open spec fn spec_played_count(rows: Seq<WordGuess>) -> int
    decreases rows.len(),
{
    if rows.len() == 0 {
        0
    } else {
        spec_played_count(rows.drop_last()) + (if spec_row_unset(rows.last()@) {
            0int
        } else {
            1int
        })
    }
}

/// The decimal digit for a played-row count, which never exceeds the
/// number of rows of a board.
pub open spec fn spec_digit_char(n: int) -> char {
    if n == 0 {
        '0'
    } else if n == 1 {
        '1'
    } else if n == 2 {
        '2'
    } else if n == 3 {
        '3'
    } else if n == 4 {
        '4'
    } else if n == 5 {
        '5'
    } else {
        '6'
    }
}

/// The full score summary: the played rows' pictorial lines, then a footer
/// giving the played-row count out of the board's capacity.
pub open spec fn spec_score_summary(rows: Seq<WordGuess>) -> Seq<char> {
    spec_emoji_lines(rows) + seq![spec_digit_char(spec_played_count(rows))] + " / 6"@
}

/// One game of the fixed secret word: a fixed-capacity sequence of guess
/// rows, a cursor for the next free row, and the current lifecycle state.
pub struct Board {
    word_guesses: [WordGuess; NUM_GUESSES],
    state: State,
    correct_word: Word,
    cursor: usize,
}

impl Board {
    /// The rows of the board, in play order, including unplayed rows.
    pub closed spec fn spec_rows(&self) -> Seq<WordGuess> {
        self.word_guesses@
    }

    /// The current lifecycle state.
    pub closed spec fn spec_state(&self) -> State {
        self.state
    }

    /// The secret word this board scores guesses against.
    pub closed spec fn spec_word(&self) -> Word {
        self.correct_word
    }

    /// The index of the row the next guess is written to.
    pub closed spec fn spec_cursor(&self) -> int {
        self.cursor as int
    }

    /// Internal consistency of a board: the board has its fixed number of
    /// rows, the cursor stays on them, every row is full width, rows before
    /// the cursor have been played and are never rewritten, rows past the
    /// cursor are unplayed, and the cursor's own row is unplayed exactly as
    /// long as the game is in play.
    pub closed spec fn wf(&self) -> bool {
        &&& self.spec_rows().len() == NUM_GUESSES
        &&& 0 <= self.spec_cursor() < NUM_GUESSES
        &&& forall|i: int|
            0 <= i < NUM_GUESSES ==> (#[trigger] self.spec_rows()[i])@.len() == WORD_LENGTH
        &&& forall|i: int|
            0 <= i < self.spec_cursor() ==> !spec_row_unset((#[trigger] self.spec_rows()[i])@)
        &&& forall|i: int|
            self.spec_cursor() < i < NUM_GUESSES ==> spec_row_unset(
                (#[trigger] self.spec_rows()[i])@,
            )
        &&& self.spec_state() is Playing ==> spec_row_unset(
            self.spec_rows()[self.spec_cursor()]@,
        )
        &&& !(self.spec_state() is Playing) ==> !spec_row_unset(
            self.spec_rows()[self.spec_cursor()]@,
        )
    }

    /// A fresh board for the given secret word: all rows unplayed, the
    /// cursor on the first row, and the game in play.
    pub fn new(correct_word: Word) -> (r: Self)
        ensures
            r.wf(),
            r.spec_state() == State::Playing,
            r.spec_cursor() == 0,
            r.spec_word() == correct_word,
            r.spec_rows().len() == NUM_GUESSES,
            forall|i: int|
                0 <= i < NUM_GUESSES ==> spec_row_unset((#[trigger] r.spec_rows()[i])@),
    {
        Self {
            word_guesses: [WordGuess::new(); NUM_GUESSES],
            state: State::Playing,
            correct_word,
            cursor: 0,
        }
    }

    /// Scores `word` against the secret, writes the row at the cursor, and
    /// moves to the next state: `Won` on a full match with the cursor kept
    /// on the winning row, `Lost` on a miss in the last row, and `Playing`
    /// with the cursor advanced otherwise. May only be called while the
    /// game is in play.
    pub fn guess(&mut self, word: &Word) -> (r: State)
        requires
            old(self).wf(),
            old(self).spec_state() == State::Playing,
        ensures
            final(self).wf(),
            final(self).spec_word() == old(self).spec_word(),
            final(self).spec_rows().len() == old(self).spec_rows().len(),
            final(self).spec_rows()[old(self).spec_cursor()]@ == spec_score_row(
                old(self).spec_word()@,
                word@,
            ),
            forall|i: int|
                0 <= i < NUM_GUESSES && i != old(self).spec_cursor()
                    ==> final(self).spec_rows()[i] == old(self).spec_rows()[i],
            final(self).spec_state() == spec_next_state(
                old(self).spec_cursor(),
                spec_row_matches(spec_score_row(old(self).spec_word()@, word@)),
            ),
            final(self).spec_cursor() == spec_next_cursor(
                old(self).spec_cursor(),
                spec_row_matches(spec_score_row(old(self).spec_word()@, word@)),
            ),
            r == final(self).spec_state(),
    {
        let row = WordGuess::from_guess(&self.correct_word, word);
        proof {
            let sr = spec_score_row(self.spec_word()@, word@);
            assert(sr[0] != Guess::Unset);
            assert(!spec_row_unset(sr));
        }
        self.word_guesses[self.cursor] = row;

        self.state = if row.matches() {
            State::Won
        } else if self.cursor == NUM_GUESSES - 1 {
            State::Lost
        } else {
            self.cursor = self.cursor + 1;
            State::Playing
        };
        self.state
    }

    /// Renders the whole board for a terminal, one line per row, each
    /// closed by a color reset.
    pub fn render_ansi(&self) -> (r: String)
        ensures
            r@ == spec_render_board_ansi(self.spec_rows()),
    {
        let mut s = String::new();
        let mut i: usize = 0;
        while i < NUM_GUESSES
            invariant
                i <= NUM_GUESSES,
                self.spec_rows().len() == NUM_GUESSES,
                s@ == spec_render_board_ansi(self.spec_rows().subrange(0, i as int)),
            decreases NUM_GUESSES - i,
        {
            let line = self.word_guesses[i].render_ansi();
            s.append(line.as_str());
            s.append(render_ansi_newline());
            proof {
                let pre = self.spec_rows().subrange(0, i + 1);
                assert(pre.drop_last() =~= self.spec_rows().subrange(0, i as int));
                assert(pre.last() == self.spec_rows()[i as int]);
            }
            i += 1;
        }
        proof {
            assert(self.spec_rows().subrange(0, NUM_GUESSES as int) =~= self.spec_rows());
        }
        s
    }

    /// Renders the score summary a player shares: the played rows as
    /// pictorial tokens, then a footer counting them against the capacity.
    pub fn as_discord_emojis(&self) -> (r: String)
        ensures
            r@ == spec_score_summary(self.spec_rows()),
    {
        let mut s = String::new();
        let mut count: usize = 0;
        let mut i: usize = 0;
        while i < NUM_GUESSES
            invariant
                i <= NUM_GUESSES,
                count <= i,
                self.spec_rows().len() == NUM_GUESSES,
                s@ == spec_emoji_lines(self.spec_rows().subrange(0, i as int)),
                count == spec_played_count(self.spec_rows().subrange(0, i as int)),
            decreases NUM_GUESSES - i,
        {
            let row = self.word_guesses[i];
            if !row.unset() {
                let line = row.as_discord_emojis();
                s.append(line.as_str());
                s.append("\n");
                count += 1;
            }
            proof {
                let pre = self.spec_rows().subrange(0, i + 1);
                assert(pre.drop_last() =~= self.spec_rows().subrange(0, i as int));
                assert(pre.last() == self.spec_rows()[i as int]);
            }
            i += 1;
        }
        proof {
            assert(self.spec_rows().subrange(0, NUM_GUESSES as int) =~= self.spec_rows());
        }
        let digit: char = match count {
            0 => '0',
            1 => '1',
            2 => '2',
            3 => '3',
            4 => '4',
            5 => '5',
            _ => '6',
        };
        push_char(&mut s, digit);
        s.append(" / 6");
        s
    }

    /// The current lifecycle state.
    pub fn state(&self) -> (r: State)
        ensures
            r == self.spec_state(),
    {
        self.state
    }

    /// The secret word this board scores guesses against.
    pub fn correct_word(&self) -> (r: &Word)
        ensures
            *r == self.spec_word(),
    {
        &self.correct_word
    }

    /// Read-only view of the rows, in play order, including unplayed rows.
    pub fn rows(&self) -> (r: &[WordGuess; NUM_GUESSES])
        ensures
            r@ == self.spec_rows(),
    {
        &self.word_guesses
    }
}

/// The cursor of a fresh board after `k` non-matching guesses.
pub open spec fn spec_cursor_after_misses(k: nat) -> int
    decreases k,
{
    if k == 0 {
        0
    } else {
        spec_next_cursor(spec_cursor_after_misses((k - 1) as nat), false)
    }
}

/// Law: a winning guess moves the game to `Won` and leaves the cursor on
/// the row the winning guess was written to, whatever row that is.
pub proof fn lemma_winning_guess(cursor: int)
    ensures
        spec_next_state(cursor, true) == State::Won,
        spec_next_cursor(cursor, true) == cursor,
{
}

/// Law: on a fresh board, each of the first capacity minus one
/// non-matching guesses leaves the game in play with the cursor advanced
/// to the next row, and the capacity-th non-matching guess loses the game.
pub proof fn lemma_losing_run(k: nat)
    requires
        1 <= k <= NUM_GUESSES,
    ensures
        spec_cursor_after_misses((k - 1) as nat) == k - 1,
        spec_next_state(spec_cursor_after_misses((k - 1) as nat), false) == (if k < NUM_GUESSES {
            State::Playing
        } else {
            State::Lost
        }),
        k < NUM_GUESSES ==> spec_cursor_after_misses(k) == k,
    decreases k,
{
    if k > 1 {
        lemma_losing_run((k - 1) as nat);
    }
}

} // verus!

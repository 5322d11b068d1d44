use crate::parse_word_err;
use crate::push_char;
use crate::spec_word_err_text;
use crate::Word;
use crate::WordLengthError;
use crate::WORD_LENGTH;
use vstd::prelude::*;
use vstd::string::StrSliceExecFns;

verus! {

/// The whitespace characters trimmed from the ends of a word-list line:
/// the characters with the Unicode White_Space property.
pub open spec fn spec_is_ws(c: char) -> bool {
    ||| c == '\u{9}'
    ||| c == '\u{a}'
    ||| c == '\u{b}'
    ||| c == '\u{c}'
    ||| c == '\u{d}'
    ||| c == ' '
    ||| c == '\u{85}'
    ||| c == '\u{a0}'
    ||| c == '\u{1680}'
    ||| c == '\u{2000}'
    ||| c == '\u{2001}'
    ||| c == '\u{2002}'
    ||| c == '\u{2003}'
    ||| c == '\u{2004}'
    ||| c == '\u{2005}'
    ||| c == '\u{2006}'
    ||| c == '\u{2007}'
    ||| c == '\u{2008}'
    ||| c == '\u{2009}'
    ||| c == '\u{200a}'
    ||| c == '\u{2028}'
    ||| c == '\u{2029}'
    ||| c == '\u{202f}'
    ||| c == '\u{205f}'
    ||| c == '\u{3000}'
}

fn is_ws(c: char) -> (r: bool)
    ensures
        r == spec_is_ws(c),
{
    match c {
        '\u{9}' | '\u{a}' | '\u{b}' | '\u{c}' | '\u{d}' | ' ' | '\u{85}' | '\u{a0}'
            | '\u{1680}' | '\u{2000}' | '\u{2001}' | '\u{2002}' | '\u{2003}' | '\u{2004}'
            | '\u{2005}' | '\u{2006}' | '\u{2007}' | '\u{2008}' | '\u{2009}' | '\u{200a}'
            | '\u{2028}' | '\u{2029}' | '\u{202f}' | '\u{205f}' | '\u{3000}' => true,
        _ => false,
    }
}

/// A line with its surrounding whitespace removed.
pub open spec fn spec_trim(s: Seq<char>) -> Seq<char>
    decreases s.len(),
{
    if s.len() == 0 {
        s
    } else if spec_is_ws(s[0]) {
        spec_trim(s.drop_first())
    } else if spec_is_ws(s.last()) {
        spec_trim(s.drop_last())
    } else {
        s
    }
}

/// The characters of a string, in order.
pub(crate) fn str_chars(s: &str) -> (r: Vec<char>)
    ensures
        r@ == s@,
{
    let n = s.unicode_len();
    let mut out: Vec<char> = Vec::new();
    let mut i: usize = 0;
    while i < n
        invariant
            i <= n,
            n == s@.len(),
            out@ == s@.subrange(0, i as int),
        decreases n - i,
    {
        out.push(s.get_char(i));
        proof {
            assert(s@.subrange(0, i + 1) =~= s@.subrange(0, i as int).push(s@[i as int]));
        }
        i += 1;
    }
    proof {
        assert(s@.subrange(0, n as int) =~= s@);
    }
    out
}

/// Copies `line` with surrounding whitespace removed.
pub(crate) fn trim_chars(line: &Vec<char>) -> (r: Vec<char>)
    ensures
        r@ == spec_trim(line@),
{
    let mut lo: usize = 0;
    let mut hi: usize = line.len();
    proof {
        assert(line@.subrange(0, line@.len() as int) =~= line@);
    }
    loop
        invariant
            lo <= hi <= line@.len(),
            spec_trim(line@) == spec_trim(line@.subrange(lo as int, hi as int)),
        ensures
            lo <= hi <= line@.len(),
            spec_trim(line@) == line@.subrange(lo as int, hi as int),
        decreases hi - lo,
    {
        if lo < hi && is_ws(line[lo]) {
            proof {
                let sub = line@.subrange(lo as int, hi as int);
                assert(sub.drop_first() =~= line@.subrange(lo as int + 1, hi as int));
            }
            lo += 1;
        } else if lo < hi && is_ws(line[hi - 1]) {
            proof {
                let sub = line@.subrange(lo as int, hi as int);
                assert(sub.last() == line@[hi - 1]);
                assert(sub.drop_last() =~= line@.subrange(lo as int, hi as int - 1));
            }
            hi -= 1;
        } else {
            break ;
        }
    }
    let mut out: Vec<char> = Vec::new();
    let mut i: usize = lo;
    while i < hi
        invariant
            lo <= i <= hi <= line@.len(),
            out@ == line@.subrange(lo as int, i as int),
        decreases hi - i,
    {
        out.push(line[i]);
        proof {
            assert(line@.subrange(lo as int, i + 1) =~= line@.subrange(lo as int, i as int).push(
                line@[i as int],
            ));
        }
        i += 1;
    }
    out
}

/// What the trimmed line contributes to a word list: nothing when it is
/// empty, otherwise the one trimmed word.
pub open spec fn spec_finish_line(line: Seq<char>) -> Seq<Seq<char>> {
    if spec_trim(line).len() == 0 {
        Seq::empty()
    } else {
        seq![spec_trim(line)]
    }
}

/// The words contributed by the rest of a raw list: `text` still to be
/// read, after an open line that already holds `line`. Lines end at each
/// line break; every line is trimmed and empty lines are dropped.
pub open spec fn spec_collect_words(text: Seq<char>, line: Seq<char>) -> Seq<Seq<char>>
    decreases text.len(),
{
    if text.len() == 0 {
        spec_finish_line(line)
    } else if text[0] == '\n' {
        spec_finish_line(line) + spec_collect_words(text.drop_first(), Seq::empty())
    } else {
        spec_collect_words(text.drop_first(), line.push(text[0]))
    }
}

/// The words of a raw word list: one per non-empty line, trimmed of
/// surrounding whitespace, in order of appearance.
pub open spec fn spec_words_of(text: Seq<char>) -> Seq<Seq<char>> {
    spec_collect_words(text, Seq::empty())
}

/// Whether every word of a raw list has exactly the fixed length.
pub open spec fn spec_all_words_fit(text: Seq<char>) -> bool {
    forall|i: int|
        0 <= i < spec_words_of(text).len() ==> (#[trigger] spec_words_of(text)[i]).len()
            == WORD_LENGTH
}

/// Whether a raw line is offending: its trimmed form is neither empty nor
/// a word of the fixed length.
pub open spec fn spec_line_misfits(line: Seq<char>) -> bool {
    spec_trim(line).len() != 0 && spec_trim(line).len() != WORD_LENGTH
}

/// The first offending line of the rest of a raw list: `text` still to be
/// read, after an open line that already holds `line`.
pub open spec fn spec_bad_line_from(text: Seq<char>, line: Seq<char>) -> Seq<char>
    decreases text.len(),
{
    if text.len() == 0 {
        line
    } else if text[0] == '\n' {
        if spec_line_misfits(line) {
            line
        } else {
            spec_bad_line_from(text.drop_first(), Seq::empty())
        }
    } else {
        spec_bad_line_from(text.drop_first(), line.push(text[0]))
    }
}

/// The first line of a raw word list whose trimmed length is neither zero
/// nor the fixed word length: the line a failed parse reports.
pub open spec fn spec_first_bad_line(text: Seq<char>) -> Seq<char> {
    spec_bad_line_from(text, Seq::empty())
}

/// The characters of `v` as a string.
fn chars_to_string(v: &Vec<char>) -> (r: String)
    ensures
        r@ == v@,
{
    let mut s = String::new();
    let mut i: usize = 0;
    while i < v.len()
        invariant
            i <= v@.len(),
            s@ == v@.subrange(0, i as int),
        decreases v@.len() - i,
    {
        push_char(&mut s, v[i]);
        proof {
            assert(v@.subrange(0, i + 1) =~= v@.subrange(0, i as int).push(v@[i as int]));
        }
        i += 1;
    }
    proof {
        assert(v@.subrange(0, v@.len() as int) =~= v@);
    }
    s
}

/// Closes the current line: an empty trimmed line contributes nothing; a
/// trimmed word of the fixed length is appended to `out`; any other
/// length is refused.
fn finish_line(out: &mut Vec<Word>, line: &Vec<char>) -> (r: Result<(), ()>)
    ensures
        r is Ok <==> (spec_trim(line@).len() == 0 || spec_trim(line@).len() == WORD_LENGTH),
        r is Ok ==> final(out).deep_view() == old(out).deep_view() + spec_finish_line(line@),
        r is Err ==> *final(out) == *old(out),
{
    let t = trim_chars(line);
    if t.len() == 0 {
        proof {
            assert(out.deep_view() =~~= out.deep_view() + spec_finish_line(line@));
        }
        Ok(())
    } else if t.len() == WORD_LENGTH {
        let w: Word = [t[0], t[1], t[2], t[3], t[4]];
        let ghost pre = out.deep_view();
        proof {
            assert(w.deep_view() =~= t@);
        }
        out.push(w);
        proof {
            assert(out.deep_view() =~~= pre + spec_finish_line(line@));
        }
        Ok(())
    } else {
        Err(())
    }
}

/// Parses a raw word list: one word per non-empty line, each trimmed of
/// surrounding whitespace. Fails when any word does not have exactly the
/// fixed length; the error carries the first offending line, truncated
/// for display.
pub fn str_to_words(words: &str) -> (r: Result<Vec<Word>, WordLengthError>)
    ensures
        r is Ok <==> spec_all_words_fit(words@),
        r is Ok ==> (r->Ok_0).deep_view() == spec_words_of(words@),
        r is Err ==> spec_line_misfits(spec_first_bad_line(words@)),
        r is Err ==> (r->Err_0).text@ == spec_word_err_text(spec_first_bad_line(words@)),
{
    let cs = str_chars(words);
    let mut out: Vec<Word> = Vec::new();
    let mut line: Vec<char> = Vec::new();
    let mut i: usize = 0;
    proof {
        assert(cs@.subrange(0, cs@.len() as int) =~= cs@);
        assert(line@ =~= Seq::<char>::empty());
        assert(out.deep_view() + spec_collect_words(cs@, line@) =~~= spec_collect_words(
            words@,
            Seq::<char>::empty(),
        ));
    }
    while i < cs.len()
        invariant
            i <= cs@.len(),
            cs@ == words@,
            spec_words_of(words@) == out.deep_view() + spec_collect_words(
                cs@.subrange(i as int, cs@.len() as int),
                line@,
            ),
            spec_first_bad_line(words@) == spec_bad_line_from(
                cs@.subrange(i as int, cs@.len() as int),
                line@,
            ),
        decreases cs@.len() - i,
    {
        let ghost rest = cs@.subrange(i as int, cs@.len() as int);
        proof {
            assert(rest.drop_first() =~= cs@.subrange(i + 1, cs@.len() as int));
        }
        let c = cs[i];
        if c == '\n' {
            let ghost pre = out.deep_view();
            let ghost lpre = line@;
            if finish_line(&mut out, &line).is_err() {
                proof {
                    let k = pre.len() as int;
                    assert(spec_words_of(words@)[k] == spec_trim(lpre));
                    assert(!spec_all_words_fit(words@));
                    assert(spec_first_bad_line(words@) == lpre);
                }
                let bad = chars_to_string(&line);
                return Err(parse_word_err(bad.as_str()));
            }
            line.clear();
            proof {
                let tail = spec_collect_words(rest.drop_first(), Seq::<char>::empty());
                assert(pre + (spec_finish_line(lpre) + tail) =~~= (pre + spec_finish_line(lpre))
                    + tail);
            }
        } else {
            line.push(c);
        }
        i += 1;
    }
    proof {
        assert(cs@.subrange(cs@.len() as int, cs@.len() as int) =~= Seq::<char>::empty());
    }
    let ghost pre = out.deep_view();
    if finish_line(&mut out, &line).is_err() {
        proof {
            let k = pre.len() as int;
            assert(spec_words_of(words@)[k] == spec_trim(line@));
            assert(!spec_all_words_fit(words@));
            assert(spec_first_bad_line(words@) == line@);
        }
        let bad = chars_to_string(&line);
        return Err(parse_word_err(bad.as_str()));
    }
    proof {
        assert(out.deep_view() =~~= spec_words_of(words@));
        assert forall|k: int|
            0 <= k < spec_words_of(words@).len() implies (#[trigger] spec_words_of(
            words@,
        )[k]).len() == WORD_LENGTH by {
            assert(spec_words_of(words@)[k] == out@[k].deep_view());
            assert(out@[k]@.len() == WORD_LENGTH);
        };
    }
    Ok(out)
}

/// Whether two words hold the same letters in the same order.
fn words_equal(a: &Word, b: &Word) -> (r: bool)
    ensures
        r == (a@ == b@),
{
    let mut i: usize = 0;
    while i < WORD_LENGTH
        invariant
            i <= WORD_LENGTH,
            forall|j: int| 0 <= j < i ==> a@[j] == b@[j],
        decreases WORD_LENGTH - i,
    {
        if a[i] != b[i] {
            assert(a@ != b@) by {
                assert(a@[i as int] != b@[i as int]);
            }
            return false;
        }
        i += 1;
    }
    proof {
        assert(a@ =~= b@);
    }
    true
}

/// The word lists of the game: the ordered daily secret words, and the
/// words accepted as guesses. Every daily secret word is itself an
/// acceptable guess.
#[derive(Debug)]
pub struct WordBank {
    day_words: Vec<Word>,
    guesses: Vec<Word>,
}

impl WordBank {
    /// The daily secret words, one per day index, in order.
    pub closed spec fn spec_day_words(&self) -> Seq<Seq<char>> {
        self.day_words.deep_view()
    }

    /// The accepted guess words: the guess list followed by the day list.
    pub closed spec fn spec_guesses(&self) -> Seq<Seq<char>> {
        self.guesses.deep_view()
    }

    /// Builds a bank from two raw word lists. The accepted guesses are the
    /// union of the guess list and the day list, so every past and future
    /// daily answer is always itself acceptable. Any line whose trimmed
    /// length differs from the fixed word length aborts the whole build,
    /// with an error carrying that line, truncated for display.
    pub fn from_raw(day_words: &str, guesses: &str) -> (r: Result<Self, WordLengthError>)
        ensures
            r is Ok <==> spec_all_words_fit(day_words@) && spec_all_words_fit(guesses@),
            r is Ok ==> (r->Ok_0).spec_day_words() == spec_words_of(day_words@),
            r is Ok ==> (r->Ok_0).spec_guesses() == spec_words_of(guesses@) + spec_words_of(
                day_words@,
            ),
            r is Err && !spec_all_words_fit(day_words@) ==> (r->Err_0).text@ == spec_word_err_text(
                spec_first_bad_line(day_words@),
            ),
            r is Err && spec_all_words_fit(day_words@) ==> (r->Err_0).text@ == spec_word_err_text(
                spec_first_bad_line(guesses@),
            ),
    {
        let day_vec = match str_to_words(day_words) {
            Ok(v) => v,
            Err(e) => {
                return Err(e);
            },
        };
        let mut all = match str_to_words(guesses) {
            Ok(v) => v,
            Err(e) => {
                return Err(e);
            },
        };
        let ghost gpre = all.deep_view();
        let mut i: usize = 0;
        while i < day_vec.len()
            invariant
                i <= day_vec@.len(),
                all.deep_view() == gpre + day_vec.deep_view().subrange(0, i as int),
            decreases day_vec@.len() - i,
        {
            let ghost apre = all.deep_view();
            all.push(day_vec[i]);
            proof {
                assert(all.deep_view() =~~= apre.push(day_vec@[i as int].deep_view()));
                assert(day_vec.deep_view().subrange(0, i + 1) =~= day_vec.deep_view().subrange(
                    0,
                    i as int,
                ).push(day_vec@[i as int].deep_view()));
                assert(all.deep_view() =~~= gpre + day_vec.deep_view().subrange(0, i + 1));
            }
            i += 1;
        }
        proof {
            assert(day_vec.deep_view().subrange(0, day_vec.deep_view().len() as int)
                =~= day_vec.deep_view());
        }
        Ok(Self { day_words: day_vec, guesses: all })
    }

    /// The secret word for the given 0-based day offset, or nothing when
    /// the offset runs past the end of the list.
    pub fn get_word(&self, index: usize) -> (r: Option<&Word>)
        ensures
            r is Some <==> index < self.spec_day_words().len(),
            r is Some ==> (r->0)@ == self.spec_day_words()[index as int],
    {
        if index < self.day_words.len() {
            Some(&self.day_words[index])
        } else {
            None
        }
    }

    /// Whether `guess` is an acceptable word: exact membership in the
    /// accepted guess list.
    pub fn is_valid_guess(&self, guess: &Word) -> (r: bool)
        ensures
            r == self.spec_guesses().contains(guess@),
    {
        let mut i: usize = 0;
        while i < self.guesses.len()
            invariant
                i <= self.guesses@.len(),
                forall|j: int| 0 <= j < i ==> self.spec_guesses()[j] != guess@,
            decreases self.guesses@.len() - i,
        {
            let eq = words_equal(&self.guesses[i], guess);
            proof {
                assert(self.guesses@[i as int].deep_view() =~= self.guesses@[i as int]@);
            }
            if eq {
                assert(self.spec_guesses().contains(guess@)) by {
                    assert(self.spec_guesses()[i as int] == guess@);
                }
                return true;
            }
            i += 1;
        }
        proof {
            assert(!self.spec_guesses().contains(guess@));
        }
        false
    }
}

/// Law: a word is an acceptable guess of a bank built from two raw lists
/// exactly when it appears among the words of the guess list or among the
/// words of the day list.
pub proof fn lemma_acceptable_guess(
    bank: WordBank,
    day_words: Seq<char>,
    guesses: Seq<char>,
    w: Seq<char>,
)
    requires
        bank.spec_day_words() == spec_words_of(day_words),
        bank.spec_guesses() == spec_words_of(guesses) + spec_words_of(day_words),
    ensures
        bank.spec_guesses().contains(w) <==> (spec_words_of(guesses).contains(w) || spec_words_of(
            day_words,
        ).contains(w)),
{
    let a = spec_words_of(guesses);
    let b = spec_words_of(day_words);
    if (a + b).contains(w) {
        let i = choose|i: int| 0 <= i < (a + b).len() && (a + b)[i] == w;
        if i < a.len() {
            assert(a[i] == w);
        } else {
            assert(b[i - a.len()] == w);
        }
    }
    if a.contains(w) {
        let i = choose|i: int| 0 <= i < a.len() && a[i] == w;
        assert((a + b)[i] == w);
    }
    if b.contains(w) {
        let i = choose|i: int| 0 <= i < b.len() && b[i] == w;
        assert((a + b)[a.len() + i] == w);
    }
}

} // verus!

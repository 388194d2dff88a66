//! The word lists: which guesses are accepted, and random draws of
//! solutions and game identifiers.

use vstd::prelude::*;
use rand::seq::IndexedRandom;
use crate::board::GameId;
use crate::text::{chars_of, lines_of, push_char, split_lines, trim_line, trimmed_of, upper_of, uppercase};

verus! {

/// Number of letters in a game identifier.
pub const GAME_ID_LEN: usize = 5;

/// Relies on rand's `IndexedRandom::choose` with the thread-local generator
/// (`rand::rng`): `None` exactly for an empty slice, otherwise a reference to
/// one of its elements.
#[verifier::external_body]
fn choose_one<T>(items: &[T]) -> (r: Option<&T>)
    ensures
        r is None <==> items@.len() == 0,
        r is Some ==> items@.contains(*r->0),
{
    items.choose(&mut rand::rng())
}

/// The words of a list: each line trimmed and upper-cased, blank lines
/// skipped; the first `n` lines are taken.
pub open spec fn words_of(lines: Seq<Seq<char>>, n: int) -> Seq<Seq<char>>
    decreases n,
{
    if n <= 0 {
        Seq::empty()
    } else {
        let word = upper_of(trimmed_of(lines[n - 1]));
        if word.len() > 0 {
            words_of(lines, n - 1).push(word)
        } else {
            words_of(lines, n - 1)
        }
    }
}

/// The words of a list text, one per line.
pub open spec fn word_list(text: Seq<char>) -> Seq<Seq<char>> {
    words_of(lines_of(text), lines_of(text).len() as int)
}

/// Reads a word list: one word per line, surrounding whitespace ignored,
/// blank lines skipped, every word upper-cased.
pub fn parse_word_list(text: &str) -> (r: Vec<String>)
    ensures
        r@.map_values(|w: String| w@) == word_list(text@),
{
    let lines = split_lines(text);
    let ghost all = lines_of(text@);
    let mut words: Vec<String> = Vec::new();
    let mut i: usize = 0;
    while i < lines.len()
        invariant
            lines@.len() == all.len(),
            forall|k: int| 0 <= k < lines@.len() ==> #[trigger] lines@[k]@ == all[k],
            i <= lines@.len(),
            words@.map_values(|w: String| w@) == words_of(all, i as int),
        decreases lines@.len() - i,
    {
        let word = uppercase(trim_line(lines[i]));
        assert(lines@[i as int]@ == all[i as int]);
        if word.unicode_len() > 0 {
            let ghost before = words@;
            words.push(word);
            assert(words@.map_values(|w: String| w@) =~= before.map_values(|w: String| w@).push(
                upper_of(trimmed_of(all[i as int])),
            ));
        }
        i = i + 1;
    }
    words
}

/// Whether `words` holds `w`, compared by characters.
fn contains_word(words: &Vec<String>, w: &String) -> (r: bool)
    ensures
        r == words@.map_values(|x: String| x@).contains(w@),
{
    let ghost view = words@.map_values(|x: String| x@);
    let mut i: usize = 0;
    while i < words.len()
        invariant
            view == words@.map_values(|x: String| x@),
            i <= words@.len(),
            forall|k: int| 0 <= k < i ==> view[k] != w@,
        decreases words@.len() - i,
    {
        if words[i] == *w {
            assert(view[i as int] == w@);
            return true;
        }
        i = i + 1;
    }
    false
}

/// The accepted guesses and the possible solutions, both upper-case.
pub struct Dictionary {
    guess_words: Vec<String>,
    solution_words: Vec<String>,
}

/// Mathematical value of a [`Dictionary`].
pub struct DictionaryView {
    pub guesses: Seq<Seq<char>>,
    pub solutions: Seq<Seq<char>>,
}

impl View for Dictionary {
    type V = DictionaryView;

    closed spec fn view(&self) -> DictionaryView {
        DictionaryView {
            guesses: self.guess_words@.map_values(|w: String| w@),
            solutions: self.solution_words@.map_values(|w: String| w@),
        }
    }
}

impl Dictionary {
    /// A solution can always be drawn.
    #[verifier::type_invariant]
    spec fn has_solutions(&self) -> bool {
        self.solution_words@.len() > 0
    }

    /// Whether `word`, compared without regard to case, is an accepted guess
    /// or a possible solution.
    pub open spec fn accepts(&self, word: Seq<char>) -> bool {
        self@.guesses.contains(upper_of(word)) || self@.solutions.contains(upper_of(word))
    }

    /// Builds the dictionary from the text of the accepted-guess list and of
    /// the solution list; `None` when the solution list holds no word.
    pub fn from_word_lists(guess_text: &str, solution_text: &str) -> (r: Option<Self>)
        ensures
            r is None <==> word_list(solution_text@).len() == 0,
            r is Some ==> r->0@.guesses == word_list(guess_text@) && r->0@.solutions == word_list(
                solution_text@,
            ),
    {
        let guess_words = parse_word_list(guess_text);
        let solution_words = parse_word_list(solution_text);
        if solution_words.len() == 0 {
            None
        } else {
            Some(Dictionary { guess_words, solution_words })
        }
    }

    /// The accepted guesses, upper-case.
    pub fn guess_words(&self) -> (r: &Vec<String>)
        ensures
            r@.map_values(|w: String| w@) == self@.guesses,
    {
        &self.guess_words
    }

    /// The possible solutions, upper-case.
    pub fn solution_words(&self) -> (r: &Vec<String>)
        ensures
            r@.map_values(|w: String| w@) == self@.solutions,
    {
        &self.solution_words
    }

    /// Whether `guess` is accepted, compared without regard to case.
    pub fn valid_guess(&self, guess: &str) -> (r: bool)
        ensures
            r == self.accepts(guess@),
    {
        let upper = uppercase(guess);
        contains_word(&self.guess_words, &upper) || contains_word(&self.solution_words, &upper)
    }

    /// A solution drawn at random from the solution list.
    pub fn random_solution(&self) -> (r: String)
        ensures
            self@.solutions.contains(r@),
    {
        proof {
            use_type_invariant(self);
        }
        let picked = choose_one(self.solution_words.as_slice());
        match picked {
            Some(word) => {
                let ghost k = choose|k: int|
                    0 <= k < self.solution_words@.len() && self.solution_words@[k] == *word;
                assert(self@.solutions[k] == word@);
                word.clone()
            },
            None => {
                proof {
                    assert(false);
                }
                String::new()
            },
        }
    }
}

/// A game identifier of [`GAME_ID_LEN`] capital letters drawn at random.
pub fn random_game_id() -> (r: GameId)
    ensures
        r@.len() == GAME_ID_LEN,
        forall|i: int| 0 <= i < r@.len() ==> 'A' <= #[trigger] r@[i] <= 'Z',
{
    let letters = chars_of("ABCDEFGHIJKLMNOPQRSTUVWXYZ");
    proof {
        reveal_strlit("ABCDEFGHIJKLMNOPQRSTUVWXYZ");
    }
    assert(forall|k: int| 0 <= k < letters@.len() ==> 'A' <= #[trigger] letters@[k] <= 'Z');
    let mut id = String::new();
    let mut i: usize = 0;
    while i < GAME_ID_LEN
        invariant
            letters@.len() == 26,
            forall|k: int| 0 <= k < letters@.len() ==> 'A' <= #[trigger] letters@[k] <= 'Z',
            i <= GAME_ID_LEN,
            id@.len() == i,
            forall|k: int| 0 <= k < id@.len() ==> 'A' <= #[trigger] id@[k] <= 'Z',
        decreases GAME_ID_LEN - i,
    {
        match choose_one(letters.as_slice()) {
            Some(c) => {
                push_char(&mut id, *c);
            },
            None => {
                proof {
                    assert(false);
                }
            },
        }
        i = i + 1;
    }
    id
}

} // verus!

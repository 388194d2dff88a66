//! Duplicate-aware letter scoring of a guess against the solution.

use vstd::prelude::*;

verus! {

/// How much one letter of a guess reveals; ordered Gray < Yellow < Green.
#[derive(Clone, Copy, Debug, PartialEq, Eq, Structural)]
pub enum GameColor {
    Gray,
    Yellow,
    Green,
}

impl GameColor {
    /// Position of the color in the informativeness order.
    pub open spec fn rank(self) -> int {
        match self {
            GameColor::Gray => 0,
            GameColor::Yellow => 1,
            GameColor::Green => 2,
        }
    }
}

/// Positions `k < n` where the guess holds `c` without matching the solution.
pub open spec fn misplaced_before(solution: Seq<char>, guess: Seq<char>, c: char, n: int) -> nat
    decreases n,
{
    if n <= 0 {
        0
    } else {
        misplaced_before(solution, guess, c, n - 1) + if guess[n - 1] == c && guess[n - 1]
            != solution[n - 1] {
            1nat
        } else {
            0nat
        }
    }
}

/// Positions `k < n` where the solution holds `c` and the guess does not match it.
pub open spec fn unmatched_before(solution: Seq<char>, guess: Seq<char>, c: char, n: int) -> nat
    decreases n,
{
    if n <= 0 {
        0
    } else {
        unmatched_before(solution, guess, c, n - 1) + if solution[n - 1] == c && guess[n - 1]
            != solution[n - 1] {
            1nat
        } else {
            0nat
        }
    }
}

/// Occurrences of `c` in the solution left over after exact matches.
pub open spec fn unmatched(solution: Seq<char>, guess: Seq<char>, c: char) -> nat {
    unmatched_before(solution, guess, c, solution.len() as int)
}

/// Color of position `j`: Green on an exact match; otherwise Yellow while the
/// misplaced copies of that letter seen so far do not exhaust the solution's
/// leftover copies of it; otherwise Gray.
pub open spec fn color_at(solution: Seq<char>, guess: Seq<char>, j: int) -> GameColor {
    if guess[j] == solution[j] {
        GameColor::Green
    } else if misplaced_before(solution, guess, guess[j], j) < unmatched(solution, guess, guess[j]) {
        GameColor::Yellow
    } else {
        GameColor::Gray
    }
}

/// The colors of a whole guess, one per letter.
pub open spec fn colors_of(solution: Seq<char>, guess: Seq<char>) -> Seq<GameColor> {
    Seq::new(guess.len(), |j: int| color_at(solution, guess, j))
}

/// Occurrences of `c` among the first `n` letters of `s`.
pub open spec fn occurrences(s: Seq<char>, c: char, n: int) -> nat
    decreases n,
{
    if n <= 0 {
        0
    } else {
        occurrences(s, c, n - 1) + if s[n - 1] == c {
            1nat
        } else {
            0nat
        }
    }
}

/// Positions `k < n` whose letter is `c` and whose color is not Gray.
pub open spec fn marked(colors: Seq<GameColor>, guess: Seq<char>, c: char, n: int) -> nat
    decreases n,
{
    if n <= 0 {
        0
    } else {
        marked(colors, guess, c, n - 1) + if guess[n - 1] == c && colors[n - 1]
            != GameColor::Gray {
            1nat
        } else {
            0nat
        }
    }
}

/// Solution positions `k < n` already taken by a misplaced letter `c`.
spec fn taken_before(used: Seq<bool>, solution: Seq<char>, guess: Seq<char>, c: char, n: int) -> nat
    decreases n,
{
    if n <= 0 {
        0
    } else {
        taken_before(used, solution, guess, c, n - 1) + if used[n - 1] && solution[n - 1] == c
            && guess[n - 1] != solution[n - 1] {
            1nat
        } else {
            0nat
        }
    }
}

/// Solution positions `k < n` holding `c` that are still free.
spec fn free_before(used: Seq<bool>, solution: Seq<char>, c: char, n: int) -> nat
    decreases n,
{
    if n <= 0 {
        0
    } else {
        free_before(used, solution, c, n - 1) + if !used[n - 1] && solution[n - 1] == c {
            1nat
        } else {
            0nat
        }
    }
}

proof fn lemma_free_plus_taken(used: Seq<bool>, solution: Seq<char>, guess: Seq<char>, c: char, n: int)
    requires
        0 <= n <= used.len(),
        used.len() == solution.len() == guess.len(),
        forall|k: int| 0 <= k < n && guess[k] == solution[k] ==> used[k],
    ensures
        free_before(used, solution, c, n) + taken_before(used, solution, guess, c, n)
            == unmatched_before(solution, guess, c, n),
    decreases n,
{
    if n > 0 {
        lemma_free_plus_taken(used, solution, guess, c, n - 1);
    }
}

proof fn lemma_none_free(used: Seq<bool>, solution: Seq<char>, c: char, n: int)
    requires
        0 <= n <= used.len(),
        used.len() == solution.len(),
        forall|k: int| 0 <= k < n ==> used[k] || solution[k] != c,
    ensures
        free_before(used, solution, c, n) == 0,
    decreases n,
{
    if n > 0 {
        lemma_none_free(used, solution, c, n - 1);
    }
}

proof fn lemma_some_free(used: Seq<bool>, solution: Seq<char>, c: char, q: int, n: int)
    requires
        0 <= q < n <= used.len(),
        used.len() == solution.len(),
        !used[q],
        solution[q] == c,
    ensures
        free_before(used, solution, c, n) >= 1,
    decreases n,
{
    if n - 1 > q {
        lemma_some_free(used, solution, c, q, n - 1);
    }
}

proof fn lemma_take(used: Seq<bool>, solution: Seq<char>, guess: Seq<char>, p: int, c: char, n: int)
    requires
        0 <= p < used.len(),
        0 <= n <= used.len(),
        used.len() == solution.len() == guess.len(),
        !used[p],
        guess[p] != solution[p],
    ensures
        taken_before(used.update(p, true), solution, guess, c, n) == taken_before(
            used,
            solution,
            guess,
            c,
            n,
        ) + if p < n && solution[p] == c {
            1nat
        } else {
            0nat
        },
    decreases n,
{
    if n > 0 {
        lemma_take(used, solution, guess, p, c, n - 1);
    }
}

proof fn lemma_nothing_taken(used: Seq<bool>, solution: Seq<char>, guess: Seq<char>, c: char, n: int)
    requires
        0 <= n <= used.len(),
        used.len() == solution.len() == guess.len(),
        forall|k: int| 0 <= k < n ==> used[k] == (guess[k] == solution[k]),
    ensures
        taken_before(used, solution, guess, c, n) == 0,
    decreases n,
{
    if n > 0 {
        lemma_nothing_taken(used, solution, guess, c, n - 1);
    }
}

/// Positions `k < n` where guess and solution both hold `c`.
spec fn exact_before(solution: Seq<char>, guess: Seq<char>, c: char, n: int) -> nat
    decreases n,
{
    if n <= 0 {
        0
    } else {
        exact_before(solution, guess, c, n - 1) + if solution[n - 1] == c && guess[n - 1]
            == solution[n - 1] {
            1nat
        } else {
            0nat
        }
    }
}

proof fn lemma_occurrences_split(solution: Seq<char>, guess: Seq<char>, c: char, n: int)
    requires
        0 <= n <= solution.len(),
        solution.len() == guess.len(),
    ensures
        occurrences(solution, c, n) == exact_before(solution, guess, c, n) + unmatched_before(
            solution,
            guess,
            c,
            n,
        ),
    decreases n,
{
    if n > 0 {
        lemma_occurrences_split(solution, guess, c, n - 1);
    }
}

proof fn lemma_marked_split(solution: Seq<char>, guess: Seq<char>, c: char, n: int)
    requires
        0 <= n <= solution.len(),
        solution.len() == guess.len(),
    ensures
        marked(colors_of(solution, guess), guess, c, n) == exact_before(solution, guess, c, n)
            + if misplaced_before(solution, guess, c, n) < unmatched(solution, guess, c) {
            misplaced_before(solution, guess, c, n)
        } else {
            unmatched(solution, guess, c)
        },
    decreases n,
{
    if n > 0 {
        lemma_marked_split(solution, guess, c, n - 1);
    }
}

/// Duplicate-letter soundness: however the letters repeat, the Green and
/// Yellow marks that a letter receives never outnumber its occurrences in the
/// solution.
pub proof fn lemma_marks_within_occurrences(solution: Seq<char>, guess: Seq<char>, c: char)
    requires
        solution.len() == guess.len(),
    ensures
        marked(colors_of(solution, guess), guess, c, guess.len() as int) <= occurrences(
            solution,
            c,
            solution.len() as int,
        ),
{
    lemma_marked_split(solution, guess, c, guess.len() as int);
    lemma_occurrences_split(solution, guess, c, solution.len() as int);
}

/// Scores `guess` against `solution` in two passes: exact matches first, then
/// each remaining guess letter takes the first still-free solution position
/// holding the same letter, if there is one.
pub fn score_guess(solution: &Vec<char>, guess: &Vec<char>) -> (colors: Vec<GameColor>)
    requires
        solution.len() == guess.len(),
    ensures
        colors@ == colors_of(solution@, guess@),
{
    let n = solution.len();
    let ghost s = solution@;
    let ghost g = guess@;
    let mut colors: Vec<GameColor> = Vec::new();
    let mut used: Vec<bool> = Vec::new();
    let mut i: usize = 0;
    while i < n
        invariant
            n == s.len() == g.len(),
            s == solution@,
            g == guess@,
            i <= n,
            colors@.len() == i,
            used@.len() == i,
            forall|k: int|
                0 <= k < i ==> colors@[k] == (if g[k] == s[k] {
                    GameColor::Green
                } else {
                    GameColor::Gray
                }),
            forall|k: int| 0 <= k < i ==> used@[k] == (g[k] == s[k]),
        decreases n - i,
    {
        if guess[i] == solution[i] {
            colors.push(GameColor::Green);
            used.push(true);
        } else {
            colors.push(GameColor::Gray);
            used.push(false);
        }
        i = i + 1;
    }
    assert forall|c: char| #[trigger] taken_before(used@, s, g, c, n as int) == 0 by {
        lemma_nothing_taken(used@, s, g, c, n as int);
    }
    let mut j: usize = 0;
    while j < n
        invariant
            n == s.len() == g.len(),
            s == solution@,
            g == guess@,
            j <= n,
            colors@.len() == n,
            used@.len() == n,
            forall|k: int| 0 <= k < j ==> colors@[k] == color_at(s, g, k),
            forall|k: int|
                j <= k < n ==> colors@[k] == (if g[k] == s[k] {
                    GameColor::Green
                } else {
                    GameColor::Gray
                }),
            forall|k: int| 0 <= k < n && g[k] == s[k] ==> used@[k],
            forall|c: char|
                #[trigger] taken_before(used@, s, g, c, n as int) == if misplaced_before(
                    s,
                    g,
                    c,
                    j as int,
                ) < unmatched(s, g, c) {
                    misplaced_before(s, g, c, j as int)
                } else {
                    unmatched(s, g, c)
                },
        decreases n - j,
    {
        let letter = guess[j];
        let ghost used0 = used@;
        if letter != solution[j] {
            // `q == n` while no free solution position with this letter is known
            let mut q: usize = n;
            let mut p: usize = 0;
            while p < n
                invariant
                    n == s.len() == used@.len(),
                    s == solution@,
                    p <= n,
                    q == n ==> forall|k: int| 0 <= k < p ==> used@[k] || s[k] != letter,
                    q != n ==> q < n && !used@[q as int] && s[q as int] == letter,
                decreases n - p,
            {
                if q == n && !used[p] && solution[p] == letter {
                    q = p;
                }
                p = p + 1;
            }
            proof {
                lemma_free_plus_taken(used0, s, g, letter, n as int);
            }
            if q != n {
                proof {
                    lemma_some_free(used0, s, letter, q as int, n as int);
                }
                used.set(q, true);
                colors.set(j, GameColor::Yellow);
                assert forall|c: char|
                    #[trigger] taken_before(used@, s, g, c, n as int) == taken_before(
                        used0,
                        s,
                        g,
                        c,
                        n as int,
                    ) + if s[q as int] == c {
                        1nat
                    } else {
                        0nat
                    } by {
                    lemma_take(used0, s, g, q as int, c, n as int);
                }
            } else {
                proof {
                    lemma_none_free(used0, s, letter, n as int);
                }
            }
        }
        assert(colors@[j as int] == color_at(s, g, j as int));
        assert forall|c: char|
            #[trigger] taken_before(used@, s, g, c, n as int) == if misplaced_before(
                s,
                g,
                c,
                j + 1,
            ) < unmatched(s, g, c) {
                misplaced_before(s, g, c, j + 1)
            } else {
                unmatched(s, g, c)
            } by {
            assert(misplaced_before(s, g, c, j + 1) == misplaced_before(s, g, c, j as int) + if g[j as int] == c
                && g[j as int] != s[j as int] {
                1nat
            } else {
                0nat
            });
            assert(taken_before(used0, s, g, c, n as int) == if misplaced_before(
                s,
                g,
                c,
                j as int,
            ) < unmatched(s, g, c) {
                misplaced_before(s, g, c, j as int)
            } else {
                unmatched(s, g, c)
            });
        }
        j = j + 1;
    }
    assert(colors@ =~= colors_of(s, g));
    colors
}

} // verus!

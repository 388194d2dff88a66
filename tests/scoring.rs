use wordle_game::{score_guess, Game, GameColor, GuessResult};
use GameColor::{Gray, Green, Yellow};

fn letters(s: &str) -> Vec<char> {
    s.chars().collect()
}

fn marks_for(word: &str, colors: &[GameColor], c: char) -> usize {
    word.chars().zip(colors.iter()).filter(|(l, col)| *l == c && **col != Gray).count()
}

#[test]
fn crane_against_trace() {
    let colors = score_guess(&letters("CRANE"), &letters("TRACE"));
    assert_eq!(colors, vec![Gray, Green, Green, Yellow, Green]);
}

#[test]
fn exact_word_is_all_green() {
    let colors = score_guess(&letters("CRANE"), &letters("CRANE"));
    assert_eq!(colors, vec![Green; 5]);
}

#[test]
fn no_common_letter_is_all_gray() {
    let colors = score_guess(&letters("CRANE"), &letters("BUMPY"));
    assert_eq!(colors, vec![Gray; 5]);
}

#[test]
fn repeated_letters_take_one_copy_each() {
    let colors = score_guess(&letters("APPLE"), &letters("PAPAL"));
    assert_eq!(colors, vec![Yellow, Yellow, Green, Gray, Yellow]);
}

#[test]
fn green_match_consumes_the_solution_copy() {
    let colors = score_guess(&letters("THERE"), &letters("EERIE"));
    assert_eq!(colors, vec![Yellow, Gray, Yellow, Gray, Green]);
    assert_eq!(marks_for("EERIE", &colors, 'E'), 2);
}

#[test]
fn marks_never_exceed_occurrences() {
    let solution = "ABBEY";
    for guess in ["BBBBB", "KEBAB", "BABES", "ABBEY", "YEABB", "EEEEE"] {
        let colors = score_guess(&letters(solution), &letters(guess));
        for c in guess.chars() {
            let in_solution = solution.chars().filter(|x| *x == c).count();
            assert!(marks_for(guess, &colors, c) <= in_solution, "{} {}", guess, c);
        }
    }
}

#[test]
fn empty_words_score_nothing() {
    assert_eq!(score_guess(&Vec::new(), &Vec::new()), Vec::<GameColor>::new());
}

#[test]
fn check_guess_ignores_case() {
    let game = Game::new("alice".to_string(), "crane".to_string());
    let result = game.check_guess("trace".to_string()).unwrap();
    assert_eq!(result.word, "trace");
    assert_eq!(result.status, vec![Gray, Green, Green, Yellow, Green]);
}

#[test]
fn check_guess_refuses_other_lengths() {
    let game = Game::new("alice".to_string(), "CRANE".to_string());
    assert!(game.check_guess("CRANES".to_string()).is_none());
    assert!(game.check_guess("CRAN".to_string()).is_none());
}

#[test]
fn new_guess_result_is_all_gray() {
    let result = GuessResult::new("HELLO".to_string());
    assert_eq!(result.word, "HELLO");
    assert_eq!(result.status, vec![Gray; 5]);
}

#[test]
fn win_needs_every_letter_green() {
    let mut result = GuessResult::new("HELLO".to_string());
    assert!(!result.is_win());
    result.status = vec![Green; 5];
    assert!(result.is_win());
}

use wordle_game::{parse_word_list, random_game_id, Dictionary, GAME_ID_LEN};

#[test]
fn word_list_trims_uppercases_and_skips_blanks() {
    let words = parse_word_list("crane\n  Trace \n\n\t\nabc\r\nlast");
    assert_eq!(words, vec!["CRANE", "TRACE", "ABC", "LAST"]);
}

#[test]
fn empty_word_list_has_no_words() {
    assert!(parse_word_list("").is_empty());
    assert!(parse_word_list("\n \n").is_empty());
}

#[test]
fn dictionary_needs_a_solution() {
    assert!(Dictionary::from_word_lists("crane\n", "\n").is_none());
    assert!(Dictionary::from_word_lists("", "crane").is_some());
}

#[test]
fn dictionary_keeps_both_lists() {
    let dict = Dictionary::from_word_lists("aback\nabase\n", "crane\ntrace\n").unwrap();
    assert_eq!(dict.guess_words(), &vec!["ABACK".to_string(), "ABASE".to_string()]);
    assert_eq!(dict.solution_words(), &vec!["CRANE".to_string(), "TRACE".to_string()]);
}

#[test]
fn guesses_are_checked_without_regard_to_case() {
    let dict = Dictionary::from_word_lists("aback\n", "crane\n").unwrap();
    assert!(dict.valid_guess("aback"));
    assert!(dict.valid_guess("ABACK"));
    assert!(dict.valid_guess("Crane"));
    assert!(!dict.valid_guess("zzzzz"));
    assert!(!dict.valid_guess(""));
}

#[test]
fn random_solution_comes_from_the_solution_list() {
    let dict = Dictionary::from_word_lists("aback\n", "crane\ntrace\nslate\n").unwrap();
    for _ in 0..20 {
        let word = dict.random_solution();
        assert!(["CRANE", "TRACE", "SLATE"].contains(&word.as_str()));
    }
}

#[test]
fn game_ids_are_capital_letters() {
    for _ in 0..20 {
        let id = random_game_id();
        assert_eq!(id.chars().count(), GAME_ID_LEN);
        assert!(id.chars().all(|c| c.is_ascii_uppercase()));
    }
}

use wordle_game::{
    BoardState, Dictionary, Game, GameColor, GameCommand, GameError, GameOutcome, GameStatus,
    ServerMessage, MAX_GUESSES,
};

fn dict() -> Dictionary {
    Dictionary::from_word_lists("trace\nslate\nbumpy\nchirp\ncrank\nfjord\n", "crane\n").unwrap()
}

fn two_player_game() -> Game {
    let mut game = Game::new("alice".to_string(), "CRANE".to_string());
    game.handle_join("bob".to_string(), "GAME1".to_string()).unwrap();
    game
}

fn guess(game: &mut Game, player: &str, word: &str) -> Result<ServerMessage, GameError> {
    game.handle_guess(player.to_string(), word.to_string(), &dict())
}

fn key_color(board: &BoardState, c: char) -> Option<GameColor> {
    board.keyboard_status.iter().find(|(l, _)| *l == c).map(|(_, col)| *col)
}

#[test]
fn new_game_has_one_member_holding_the_turn() {
    let game = Game::new("alice".to_string(), "CRANE".to_string());
    let board = game.board_state();
    assert_eq!(board.players, vec!["alice"]);
    assert_eq!(board.current_turn, "alice");
    assert_eq!(board.game_status, GameStatus::InProgress);
    assert!(board.guesses.is_empty());
    assert!(board.keyboard_status.is_empty());
}

#[test]
fn join_broadcasts_the_board() {
    let mut game = Game::new("alice".to_string(), "CRANE".to_string());
    let msg = game.handle_join("bob".to_string(), "GAME1".to_string()).unwrap();
    assert_eq!(game.board_state().players, vec!["alice", "bob"]);
    assert_eq!(game.board_state().current_turn, "alice");
    assert_eq!(
        msg,
        ServerMessage::Joined { board_state: game.board_state().clone(), game_id: "GAME1".to_string() }
    );
}

#[test]
fn third_player_is_refused() {
    let mut game = two_player_game();
    let before = game.board_state().clone();
    let r = game.handle_join("carol".to_string(), "GAME1".to_string());
    assert_eq!(r, Err(GameError::GameFull));
    assert_eq!(GameError::GameFull.message(), "already two players");
    assert_eq!(game.board_state(), &before);
    let outcome = game.process_command(
        GameCommand::Join { game_id: "GAME1".to_string(), player_id: "carol".to_string() },
        &dict(),
    );
    assert_eq!(outcome, GameOutcome::Rejected(GameError::GameFull));
    assert_eq!(
        GameError::GameFull.to_message(),
        ServerMessage::Error { message: "already two players".to_string() }
    );
    assert_eq!(game.board_state(), &before);
}

#[test]
fn rejoin_changes_nothing() {
    let mut game = two_player_game();
    guess(&mut game, "alice", "TRACE").unwrap();
    let before = game.board_state().clone();
    game.handle_join("alice".to_string(), "GAME1".to_string()).unwrap();
    game.handle_join("bob".to_string(), "GAME1".to_string()).unwrap();
    assert_eq!(game.board_state(), &before);
    assert_eq!(game.board_state().players, vec!["alice", "bob"]);
    assert_eq!(game.board_state().current_turn, "bob");
}

#[test]
fn join_outcome_carries_player_data() {
    let mut game = Game::new("alice".to_string(), "CRANE".to_string());
    let outcome = game.process_command(
        GameCommand::Join { game_id: "GAME1".to_string(), player_id: "bob".to_string() },
        &dict(),
    );
    match outcome {
        GameOutcome::Joined { broadcast, player_data } => {
            assert!(matches!(broadcast, ServerMessage::Joined { .. }));
            assert_eq!(
                player_data,
                ServerMessage::PlayerData {
                    game_id: Some("GAME1".to_string()),
                    player_id: Some("bob".to_string())
                }
            );
        }
        other => panic!("unexpected {:?}", other),
    }
}

#[test]
fn turn_alternates_and_returns_after_each_member_guessed() {
    let mut game = two_player_game();
    assert_eq!(game.board_state().current_turn, "alice");
    guess(&mut game, "alice", "TRACE").unwrap();
    assert_eq!(game.board_state().current_turn, "bob");
    guess(&mut game, "bob", "SLATE").unwrap();
    assert_eq!(game.board_state().current_turn, "alice");
}

#[test]
fn single_player_keeps_the_turn() {
    let mut game = Game::new("alice".to_string(), "CRANE".to_string());
    guess(&mut game, "alice", "TRACE").unwrap();
    assert_eq!(game.board_state().current_turn, "alice");
}

#[test]
fn guess_out_of_turn_is_refused() {
    let mut game = two_player_game();
    let before = game.board_state().clone();
    assert_eq!(guess(&mut game, "bob", "TRACE"), Err(GameError::TurnViolation));
    assert_eq!(guess(&mut game, "carol", "TRACE"), Err(GameError::TurnViolation));
    assert_eq!(game.board_state(), &before);
    assert_eq!(GameError::TurnViolation.message(), "Not your turn to guess");
}

#[test]
fn unknown_word_is_refused() {
    let mut game = two_player_game();
    assert_eq!(guess(&mut game, "alice", "ZZZZZ"), Err(GameError::InvalidWord));
    assert_eq!(GameError::InvalidWord.message(), "Not a valid word");
    assert_eq!(game.board_state().current_turn, "alice");
    assert!(game.board_state().guesses.is_empty());
}

#[test]
fn word_of_another_length_is_refused() {
    let d = Dictionary::from_word_lists("cranes\n", "crane\n").unwrap();
    let mut game = Game::new("alice".to_string(), "CRANE".to_string());
    let r = game.handle_guess("alice".to_string(), "cranes".to_string(), &d);
    assert_eq!(r, Err(GameError::InvalidWord));
}

#[test]
fn guess_is_scored_and_broadcast_without_solution() {
    let mut game = two_player_game();
    let msg = guess(&mut game, "alice", "trace").unwrap();
    let board = game.board_state().clone();
    assert_eq!(board.guesses.len(), 1);
    assert_eq!(board.guesses[0].word, "trace");
    assert_eq!(
        board.guesses[0].status,
        vec![GameColor::Gray, GameColor::Green, GameColor::Green, GameColor::Yellow, GameColor::Green]
    );
    assert_eq!(board.game_status, GameStatus::InProgress);
    assert_eq!(msg, ServerMessage::GameUpdate { board_state: board, solution: None });
}

#[test]
fn all_green_wins_and_reveals_the_solution() {
    let mut game = two_player_game();
    let msg = guess(&mut game, "alice", "crane").unwrap();
    assert_eq!(game.board_state().game_status, GameStatus::Won);
    assert!(game.has_ended());
    assert_eq!(
        msg,
        ServerMessage::GameUpdate {
            board_state: game.board_state().clone(),
            solution: Some("CRANE".to_string())
        }
    );
    assert_eq!(guess(&mut game, "bob", "TRACE"), Err(GameError::GameEnded));
    assert_eq!(GameError::GameEnded.message(), "Game has ended you cant guess");
}

#[test]
fn sixth_miss_loses() {
    let mut game = Game::new("alice".to_string(), "CRANE".to_string());
    let words = ["TRACE", "SLATE", "BUMPY", "CHIRP", "CRANK"];
    for w in words {
        guess(&mut game, "alice", w).unwrap();
        assert_eq!(game.board_state().game_status, GameStatus::InProgress);
    }
    let msg = guess(&mut game, "alice", "FJORD").unwrap();
    assert_eq!(game.board_state().guesses.len(), MAX_GUESSES);
    assert_eq!(game.board_state().game_status, GameStatus::Lost);
    match msg {
        ServerMessage::GameUpdate { solution, .. } => assert_eq!(solution, Some("CRANE".to_string())),
        other => panic!("unexpected {:?}", other),
    }
    assert_eq!(guess(&mut game, "alice", "TRACE"), Err(GameError::GameEnded));
}

#[test]
fn sixth_guess_that_matches_wins() {
    let mut game = Game::new("alice".to_string(), "CRANE".to_string());
    for w in ["TRACE", "SLATE", "BUMPY", "CHIRP", "CRANK"] {
        guess(&mut game, "alice", w).unwrap();
    }
    guess(&mut game, "alice", "CRANE").unwrap();
    assert_eq!(game.board_state().game_status, GameStatus::Won);
}

#[test]
fn keyboard_keeps_the_best_color() {
    let mut game = Game::new("alice".to_string(), "CRANE".to_string());
    guess(&mut game, "alice", "TRACE").unwrap();
    let board = game.board_state().clone();
    assert_eq!(key_color(&board, 'T'), Some(GameColor::Gray));
    assert_eq!(key_color(&board, 'R'), Some(GameColor::Green));
    assert_eq!(key_color(&board, 'C'), Some(GameColor::Yellow));
    guess(&mut game, "alice", "CHIRP").unwrap();
    let board = game.board_state().clone();
    assert_eq!(key_color(&board, 'C'), Some(GameColor::Green));
    assert_eq!(key_color(&board, 'R'), Some(GameColor::Green));
    guess(&mut game, "alice", "FJORD").unwrap();
    let board = game.board_state().clone();
    assert_eq!(key_color(&board, 'R'), Some(GameColor::Green));
    assert_eq!(key_color(&board, 'F'), Some(GameColor::Gray));
    let letters: Vec<char> = board.keyboard_status.iter().map(|(l, _)| *l).collect();
    for (i, a) in letters.iter().enumerate() {
        assert!(!letters[i + 1..].contains(a));
    }
}

#[test]
fn keyboard_yellow_does_not_fall_back_to_gray() {
    let mut game = Game::new("alice".to_string(), "CRANE".to_string());
    guess(&mut game, "alice", "TRACE").unwrap();
    assert_eq!(key_color(game.board_state(), 'C'), Some(GameColor::Yellow));
    guess(&mut game, "alice", "SLATE").unwrap();
    guess(&mut game, "alice", "BUMPY").unwrap();
    assert_eq!(key_color(game.board_state(), 'C'), Some(GameColor::Yellow));
    assert_eq!(key_color(game.board_state(), 'A'), Some(GameColor::Green));
}

#[test]
fn new_round_passes_the_first_turn_on() {
    let mut game = two_player_game();
    guess(&mut game, "alice", "TRACE").unwrap();
    let msg = game.handle_new("SLATE".to_string());
    let board = game.board_state().clone();
    assert_eq!(board.current_turn, "bob");
    assert!(board.guesses.is_empty());
    assert!(board.keyboard_status.is_empty());
    assert_eq!(board.game_status, GameStatus::InProgress);
    assert_eq!(board.players, vec!["alice", "bob"]);
    assert_eq!(msg, ServerMessage::NewGame { board_state: board });
    assert_eq!(guess(&mut game, "alice", "slate"), Err(GameError::TurnViolation));
    guess(&mut game, "bob", "slate").unwrap();
    assert_eq!(game.board_state().game_status, GameStatus::Won);
}

#[test]
fn first_turn_alternates_between_rounds() {
    let mut game = two_player_game();
    game.handle_new("CRANE".to_string());
    assert_eq!(game.board_state().current_turn, "bob");
    guess(&mut game, "bob", "TRACE").unwrap();
    guess(&mut game, "alice", "SLATE").unwrap();
    assert_eq!(game.board_state().current_turn, "bob");
    game.handle_new("CRANE".to_string());
    assert_eq!(game.board_state().current_turn, "alice");
}

#[test]
fn first_turn_survives_its_holder_leaving() {
    let mut game = two_player_game();
    game.handle_disconnect("alice".to_string()).unwrap();
    game.handle_join("carol".to_string(), "GAME1".to_string()).unwrap();
    game.handle_new("CRANE".to_string());
    assert_eq!(game.board_state().current_turn, "carol");
}

#[test]
fn reset_after_a_win_allows_guessing_again() {
    let mut game = two_player_game();
    guess(&mut game, "alice", "CRANE").unwrap();
    let outcome = game.process_command(GameCommand::New { game_id: "GAME1".to_string() }, &dict());
    assert!(matches!(outcome, GameOutcome::Broadcast(ServerMessage::NewGame { .. })));
    assert_eq!(game.board_state().game_status, GameStatus::InProgress);
    assert_eq!(game.board_state().current_turn, "bob");
    assert!(game.board_state().guesses.is_empty());
    let won = guess(&mut game, "bob", "CRANE").unwrap();
    assert!(matches!(won, ServerMessage::GameUpdate { solution: Some(_), .. }));
}

#[test]
fn leaving_turn_holder_passes_the_turn() {
    let mut game = two_player_game();
    let msg = game.handle_disconnect("alice".to_string()).unwrap();
    assert_eq!(game.board_state().players, vec!["bob"]);
    assert_eq!(game.board_state().current_turn, "bob");
    assert_eq!(msg, ServerMessage::GameUpdate { board_state: game.board_state().clone(), solution: None });
}

#[test]
fn leaving_other_member_keeps_the_turn() {
    let mut game = two_player_game();
    game.handle_disconnect("bob".to_string()).unwrap();
    assert_eq!(game.board_state().players, vec!["alice"]);
    assert_eq!(game.board_state().current_turn, "alice");
}

#[test]
fn last_member_leaving_stops_the_round() {
    let mut game = Game::new("alice".to_string(), "CRANE".to_string());
    assert_eq!(game.handle_disconnect("alice".to_string()), None);
    assert!(game.board_state().players.is_empty());
    let mut game = Game::new("alice".to_string(), "CRANE".to_string());
    let outcome = game.process_command(
        GameCommand::Disconnect { game_id: "GAME1".to_string(), player_id: "alice".to_string() },
        &dict(),
    );
    assert_eq!(outcome, GameOutcome::Stop);
}

#[test]
fn stranger_leaving_changes_nothing() {
    let mut game = two_player_game();
    let before = game.board_state().clone();
    game.handle_disconnect("carol".to_string()).unwrap();
    assert_eq!(game.board_state(), &before);
}

#[test]
fn seat_freed_by_a_departure_can_be_taken() {
    let mut game = two_player_game();
    game.handle_disconnect("bob".to_string()).unwrap();
    game.handle_join("carol".to_string(), "GAME1".to_string()).unwrap();
    assert_eq!(game.board_state().players, vec!["alice", "carol"]);
}

#[test]
fn create_command_is_ignored_by_a_round() {
    let mut game = two_player_game();
    let before = game.board_state().clone();
    let outcome = game.process_command(GameCommand::Create { player_id: "carol".to_string() }, &dict());
    assert_eq!(outcome, GameOutcome::Ignored);
    assert_eq!(game.board_state(), &before);
}

#[test]
fn board_helpers_add_and_rotate() {
    let mut board = Game::new("alice".to_string(), "CRANE".to_string()).board_state().clone();
    board.add_player("bob".to_string());
    board.add_player("bob".to_string());
    assert_eq!(board.players, vec!["alice", "bob"]);
    assert!(board.has_player(&"bob".to_string()));
    board.next_turn();
    assert_eq!(board.current_turn, "bob");
    board.next_turn();
    assert_eq!(board.current_turn, "alice");
    board.current_turn = "nobody".to_string();
    board.next_turn();
    assert_eq!(board.current_turn, "nobody");
}

#[test]
fn snapshot_is_an_equal_copy() {
    let mut game = two_player_game();
    guess(&mut game, "alice", "TRACE").unwrap();
    assert_eq!(&game.board_state().snapshot(), game.board_state());
}

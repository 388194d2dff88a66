use wordle_game::{welcome, ClientRequest, GameCommand, GameStatus, ServerMessage, Session};

fn s(x: &str) -> String {
    x.to_string()
}

#[test]
fn requests_before_connect_yield_nothing() {
    let mut session = Session::new();
    assert_eq!(session.command_for(ClientRequest::CreateGame), None);
    assert_eq!(session.command_for(ClientRequest::JoinGame { game_id: s("ABCDE") }), None);
    assert_eq!(session.command_for(ClientRequest::NewGame), None);
    assert_eq!(session.command_for(ClientRequest::GuessWord { word: s("CRANE") }), None);
    assert_eq!(session.farewell(), None);
    assert_eq!(session, Session::new());
}

#[test]
fn connect_with_a_game_joins_it() {
    let mut session = Session::new();
    let join = session.connect(s("p1"), Some(s("ABCDE")));
    assert_eq!(join, Some(GameCommand::Join { game_id: s("ABCDE"), player_id: s("p1") }));
    assert_eq!(
        session.command_for(ClientRequest::GuessWord { word: s("CRANE") }),
        Some(GameCommand::Guess { game_id: s("ABCDE"), player_id: s("p1"), word: s("CRANE") })
    );
    assert_eq!(session.farewell(), Some(GameCommand::Disconnect { game_id: s("ABCDE"), player_id: s("p1") }));
}

#[test]
fn connect_without_a_game_then_create() {
    let mut session = Session::new();
    assert_eq!(session.connect(s("p1"), None), None);
    assert_eq!(session.command_for(ClientRequest::CreateGame), Some(GameCommand::Create { player_id: s("p1") }));
    assert_eq!(session.command_for(ClientRequest::NewGame), None);
    session.observe(&ServerMessage::Created { game_status: GameStatus::Waiting, game_id: s("NEWID") });
    assert_eq!(session.game_id, Some(s("NEWID")));
    assert_eq!(session.command_for(ClientRequest::NewGame), Some(GameCommand::New { game_id: s("NEWID") }));
    assert_eq!(
        session.command_for(ClientRequest::DisconnectPlayer),
        Some(GameCommand::Disconnect { game_id: s("NEWID"), player_id: s("p1") })
    );
}

#[test]
fn join_request_moves_the_session() {
    let mut session = Session::new();
    session.connect(s("p1"), Some(s("AAAAA")));
    let cmd = session.command_for(ClientRequest::JoinGame { game_id: s("BBBBB") });
    assert_eq!(cmd, Some(GameCommand::Join { game_id: s("BBBBB"), player_id: s("p1") }));
    assert_eq!(session.game_id, Some(s("BBBBB")));
}

#[test]
fn other_events_leave_the_session_alone() {
    let mut session = Session::new();
    session.connect(s("p1"), Some(s("AAAAA")));
    session.observe(&ServerMessage::Error { message: s("game not found") });
    assert_eq!(session.game_id, Some(s("AAAAA")));
    assert_eq!(session.command_for(ClientRequest::Connect { game_id: None }), None);
}

#[test]
fn welcome_names_the_player() {
    assert_eq!(
        welcome(s("p1")),
        ServerMessage::Welcome { player_id: s("p1"), message: s("Welcome new player") }
    );
}

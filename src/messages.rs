//! Commands routed to rounds, events sent to players, and the errors a
//! command can meet.

use vstd::prelude::*;
use crate::board::{BoardState, BoardView, GameId, GameStatus, PlayerId};

verus! {

/// An event sent to a player.
#[allow(inconsistent_fields)]
#[derive(Clone, Debug, PartialEq, Eq)]
pub enum ServerMessage {
    Created { game_status: GameStatus, game_id: GameId },
    Joined { board_state: BoardState, game_id: GameId },
    GameUpdate { board_state: BoardState, solution: Option<String> },
    NewGame { board_state: BoardState },
    Welcome { player_id: PlayerId, message: String },
    Error { message: String },
    PlayerData { game_id: Option<GameId>, player_id: Option<PlayerId> },
}

/// Mathematical value of a [`ServerMessage`].
#[allow(inconsistent_fields)]
pub enum ServerMessageView {
    Created { game_status: GameStatus, game_id: Seq<char> },
    Joined { board_state: BoardView, game_id: Seq<char> },
    GameUpdate { board_state: BoardView, solution: Option<Seq<char>> },
    NewGame { board_state: BoardView },
    Welcome { player_id: Seq<char>, message: Seq<char> },
    Error { message: Seq<char> },
    PlayerData { game_id: Option<Seq<char>>, player_id: Option<Seq<char>> },
}

/// The characters of an optional string.
pub open spec fn opt_view(s: Option<String>) -> Option<Seq<char>> {
    match s {
        Some(v) => Some(v@),
        None => None,
    }
}

impl View for ServerMessage {
    type V = ServerMessageView;

    open spec fn view(&self) -> ServerMessageView {
        match self {
            ServerMessage::Created { game_status, game_id } => ServerMessageView::Created {
                game_status: *game_status,
                game_id: game_id@,
            },
            ServerMessage::Joined { board_state, game_id } => ServerMessageView::Joined {
                board_state: board_state@,
                game_id: game_id@,
            },
            ServerMessage::GameUpdate { board_state, solution } => ServerMessageView::GameUpdate {
                board_state: board_state@,
                solution: opt_view(*solution),
            },
            ServerMessage::NewGame { board_state } => ServerMessageView::NewGame {
                board_state: board_state@,
            },
            ServerMessage::Welcome { player_id, message } => ServerMessageView::Welcome {
                player_id: player_id@,
                message: message@,
            },
            ServerMessage::Error { message } => ServerMessageView::Error { message: message@ },
            ServerMessage::PlayerData { game_id, player_id } => ServerMessageView::PlayerData {
                game_id: opt_view(*game_id),
                player_id: opt_view(*player_id),
            },
        }
    }
}

/// A command for the coordinator or for one round.
#[allow(inconsistent_fields)]
#[derive(Clone, Debug, PartialEq, Eq)]
pub enum GameCommand {
    Create { player_id: PlayerId },
    Join { game_id: GameId, player_id: PlayerId },
    New { game_id: GameId },
    Guess { game_id: GameId, player_id: PlayerId, word: String },
    Disconnect { game_id: GameId, player_id: PlayerId },
}

/// Mathematical value of a [`GameCommand`].
#[allow(inconsistent_fields)]
pub enum CommandView {
    Create { player_id: Seq<char> },
    Join { game_id: Seq<char>, player_id: Seq<char> },
    New { game_id: Seq<char> },
    Guess { game_id: Seq<char>, player_id: Seq<char>, word: Seq<char> },
    Disconnect { game_id: Seq<char>, player_id: Seq<char> },
}

impl View for GameCommand {
    type V = CommandView;

    open spec fn view(&self) -> CommandView {
        match self {
            GameCommand::Create { player_id } => CommandView::Create { player_id: player_id@ },
            GameCommand::Join { game_id, player_id } => CommandView::Join {
                game_id: game_id@,
                player_id: player_id@,
            },
            GameCommand::New { game_id } => CommandView::New { game_id: game_id@ },
            GameCommand::Guess { game_id, player_id, word } => CommandView::Guess {
                game_id: game_id@,
                player_id: player_id@,
                word: word@,
            },
            GameCommand::Disconnect { game_id, player_id } => CommandView::Disconnect {
                game_id: game_id@,
                player_id: player_id@,
            },
        }
    }
}

impl GameCommand {
    /// The round a command is addressed to; a `Create` names none.
    pub open spec fn target(&self) -> Option<Seq<char>> {
        match self {
            GameCommand::Create { .. } => None,
            GameCommand::Join { game_id, .. } => Some(game_id@),
            GameCommand::New { game_id } => Some(game_id@),
            GameCommand::Guess { game_id, .. } => Some(game_id@),
            GameCommand::Disconnect { game_id, .. } => Some(game_id@),
        }
    }

    /// The round a command is addressed to; `None` for a `Create`.
    pub fn get_game_id(&self) -> (r: Option<GameId>)
        ensures
            opt_view(r) == self.target(),
    {
        match self {
            GameCommand::Create { .. } => None,
            GameCommand::Join { game_id, .. } => Some(game_id.clone()),
            GameCommand::New { game_id } => Some(game_id.clone()),
            GameCommand::Guess { game_id, .. } => Some(game_id.clone()),
            GameCommand::Disconnect { game_id, .. } => Some(game_id.clone()),
        }
    }

    /// Whether the sender of this command expects an answer on failure.
    pub open spec fn spec_expects_reply(&self) -> bool {
        !(self is Disconnect)
    }

    /// Whether the sender of this command expects an answer on failure;
    /// a `Disconnect` carries no reply channel.
    pub fn expects_reply(&self) -> (r: bool)
        ensures
            r == self.spec_expects_reply(),
    {
        match self {
            GameCommand::Disconnect { .. } => false,
            _ => true,
        }
    }
}

/// Why a command was refused.
#[derive(Clone, Copy, Debug, PartialEq, Eq, Structural)]
pub enum GameError {
    /// No running round has the given identifier.
    NotFound,
    /// Two other players are already in the round.
    GameFull,
    /// The guess came from a player whose turn it is not.
    TurnViolation,
    /// The guess is not an accepted word of the round's length.
    InvalidWord,
    /// The round is already won or lost.
    GameEnded,
}

/// The text reported for each error.
pub open spec fn error_text(e: GameError) -> Seq<char> {
    match e {
        GameError::NotFound => "game not found"@,
        GameError::GameFull => "already two players"@,
        GameError::TurnViolation => "Not your turn to guess"@,
        GameError::InvalidWord => "Not a valid word"@,
        GameError::GameEnded => "Game has ended you cant guess"@,
    }
}

impl GameError {
    /// The text reported to the sender.
    pub fn message(&self) -> (r: String)
        ensures
            r@ == error_text(*self),
    {
        match self {
            GameError::NotFound => String::from_str("game not found"),
            GameError::GameFull => String::from_str("already two players"),
            GameError::TurnViolation => String::from_str("Not your turn to guess"),
            GameError::InvalidWord => String::from_str("Not a valid word"),
            GameError::GameEnded => String::from_str("Game has ended you cant guess"),
        }
    }

    /// The `Error` event that reports this error to the sender.
    pub fn to_message(&self) -> (r: ServerMessage)
        ensures
            r@ == (ServerMessageView::Error { message: error_text(*self) }),
    {
        ServerMessage::Error { message: self.message() }
    }
}

} // verus!

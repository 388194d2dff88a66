//! Server-side rules of a two-player, turn-based word-guessing game: letter
//! scoring, the per-round state machine, and the registry that routes
//! commands to rounds.

pub mod board;
pub mod coordinator;
pub mod dict;
pub mod game;
pub mod messages;
pub mod pairs;
pub mod scoring;
pub mod session;
pub mod text;

pub use board::{BoardState, GameId, GameStatus, GuessResult, PlayerId, MAX_GUESSES};
pub use coordinator::{CoordinatorAction, GameCoordinator};
pub use dict::{parse_word_list, random_game_id, Dictionary, GAME_ID_LEN};
pub use game::{Game, GameOutcome};
pub use messages::{GameCommand, GameError, ServerMessage};
pub use scoring::{score_guess, GameColor};
pub use session::{welcome, ClientRequest, Session};

//! One connection's view of the game: which player it speaks for, which
//! round it is in, and the command each client request becomes.

use vstd::prelude::*;
use crate::board::{GameId, PlayerId};
use crate::messages::{opt_view, CommandView, GameCommand, ServerMessage, ServerMessageView};

verus! {

/// A request decoded from the client.
#[derive(Clone, Debug, PartialEq, Eq)]
pub enum ClientRequest {
    Connect { game_id: Option<GameId> },
    JoinGame { game_id: GameId },
    GuessWord { word: String },
    CreateGame,
    NewGame,
    DisconnectPlayer,
}

/// Mathematical value of a [`ClientRequest`].
pub enum RequestView {
    Connect { game_id: Option<Seq<char>> },
    JoinGame { game_id: Seq<char> },
    GuessWord { word: Seq<char> },
    CreateGame,
    NewGame,
    DisconnectPlayer,
}

impl View for ClientRequest {
    type V = RequestView;

    open spec fn view(&self) -> RequestView {
        match self {
            ClientRequest::Connect { game_id } => RequestView::Connect { game_id: opt_view(*game_id) },
            ClientRequest::JoinGame { game_id } => RequestView::JoinGame { game_id: game_id@ },
            ClientRequest::GuessWord { word } => RequestView::GuessWord { word: word@ },
            ClientRequest::CreateGame => RequestView::CreateGame,
            ClientRequest::NewGame => RequestView::NewGame,
            ClientRequest::DisconnectPlayer => RequestView::DisconnectPlayer,
        }
    }
}

/// The player a connection speaks for and the round it is in, once known.
#[derive(Clone, Debug, PartialEq, Eq)]
pub struct Session {
    pub player_id: Option<PlayerId>,
    pub game_id: Option<GameId>,
}

/// Mathematical value of a [`Session`].
pub struct SessionView {
    pub player_id: Option<Seq<char>>,
    pub game_id: Option<Seq<char>>,
}

impl View for Session {
    type V = SessionView;

    open spec fn view(&self) -> SessionView {
        SessionView { player_id: opt_view(self.player_id), game_id: opt_view(self.game_id) }
    }
}

/// The session and command after a request other than `Connect`: a request
/// needs the ids it names to be known, else it yields nothing; a `JoinGame`
/// also makes its round the session's round.
pub open spec fn request_step(s: SessionView, request: RequestView) -> (SessionView, Option<
    CommandView,
>) {
    match (request, s.player_id, s.game_id) {
        (RequestView::CreateGame, Some(pid), _) => (s, Some(CommandView::Create { player_id: pid })),
        (RequestView::JoinGame { game_id }, Some(pid), _) => (
            SessionView { player_id: s.player_id, game_id: Some(game_id) },
            Some(CommandView::Join { game_id, player_id: pid }),
        ),
        (RequestView::NewGame, _, Some(gid)) => (s, Some(CommandView::New { game_id: gid })),
        (RequestView::GuessWord { word }, Some(pid), Some(gid)) => (
            s,
            Some(CommandView::Guess { game_id: gid, player_id: pid, word }),
        ),
        (RequestView::DisconnectPlayer, Some(pid), Some(gid)) => (
            s,
            Some(CommandView::Disconnect { game_id: gid, player_id: pid }),
        ),
        _ => (s, None),
    }
}

/// The command view of an optional command.
pub open spec fn opt_command(c: Option<GameCommand>) -> Option<CommandView> {
    match c {
        Some(v) => Some(v@),
        None => None,
    }
}

impl Session {
    /// A connection that knows neither its player nor its round.
    pub fn new() -> (r: Self)
        ensures
            r@.player_id is None,
            r@.game_id is None,
    {
        Session { player_id: None, game_id: None }
    }

    /// The connection now speaks for `player_id`, in round `game_id` if one
    /// is given, which it then joins.
    pub fn connect(&mut self, player_id: PlayerId, game_id: Option<GameId>) -> (r: Option<
        GameCommand,
    >)
        ensures
            final(self)@.player_id == Some(player_id@),
            final(self)@.game_id == opt_view(game_id),
            opt_command(r) == match opt_view(game_id) {
                Some(g) => Some(CommandView::Join { game_id: g, player_id: player_id@ }),
                None => None,
            },
    {
        self.player_id = Some(player_id.clone());
        self.game_id = match &game_id {
            Some(g) => Some(g.clone()),
            None => None,
        };
        match game_id {
            Some(g) => Some(GameCommand::Join { game_id: g, player_id }),
            None => None,
        }
    }

    /// The command a request other than `Connect` becomes, as
    /// [`request_step`] describes; `None` for a `Connect`.
    pub fn command_for(&mut self, request: ClientRequest) -> (r: Option<GameCommand>)
        ensures
            final(self)@ == request_step(old(self)@, request@).0,
            opt_command(r) == request_step(old(self)@, request@).1,
    {
        match request {
            ClientRequest::CreateGame => match &self.player_id {
                Some(pid) => Some(GameCommand::Create { player_id: pid.clone() }),
                None => None,
            },
            ClientRequest::JoinGame { game_id } => match &self.player_id {
                Some(pid) => {
                    let command = GameCommand::Join { game_id: game_id.clone(), player_id: pid.clone() };
                    self.game_id = Some(game_id);
                    Some(command)
                },
                None => None,
            },
            ClientRequest::NewGame => match &self.game_id {
                Some(gid) => Some(GameCommand::New { game_id: gid.clone() }),
                None => None,
            },
            ClientRequest::GuessWord { word } => match (&self.player_id, &self.game_id) {
                (Some(pid), Some(gid)) => Some(
                    GameCommand::Guess { game_id: gid.clone(), player_id: pid.clone(), word },
                ),
                _ => None,
            },
            ClientRequest::DisconnectPlayer => match (&self.player_id, &self.game_id) {
                (Some(pid), Some(gid)) => Some(
                    GameCommand::Disconnect { game_id: gid.clone(), player_id: pid.clone() },
                ),
                _ => None,
            },
            ClientRequest::Connect { .. } => None,
        }
    }

    /// Notes an event on its way to the client: a `Created` makes the new
    /// round the session's round.
    pub fn observe(&mut self, message: &ServerMessage)
        ensures
            final(self)@.player_id == old(self)@.player_id,
            final(self)@.game_id == match message@ {
                ServerMessageView::Created { game_id, .. } => Some(game_id),
                _ => old(self)@.game_id,
            },
    {
        if let ServerMessage::Created { game_id, .. } = message {
            self.game_id = Some(game_id.clone());
        }
    }

    /// The `Disconnect` sent when the connection closes, once both ids are
    /// known.
    pub fn farewell(&self) -> (r: Option<GameCommand>)
        ensures
            opt_command(r) == match (self@.player_id, self@.game_id) {
                (Some(pid), Some(gid)) => Some(CommandView::Disconnect { game_id: gid, player_id: pid }),
                _ => None,
            },
    {
        match (&self.player_id, &self.game_id) {
            (Some(pid), Some(gid)) => Some(
                GameCommand::Disconnect { game_id: gid.clone(), player_id: pid.clone() },
            ),
            _ => None,
        }
    }
}

/// The greeting sent to a player who has just connected.
pub fn welcome(player_id: PlayerId) -> (r: ServerMessage)
    ensures
        r@ == (ServerMessageView::Welcome { player_id: player_id@, message: "Welcome new player"@ }),
{
    ServerMessage::Welcome { player_id, message: String::from_str("Welcome new player") }
}

} // verus!

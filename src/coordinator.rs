//! The registry of running rounds and of each player's round, and the
//! routing of commands to rounds.

use vstd::prelude::*;
use crate::board::{BoardView, GameId, GameStatus, PlayerId};
use crate::dict::{random_game_id, Dictionary, GAME_ID_LEN};
use crate::game::Game;
use crate::pairs::{keys_distinct, lemma_pairs_absent, lemma_pairs_lookup, lemma_pairs_push, lemma_pairs_remove, map_of_pairs};
use crate::messages::{error_text, CommandView, GameCommand, GameError, ServerMessage, ServerMessageView};

verus! {

/// The registry as mathematical values: the running rounds, and the round
/// each player is bound to.
pub struct CoordinatorView {
    pub games: Set<Seq<char>>,
    pub player_games: Map<Seq<char>, Seq<char>>,
}

/// What the coordinator asks its runtime to do.
pub enum CoordinatorAction {
    /// Start an owner for `game` and register it under `game_id`.
    Spawn { game_id: GameId, game: Game },
    /// Deliver `command` to the round registered under `game_id`.
    Forward { game_id: GameId, command: GameCommand },
    /// Answer the sender of the command.
    Reply(ServerMessage),
}

/// Mathematical value of a [`CoordinatorAction`].
pub enum ActionView {
    Spawn { game_id: Seq<char>, solution: Seq<char>, board: BoardView },
    Forward { game_id: Seq<char>, command: CommandView },
    Reply(ServerMessageView),
}

impl View for CoordinatorAction {
    type V = ActionView;

    open spec fn view(&self) -> ActionView {
        match self {
            CoordinatorAction::Spawn { game_id, game } => ActionView::Spawn {
                game_id: game_id@,
                solution: game.solution(),
                board: game.board(),
            },
            CoordinatorAction::Forward { game_id, command } => ActionView::Forward {
                game_id: game_id@,
                command: command@,
            },
            CoordinatorAction::Reply(m) => ActionView::Reply(m@),
        }
    }
}

/// The values of a list of actions.
pub open spec fn actions_view(s: Seq<CoordinatorAction>) -> Seq<ActionView> {
    s.map_values(|a: CoordinatorAction| a@)
}

/// The answer to a command for a round that is not running.
pub open spec fn not_found_reply() -> ActionView {
    ActionView::Reply(ServerMessageView::Error { message: error_text(GameError::NotFound) })
}

/// The `Disconnect` that evicts `player` from the running round it is bound
/// to, unless that round is `keep`.
pub open spec fn eviction(c: CoordinatorView, player: Seq<char>, keep: Option<Seq<char>>) -> Seq<
    ActionView,
> {
    if c.player_games.contains_key(player) && c.games.contains(c.player_games[player]) && keep
        != Some(c.player_games[player]) {
        let prior = c.player_games[player];
        seq![
            ActionView::Forward {
                game_id: prior,
                command: CommandView::Disconnect { game_id: prior, player_id: player },
            },
        ]
    } else {
        Seq::empty()
    }
}

/// The board of a round that `player` has just created.
pub open spec fn created_board(player: Seq<char>) -> BoardView {
    BoardView {
        guesses: Seq::empty(),
        current_turn: player,
        game_status: GameStatus::InProgress,
        keyboard_status: Seq::empty(),
        players: seq![player],
    }
}

/// Registry and actions after `player` creates round `game_id` on
/// `solution`: the player leaves any round they were in, the new round is
/// started and registered, the player is bound to it and told its id.
pub open spec fn create_step(
    c: CoordinatorView,
    player: Seq<char>,
    game_id: Seq<char>,
    solution: Seq<char>,
) -> (CoordinatorView, Seq<ActionView>) {
    (
        CoordinatorView {
            games: c.games.insert(game_id),
            player_games: c.player_games.insert(player, game_id),
        },
        eviction(c, player, None) + seq![
            ActionView::Spawn { game_id, solution, board: created_board(player) },
            ActionView::Reply(
                ServerMessageView::PlayerData { game_id: Some(game_id), player_id: Some(player) },
            ),
            ActionView::Reply(
                ServerMessageView::Created { game_status: GameStatus::Waiting, game_id },
            ),
        ],
    )
}

/// `after` and `actions` are what creating round `game_id` on `solution`
/// yields.
pub open spec fn created_with(
    before: CoordinatorView,
    after: CoordinatorView,
    actions: Seq<ActionView>,
    player: Seq<char>,
    game_id: Seq<char>,
    solution: Seq<char>,
) -> bool {
    &&& after == create_step(before, player, game_id, solution).0
    &&& actions == create_step(before, player, game_id, solution).1
}

/// `after` and `actions` are what creating a round yields for some game id
/// of [`GAME_ID_LEN`] letters and some solution out of `solutions`.
pub open spec fn created_somehow(
    before: CoordinatorView,
    after: CoordinatorView,
    actions: Seq<ActionView>,
    player: Seq<char>,
    solutions: Seq<Seq<char>>,
) -> bool {
    exists|game_id: Seq<char>, solution: Seq<char>|
        game_id.len() == GAME_ID_LEN && solutions.contains(solution) && #[trigger] created_with(
            before,
            after,
            actions,
            player,
            game_id,
            solution,
        )
}

/// Registry and actions after routing a command other than `Create`.
/// A `Join` evicts the player from another round it is bound to and, when
/// the target runs, binds the player to it. A `Disconnect` unbinds the
/// player and reaches both its bound round and the named one. Any command
/// for a round that is not running is answered with `NotFound`, but for a
/// `Disconnect`, which has no one to answer.
pub open spec fn route_step(c: CoordinatorView, cmd: CommandView) -> (CoordinatorView, Seq<
    ActionView,
>) {
    match cmd {
        CommandView::Create { .. } => (c, Seq::empty()),
        CommandView::Join { game_id, player_id } => {
            let evict = eviction(c, player_id, Some(game_id));
            if c.games.contains(game_id) {
                (
                    CoordinatorView {
                        games: c.games,
                        player_games: c.player_games.insert(player_id, game_id),
                    },
                    evict.push(ActionView::Forward { game_id, command: cmd }),
                )
            } else {
                (
                    CoordinatorView { games: c.games, player_games: c.player_games.remove(player_id) },
                    evict.push(not_found_reply()),
                )
            }
        },
        CommandView::New { game_id } => if c.games.contains(game_id) {
            (c, seq![ActionView::Forward { game_id, command: cmd }])
        } else {
            (c, seq![not_found_reply()])
        },
        CommandView::Guess { game_id, .. } => if c.games.contains(game_id) {
            (c, seq![ActionView::Forward { game_id, command: cmd }])
        } else {
            (c, seq![not_found_reply()])
        },
        CommandView::Disconnect { game_id, player_id } => {
            let evict = eviction(c, player_id, Some(game_id));
            (
                CoordinatorView { games: c.games, player_games: c.player_games.remove(player_id) },
                if c.games.contains(game_id) {
                    evict.push(ActionView::Forward { game_id, command: cmd })
                } else {
                    evict
                },
            )
        },
    }
}

/// Routes commands to rounds and keeps, for each player, the one round they
/// are bound to.
pub struct GameCoordinator {
    games: Vec<GameId>,
    player_games: Vec<(PlayerId, GameId)>,
}

impl View for GameCoordinator {
    type V = CoordinatorView;

    closed spec fn view(&self) -> CoordinatorView {
        CoordinatorView {
            games: Set::new(|g: Seq<char>| self.game_ids().contains(g)),
            player_games: map_of_pairs(self.bindings()),
        }
    }
}

impl GameCoordinator {
    closed spec fn game_ids(&self) -> Seq<Seq<char>> {
        self.games@.map_values(|g: GameId| g@)
    }

    closed spec fn bindings(&self) -> Seq<(Seq<char>, Seq<char>)> {
        self.player_games@.map_values(|p: (PlayerId, GameId)| (p.0@, p.1@))
    }

    /// The registry's invariant: a player has at most one binding.
    pub closed spec fn wf(&self) -> bool {
        keys_distinct(self.bindings())
    }

    /// An empty registry.
    pub fn new() -> (r: Self)
        ensures
            r.wf(),
            r@.games == Set::<Seq<char>>::empty(),
            r@.player_games == Map::<Seq<char>, Seq<char>>::empty(),
    {
        let r = GameCoordinator { games: Vec::new(), player_games: Vec::new() };
        assert(r.game_ids() =~= Seq::empty());
        assert(r.bindings() =~= Seq::empty());
        assert(r@.games =~= Set::<Seq<char>>::empty());
        r
    }

    /// Whether a round runs under `game_id`.
    pub fn has_game(&self, game_id: &GameId) -> (r: bool)
        ensures
            r == self@.games.contains(game_id@),
    {
        let ghost ids = self.game_ids();
        let mut i: usize = 0;
        while i < self.games.len()
            invariant
                ids == self.game_ids(),
                i <= ids.len(),
                forall|k: int| 0 <= k < i ==> ids[k] != game_id@,
            decreases ids.len() - i,
        {
            if self.games[i] == *game_id {
                assert(ids[i as int] == game_id@);
                return true;
            }
            i = i + 1;
        }
        false
    }

    /// Position of the binding of `player_id`, or the number of bindings
    /// when there is none.
    fn binding_index(&self, player_id: &PlayerId) -> (r: usize)
        ensures
            r <= self.bindings().len(),
            r < self.bindings().len() ==> self.bindings()[r as int].0 == player_id@,
            r == self.bindings().len() ==> forall|k: int|
                0 <= k < self.bindings().len() ==> self.bindings()[k].0 != player_id@,
    {
        let ghost b = self.bindings();
        let mut i: usize = 0;
        while i < self.player_games.len()
            invariant
                b == self.bindings(),
                i <= b.len(),
                forall|k: int| 0 <= k < i ==> b[k].0 != player_id@,
            decreases b.len() - i,
        {
            if self.player_games[i].0 == *player_id {
                return i;
            }
            i = i + 1;
        }
        i
    }

    /// The round `player_id` is bound to, if any.
    pub fn game_of(&self, player_id: &PlayerId) -> (r: Option<GameId>)
        requires
            self.wf(),
        ensures
            r is Some <==> self@.player_games.contains_key(player_id@),
            r is Some ==> r->0@ == self@.player_games[player_id@],
    {
        let i = self.binding_index(player_id);
        if i < self.player_games.len() {
            proof {
                lemma_pairs_lookup(self.bindings(), i as int);
            }
            Some(self.player_games[i].1.clone())
        } else {
            proof {
                lemma_pairs_absent(self.bindings(), player_id@);
            }
            None
        }
    }

    /// Drops the binding of `player_id`, if any.
    fn unbind(&mut self, player_id: &PlayerId)
        requires
            old(self).wf(),
        ensures
            final(self).wf(),
            final(self)@.player_games == old(self)@.player_games.remove(player_id@),
            final(self).game_ids() == old(self).game_ids(),
    {
        let i = self.binding_index(player_id);
        let ghost b = self.bindings();
        if i < self.player_games.len() {
            self.player_games.remove(i);
            proof {
                assert(self.bindings() =~= b.remove(i as int));
                lemma_pairs_remove(b, i as int);
            }
        } else {
            proof {
                lemma_pairs_absent(b, player_id@);
                assert(map_of_pairs(b) =~= map_of_pairs(b).remove(player_id@));
            }
        }
    }

    /// Binds `player_id` to `game_id`, replacing any earlier binding.
    fn bind(&mut self, player_id: PlayerId, game_id: GameId)
        requires
            old(self).wf(),
        ensures
            final(self).wf(),
            final(self)@.player_games == old(self)@.player_games.insert(player_id@, game_id@),
            final(self).game_ids() == old(self).game_ids(),
    {
        self.unbind(&player_id);
        let ghost b = self.bindings();
        let ghost pair = (player_id@, game_id@);
        self.player_games.push((player_id, game_id));
        proof {
            assert(self.bindings() =~= b.push(pair));
            assert forall|k: int| 0 <= k < b.len() implies b[k].0 != pair.0 by {
                lemma_pairs_lookup(b, k);
            }
            lemma_pairs_push(b, pair.0, pair.1);
        }
    }

    /// Registers a running round under `game_id`.
    fn register(&mut self, game_id: GameId)
        ensures
            final(self)@.games == old(self)@.games.insert(game_id@),
            final(self).bindings() == old(self).bindings(),
    {
        if !self.has_game(&game_id) {
            let ghost ids = self.game_ids();
            let ghost g = game_id@;
            self.games.push(game_id);
            proof {
                assert(self.game_ids() =~= ids.push(g));
                assert forall|x: Seq<char>| self.game_ids().contains(x) <==> (ids.contains(x) || x == g) by {
                    if ids.contains(x) {
                        let k = choose|k: int| 0 <= k < ids.len() && ids[k] == x;
                        assert(self.game_ids()[k] == x);
                    }
                    if x == g {
                        assert(self.game_ids()[ids.len() as int] == x);
                    }
                }
            }
        }
        assert(self@.games =~= old(self)@.games.insert(game_id@));
    }

    /// Takes the round registered under `game_id` off the registry; the
    /// bindings stay and are dropped when their players next move.
    pub fn remove_game(&mut self, game_id: &GameId)
        ensures
            final(self)@.games == old(self)@.games.remove(game_id@),
            final(self)@.player_games == old(self)@.player_games,
            final(self).wf() == old(self).wf(),
    {
        let ghost ids = self.game_ids();
        let mut kept: Vec<GameId> = Vec::new();
        let mut i: usize = 0;
        while i < self.games.len()
            invariant
                ids == self.game_ids(),
                *self == *old(self),
                i <= ids.len(),
                forall|x: Seq<char>|
                    kept@.map_values(|g: GameId| g@).contains(x) <==> (x != game_id@
                        && ids.subrange(0, i as int).contains(x)),
            decreases ids.len() - i,
        {
            let ghost before = kept@.map_values(|g: GameId| g@);
            if self.games[i] != *game_id {
                kept.push(self.games[i].clone());
            }
            proof {
                let now = kept@.map_values(|g: GameId| g@);
                let seen = ids.subrange(0, i + 1);
                assert forall|x: Seq<char>| now.contains(x) <==> (x != game_id@ && seen.contains(x)) by {
                    if seen.contains(x) {
                        let k = choose|k: int| 0 <= k < seen.len() && seen[k] == x;
                        if k < i {
                            assert(ids.subrange(0, i as int)[k] == x);
                        }
                    }
                    if ids.subrange(0, i as int).contains(x) {
                        let k = choose|k: int| 0 <= k < i && ids.subrange(0, i as int)[k] == x;
                        assert(seen[k] == x);
                    }
                    if now.contains(x) && !before.contains(x) {
                        assert(now =~= before.push(ids[i as int]));
                        let k = choose|k: int| 0 <= k < now.len() && now[k] == x;
                        if k < before.len() {
                            assert(before[k] == x);
                        }
                        assert(seen[i as int] == x);
                    }
                    if before.contains(x) && now.len() > before.len() {
                        let k = choose|k: int| 0 <= k < before.len() && before[k] == x;
                        assert(now[k] == x);
                    }
                    if x == ids[i as int] && x != game_id@ {
                        assert(now[now.len() - 1] == x);
                    }
                }
            }
            i = i + 1;
        }
        self.games = kept;
        assert(ids.subrange(0, ids.len() as int) =~= ids);
        assert(self@.games =~= old(self)@.games.remove(game_id@));
    }

    /// Drops the binding of `player_id` and returns the round it was bound
    /// to when that round is still running: the one that must be told of the
    /// player's departure.
    pub fn disconnect_from_game(&mut self, player_id: &PlayerId) -> (r: Option<GameId>)
        requires
            old(self).wf(),
        ensures
            final(self).wf(),
            final(self)@.player_games == old(self)@.player_games.remove(player_id@),
            final(self)@.games == old(self)@.games,
            r is Some <==> old(self)@.player_games.contains_key(player_id@) && old(self)@.games.contains(
                old(self)@.player_games[player_id@],
            ),
            r is Some ==> r->0@ == old(self)@.player_games[player_id@],
    {
        let prior = self.game_of(player_id);
        self.unbind(player_id);
        match prior {
            Some(game_id) => {
                if self.has_game(&game_id) {
                    Some(game_id)
                } else {
                    None
                }
            },
            None => None,
        }
    }

    /// Registers the round `game_id` and binds `player_id` to it.
    pub fn add_game(&mut self, game_id: GameId, player_id: PlayerId)
        requires
            old(self).wf(),
        ensures
            final(self).wf(),
            final(self)@.games == old(self)@.games.insert(game_id@),
            final(self)@.player_games == old(self)@.player_games.insert(player_id@, game_id@),
    {
        self.register(game_id.clone());
        self.bind(player_id, game_id);
        assert(self@.games =~= old(self)@.games.insert(game_id@));
    }

    /// Unbinds `player_id` and, when the round it left is running and is
    /// not `keep`, appends the `Disconnect` that evicts it from there.
    fn evict(&mut self, player_id: &PlayerId, keep: Option<&GameId>, actions: &mut Vec<
        CoordinatorAction,
    >)
        requires
            old(self).wf(),
        ensures
            final(self).wf(),
            final(self)@.player_games == old(self)@.player_games.remove(player_id@),
            final(self)@.games == old(self)@.games,
            actions_view(final(actions)@) == actions_view(old(actions)@) + eviction(
                old(self)@,
                player_id@,
                match keep {
                    Some(k) => Some(k@),
                    None => None,
                },
            ),
    {
        let ghost before = actions@;
        let prior = self.disconnect_from_game(player_id);
        if let Some(game_id) = prior {
            let other = match keep {
                Some(k) => *k != game_id,
                None => true,
            };
            if other {
                let command = GameCommand::Disconnect {
                    game_id: game_id.clone(),
                    player_id: player_id.clone(),
                };
                actions.push(CoordinatorAction::Forward { game_id, command });
            }
        }
        assert(actions_view(actions@) =~= actions_view(before) + eviction(
            old(self)@,
            player_id@,
            match keep {
                Some(k) => Some(k@),
                None => None,
            },
        ));
    }
    /// Handles a `Create` by `player_id`: the player leaves any round they
    /// were in, a round is started under `game_id` on `solution` with the
    /// player as its only member, and the player is told its id.
    pub fn handle_creating_game(&mut self, player_id: PlayerId, game_id: GameId, solution: String) -> (r: Vec<CoordinatorAction>)
        requires
            old(self).wf(),
        ensures
            final(self).wf(),
            final(self)@ == create_step(old(self)@, player_id@, game_id@, solution@).0,
            actions_view(r@) == create_step(old(self)@, player_id@, game_id@, solution@).1,
            forall|i: int| 0 <= i < r@.len() ==> match #[trigger] r@[i] {
                CoordinatorAction::Spawn { game, .. } => game.wf(),
                _ => true,
            },
    {
        let mut actions: Vec<CoordinatorAction> = Vec::new();
        self.evict(&player_id, None, &mut actions);
        let ghost evicted = actions@;
        let game = Game::new(player_id.clone(), solution);
        self.add_game(game_id.clone(), player_id.clone());
        actions.push(CoordinatorAction::Spawn { game_id: game_id.clone(), game });
        actions.push(
            CoordinatorAction::Reply(
                ServerMessage::PlayerData {
                    game_id: Some(game_id.clone()),
                    player_id: Some(player_id),
                },
            ),
        );
        actions.push(
            CoordinatorAction::Reply(
                ServerMessage::Created { game_status: GameStatus::Waiting, game_id },
            ),
        );
        proof {
            let step = create_step(old(self)@, player_id@, game_id@, solution@);
            assert(self@.player_games =~= step.0.player_games);
            assert(actions_view(actions@) =~= step.1);
            assert forall|i: int| 0 <= i < actions@.len() implies match #[trigger] actions@[i] {
                CoordinatorAction::Spawn { game, .. } => game.wf(),
                _ => true,
            } by {
                if i < evicted.len() {
                    assert(actions@[i] == evicted[i]);
                    assert(actions_view(evicted)[i] is Forward);
                }
            }
        }
        actions
    }

    /// Routes a command other than `Create` (which it leaves alone) as
    /// [`route_step`] describes.
    pub fn route(&mut self, command: GameCommand) -> (r: Vec<CoordinatorAction>)
        requires
            old(self).wf(),
        ensures
            final(self).wf(),
            final(self)@ == route_step(old(self)@, command@).0,
            actions_view(r@) == route_step(old(self)@, command@).1,
            forall|i: int| 0 <= i < r@.len() ==> !(#[trigger] r@[i] is Spawn),
    {
        let ghost cmd = command@;
        let mut actions: Vec<CoordinatorAction> = Vec::new();
        match command {
            GameCommand::Create { .. } => {},
            GameCommand::Join { game_id, player_id } => {
                self.evict(&player_id, Some(&game_id), &mut actions);
                if self.has_game(&game_id) {
                    self.bind(player_id.clone(), game_id.clone());
                    let command = GameCommand::Join { game_id: game_id.clone(), player_id };
                    actions.push(CoordinatorAction::Forward { game_id, command });
                } else {
                    actions.push(CoordinatorAction::Reply(GameError::NotFound.to_message()));
                }
            },
            GameCommand::New { game_id } => {
                if self.has_game(&game_id) {
                    let command = GameCommand::New { game_id: game_id.clone() };
                    actions.push(CoordinatorAction::Forward { game_id, command });
                } else {
                    actions.push(CoordinatorAction::Reply(GameError::NotFound.to_message()));
                }
            },
            GameCommand::Guess { game_id, player_id, word } => {
                if self.has_game(&game_id) {
                    let command = GameCommand::Guess { game_id: game_id.clone(), player_id, word };
                    actions.push(CoordinatorAction::Forward { game_id, command });
                } else {
                    actions.push(CoordinatorAction::Reply(GameError::NotFound.to_message()));
                }
            },
            GameCommand::Disconnect { game_id, player_id } => {
                self.evict(&player_id, Some(&game_id), &mut actions);
                if self.has_game(&game_id) {
                    let command = GameCommand::Disconnect { game_id: game_id.clone(), player_id };
                    actions.push(CoordinatorAction::Forward { game_id, command });
                }
            },
        }
        proof {
            let step = route_step(old(self)@, cmd);
            assert(self@.player_games =~= step.0.player_games);
            assert(actions_view(actions@) =~= step.1);
            assert forall|i: int| 0 <= i < actions@.len() implies !(#[trigger] actions@[i] is Spawn) by {
                assert(actions_view(actions@)[i] == step.1[i]);
            }
        }
        actions
    }

    /// Handles one command: a `Create` draws a fresh game id and a solution
    /// from `dict` and goes to [`Self::handle_creating_game`]; any other
    /// command goes to [`Self::route`].
    pub fn handle_command(&mut self, command: GameCommand, dict: &Dictionary) -> (r: Vec<CoordinatorAction>)
        requires
            old(self).wf(),
        ensures
            final(self).wf(),
            match command@ {
                CommandView::Create { player_id } => created_somehow(
                    old(self)@,
                    final(self)@,
                    actions_view(r@),
                    player_id,
                    dict@.solutions,
                ),
                _ => final(self)@ == route_step(old(self)@, command@).0
                    && actions_view(r@) == route_step(old(self)@, command@).1,
            },
            forall|i: int| 0 <= i < r@.len() ==> match #[trigger] r@[i] {
                CoordinatorAction::Spawn { game, .. } => game.wf(),
                _ => true,
            },
    {
        match command {
            GameCommand::Create { player_id } => {
                let game_id = random_game_id();
                let solution = dict.random_solution();
                let ghost g = game_id@;
                let ghost s = solution@;
                let ghost p = player_id@;
                let r = self.handle_creating_game(player_id, game_id, solution);
                assert(created_with(old(self)@, self@, actions_view(r@), p, g, s));
                r
            },
            _ => self.route(command),
        }
    }

    /// The round under `game_id` could not be reached because its owner has
    /// stopped: takes it off the registry and returns the `NotFound` answer
    /// for the command's sender.
    pub fn handle_unreachable(&mut self, game_id: &GameId) -> (r: ServerMessage)
        ensures
            final(self)@.games == old(self)@.games.remove(game_id@),
            final(self)@.player_games == old(self)@.player_games,
            final(self).wf() == old(self).wf(),
            r@ == (ServerMessageView::Error { message: error_text(GameError::NotFound) }),
    {
        self.remove_game(game_id);
        GameError::NotFound.to_message()
    }
}

} // verus!

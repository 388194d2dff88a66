//! One round as a state machine: the only writer of its state, applying one
//! command at a time.

use vstd::prelude::*;
use crate::board::{
    all_green, keyboard_after, keyboard_map, lemma_keyboard_monotone, lemma_turn_cycle,
    lemma_turn_stays_member, members_unique, turn_after, turns_after, is_first_index, BoardState, BoardView, GameId, GameStatus, GuessResult, GuessView,
    PlayerId, MAX_GUESSES,
};
use crate::dict::Dictionary;
use crate::messages::{opt_view, GameCommand, GameError, ServerMessage, ServerMessageView};
use crate::scoring::{colors_of, score_guess, GameColor};
use crate::text::{chars_of, upper_of, uppercase};

verus! {

/// Whether a `Join` by `player` is refused: the player is new and two others
/// are already in.
pub open spec fn join_refused(b: BoardView, player: Seq<char>) -> bool {
    !b.players.contains(player) && b.players.len() >= 2
}

/// The board after `player` joins: added once at the end of the members, and
/// given the turn when the current holder is not a member.
pub open spec fn joined_board(b: BoardView, player: Seq<char>) -> BoardView {
    let players = if b.players.contains(player) {
        b.players
    } else {
        b.players.push(player)
    };
    BoardView {
        guesses: b.guesses,
        current_turn: if players.contains(b.current_turn) {
            b.current_turn
        } else {
            player
        },
        game_status: b.game_status,
        keyboard_status: b.keyboard_status,
        players,
    }
}

/// Joining again changes nothing: a member who joins the round again is not
/// listed twice and the turn stays where it was.
pub proof fn lemma_rejoin_changes_nothing(b: BoardView, player: Seq<char>)
    requires
        b.players.contains(player),
        b.players.contains(b.current_turn),
    ensures
        joined_board(b, player) == b,
        joined_board(b, player).players.len() == b.players.len(),
        joined_board(b, player).current_turn == b.current_turn,
{
}

/// Why a guess of `word` by `player` is refused, checked in this order: the
/// round is over, it is not the player's turn, the word is not accepted or
/// its length differs from the solution's.
pub open spec fn guess_error(
    b: BoardView,
    solution: Seq<char>,
    dict: Dictionary,
    player: Seq<char>,
    word: Seq<char>,
) -> Option<GameError> {
    if b.game_status == GameStatus::Won || b.game_status == GameStatus::Lost {
        Some(GameError::GameEnded)
    } else if player != b.current_turn {
        Some(GameError::TurnViolation)
    } else if !dict.accepts(word) || upper_of(word).len() != upper_of(solution).len() {
        Some(GameError::InvalidWord)
    } else {
        None
    }
}

/// The colors of `word` against `solution`, both compared in upper case.
pub open spec fn guess_colors(solution: Seq<char>, word: Seq<char>) -> Seq<GameColor> {
    colors_of(upper_of(solution), upper_of(word))
}

/// Status after the guesses `guesses`, the last one scored `colors`.
pub open spec fn status_after(colors: Seq<GameColor>, guesses: nat) -> GameStatus {
    if all_green(colors) {
        GameStatus::Won
    } else if guesses >= MAX_GUESSES {
        GameStatus::Lost
    } else {
        GameStatus::InProgress
    }
}

/// `a` is the board after an accepted guess of `word` on board `b`: the
/// scored guess is appended, the status follows from it, its colors are
/// merged into the keyboard and the turn passes on.
pub open spec fn guess_applied(b: BoardView, a: BoardView, solution: Seq<char>, word: Seq<char>) -> bool {
    let colors = guess_colors(solution, word);
    let guesses = b.guesses.push(GuessView { word, status: colors });
    &&& a.guesses == guesses
    &&& a.game_status == status_after(colors, guesses.len())
    &&& keyboard_map(a.keyboard_status) == keyboard_after(
        keyboard_map(b.keyboard_status),
        upper_of(word),
        colors,
        upper_of(word).len() as int,
    )
    &&& a.current_turn == turn_after(b.players, b.current_turn)
    &&& a.players == b.players
}

/// `a` is the board after `player` leaves board `b`: the player is removed
/// from the members, and when they held the turn it passes to the member who
/// followed them.
pub open spec fn left_board(b: BoardView, a: BoardView, player: Seq<char>) -> bool {
    &&& a.current_turn == if b.current_turn == player {
        turn_after(b.players, player)
    } else {
        b.current_turn
    }
    &&& forall|i: int| is_first_index(b.players, player, i) ==> a.players == b.players.remove(i)
    &&& !b.players.contains(player) ==> a.players == b.players
    &&& a.guesses == b.guesses
    &&& a.game_status == b.game_status
    &&& a.keyboard_status == b.keyboard_status
}

/// The board of a fresh round after one that `first` started: same
/// members, the first turn to the member after `first`, no guesses, empty
/// keyboard.
pub open spec fn reset_board(b: BoardView, first: Seq<char>) -> BoardView {
    BoardView {
        guesses: Seq::empty(),
        current_turn: turn_after(b.players, first),
        game_status: GameStatus::InProgress,
        keyboard_status: Seq::empty(),
        players: b.players,
    }
}

/// Turn order over accepted guesses: along a run of accepted guesses the
/// members stay the same and the turn after `k` of them is
/// `turns_after(players, first holder, k)`; after as many accepted guesses
/// as there are members, the turn is back with the member who held it.
pub proof fn lemma_turn_returns_after_full_cycle(
    boards: Seq<BoardView>,
    solution: Seq<char>,
    words: Seq<Seq<char>>,
)
    requires
        boards.len() == words.len() + 1,
        members_unique(boards[0].players),
        boards[0].players.contains(boards[0].current_turn),
        forall|k: int|
            0 <= k < words.len() ==> #[trigger] guess_applied(
                boards[k],
                boards[k + 1],
                solution,
                words[k],
            ),
    ensures
        forall|k: int|
            0 <= k < boards.len() ==> #[trigger] boards[k].players == boards[0].players
                && boards[k].current_turn == turns_after(
                boards[0].players,
                boards[0].current_turn,
                k as nat,
            ),
        words.len() == boards[0].players.len() ==> boards[words.len() as int].current_turn
            == boards[0].current_turn,
{
    let ids = boards[0].players;
    let start = boards[0].current_turn;
    assert forall|k: int| 0 <= k < boards.len() implies #[trigger] boards[k].players == ids
        && boards[k].current_turn == turns_after(ids, start, k as nat) by {
        lemma_run_prefix(boards, solution, words, k);
    }
    if words.len() == ids.len() {
        let i = choose|i: int| 0 <= i < ids.len() && ids[i] == start;
        lemma_turn_cycle(ids, i, ids.len());
        assert(boards[words.len() as int].players == ids);
    }
}

proof fn lemma_run_prefix(boards: Seq<BoardView>, solution: Seq<char>, words: Seq<Seq<char>>, k: int)
    requires
        boards.len() == words.len() + 1,
        forall|j: int|
            0 <= j < words.len() ==> #[trigger] guess_applied(
                boards[j],
                boards[j + 1],
                solution,
                words[j],
            ),
        0 <= k < boards.len(),
    ensures
        boards[k].players == boards[0].players,
        boards[k].current_turn == turns_after(boards[0].players, boards[0].current_turn, k as nat),
    decreases k,
{
    if k > 0 {
        lemma_run_prefix(boards, solution, words, k - 1);
        let j = k - 1;
        assert(guess_applied(boards[j], boards[j + 1], solution, words[j]));
        assert(j + 1 == k);
    }
}

/// What the round's owner does after applying one command.
#[derive(Debug, PartialEq, Eq)]
pub enum GameOutcome {
    /// Send the event to every member.
    Broadcast(ServerMessage),
    /// A player joined: send `broadcast` to every member, then `player_data`
    /// to the player who joined.
    Joined { broadcast: ServerMessage, player_data: ServerMessage },
    /// The command was refused: report the error to its sender only.
    Rejected(GameError),
    /// No member is left: the round ends.
    Stop,
    /// The command is not one a round handles.
    Ignored,
}

/// One round: its hidden solution, the member who took its first turn,
/// and the state its members see.
pub struct Game {
    solution_word: String,
    first_turn: PlayerId,
    board_state: BoardState,
}

impl Game {
    /// The solution of the round.
    pub closed spec fn solution(&self) -> Seq<char> {
        self.solution_word@
    }

    /// The member who took the round's first turn; when they leave, the
    /// member who followed them stands in.
    pub closed spec fn first_turn(&self) -> Seq<char> {
        self.first_turn@
    }

    /// The state the members see.
    pub closed spec fn board(&self) -> BoardView {
        self.board_state@
    }

    /// The round's invariant: members unique and at most two, the turn and
    /// the first turn held by members whenever there is one, keyboard
    /// letters unique, at most
    /// [`MAX_GUESSES`] guesses, fewer while the round is in progress, and the
    /// status never `Waiting`.
    pub closed spec fn wf(&self) -> bool {
        let b = self.board_state@;
        &&& self.board_state.wf()
        &&& b.players.len() <= 2
        &&& b.players.len() > 0 ==> b.players.contains(b.current_turn)
        &&& b.players.len() > 0 ==> b.players.contains(self.first_turn@)
        &&& b.game_status != GameStatus::Waiting
        &&& b.guesses.len() <= MAX_GUESSES
        &&& b.game_status == GameStatus::InProgress ==> b.guesses.len() < MAX_GUESSES
    }

    /// A round in progress with `player_id` as its only member, holding the
    /// turn.
    pub fn new(player_id: PlayerId, solution: String) -> (g: Self)
        ensures
            g.wf(),
            g.solution() == solution@,
            g.first_turn() == player_id@,
            g.board() == (BoardView {
                guesses: Seq::empty(),
                current_turn: player_id@,
                game_status: GameStatus::InProgress,
                keyboard_status: Seq::empty(),
                players: seq![player_id@],
            }),
    {
        let mut players: Vec<PlayerId> = Vec::new();
        players.push(player_id.clone());
        let first_turn = player_id.clone();
        let board_state = BoardState {
            guesses: Vec::new(),
            current_turn: player_id,
            game_status: GameStatus::InProgress,
            keyboard_status: Vec::new(),
            players,
        };
        let g = Game { solution_word: solution, first_turn, board_state };
        assert(g.board_state@.players =~= seq![g.board_state.current_turn@]);
        assert(g.board_state@.guesses =~= Seq::empty());
        assert(g.board_state@.keyboard_status =~= Seq::empty());
        assert(g.board_state@.players[0] == g.board_state@.current_turn);
        g
    }

    /// The state the members see.
    pub fn board_state(&self) -> (r: &BoardState)
        ensures
            r@ == self.board(),
    {
        &self.board_state
    }

    /// Whether the round is won or lost.
    pub fn has_ended(&self) -> (r: bool)
        ensures
            r == (self.board().game_status == GameStatus::Won || self.board().game_status
                == GameStatus::Lost),
    {
        match self.board_state.game_status {
            GameStatus::Won | GameStatus::Lost => true,
            _ => false,
        }
    }

    /// Whether `player_id` is a member.
    pub fn has_player(&self, player_id: &PlayerId) -> (r: bool)
        ensures
            r == self.board().players.contains(player_id@),
    {
        self.board_state.has_player(player_id)
    }

    /// Starts a fresh round on `solution`, keeping the members; the first
    /// turn goes to the member after the one who took the previous round's
    /// first turn.
    pub fn reset(&mut self, solution: String)
        requires
            old(self).wf(),
        ensures
            final(self).wf(),
            final(self).solution() == solution@,
            final(self).first_turn() == turn_after(old(self).board().players, old(self).first_turn()),
            final(self).board() == reset_board(old(self).board(), old(self).first_turn()),
    {
        let ghost b = self.board_state@;
        let ghost first = self.first_turn@;
        self.solution_word = solution;
        self.first_turn = self.board_state.holder_after(&self.first_turn);
        self.board_state.current_turn = self.first_turn.clone();
        self.board_state.guesses = Vec::new();
        self.board_state.keyboard_status = Vec::new();
        self.board_state.game_status = GameStatus::InProgress;
        proof {
            if b.players.len() > 0 {
                let i = choose|i: int| 0 <= i < b.players.len() && b.players[i] == first;
                lemma_turn_stays_member(b.players, i);
            }
        }
        assert(self.board_state@.guesses =~= Seq::empty());
        assert(self.board_state@.keyboard_status =~= Seq::empty());
        assert(self.board_state@.players =~= b.players);
        assert(self.board() =~= reset_board(b, first));
    }

    /// Scores `guess` against the solution, both in upper case; `None` when
    /// the two differ in length.
    pub fn check_guess(&self, guess: String) -> (r: Option<GuessResult>)
        ensures
            r is None <==> upper_of(guess@).len() != upper_of(self.solution()).len(),
            r is Some ==> r->0@ == (GuessView {
                word: guess@,
                status: guess_colors(self.solution(), guess@),
            }),
    {
        let solution_letters = chars_of(uppercase(self.solution_word.as_str()).as_str());
        let guess_letters = chars_of(uppercase(guess.as_str()).as_str());
        if solution_letters.len() != guess_letters.len() {
            return None;
        }
        let status = score_guess(&solution_letters, &guess_letters);
        Some(GuessResult { word: guess, status })
    }

    /// Adds `player_id` to the round, or refuses with `GameFull` when two
    /// other players are already in. A player already in changes nothing.
    pub fn handle_join(&mut self, player_id: PlayerId, game_id: GameId) -> (r: Result<
        ServerMessage,
        GameError,
    >)
        requires
            old(self).wf(),
        ensures
            final(self).wf(),
            final(self).solution() == old(self).solution(),
            r is Err <==> join_refused(old(self).board(), player_id@),
            r is Err ==> r == Err::<ServerMessage, GameError>(GameError::GameFull) && final(self).board() == old(self).board() && final(self).first_turn() == old(self).first_turn(),
            r is Ok ==> final(self).board() == joined_board(old(self).board(), player_id@),
            r is Ok ==> final(self).first_turn() == if final(self).board().players.contains(
                old(self).first_turn(),
            ) {
                old(self).first_turn()
            } else {
                player_id@
            },
            r is Ok ==> r->Ok_0@ == (ServerMessageView::Joined {
                board_state: final(self).board(),
                game_id: game_id@,
            }),
            old(self).board().players.contains(player_id@) ==> final(self).board() == old(self).board()
                && final(self).first_turn() == old(self).first_turn(),
    {
        let present = self.board_state.has_player(&player_id);
        if !present && self.board_state.players.len() >= 2 {
            return Err(GameError::GameFull);
        }
        let ghost b = self.board_state@;
        self.board_state.add_player(player_id.clone());
        if !self.board_state.has_player(&self.first_turn) {
            self.first_turn = player_id.clone();
            assert(self.board_state@.players.contains(self.first_turn@)) by {
                let last = self.board_state@.players.len() - 1;
                assert(self.board_state@.players[last] == self.first_turn@);
            }
        }
        if !self.board_state.has_player(&self.board_state.current_turn) {
            self.board_state.current_turn = player_id;
            assert(self.board_state@.players.contains(self.board_state@.current_turn)) by {
                let last = self.board_state@.players.len() - 1;
                assert(self.board_state@.players[last] == self.board_state@.current_turn);
            }
        }
        assert(self.board_state@ == joined_board(b, player_id@));
        Ok(ServerMessage::Joined { board_state: self.board_state.snapshot(), game_id })
    }

    /// Starts a fresh round on `solution` and reports its board.
    pub fn handle_new(&mut self, solution: String) -> (r: ServerMessage)
        requires
            old(self).wf(),
        ensures
            final(self).wf(),
            final(self).solution() == solution@,
            final(self).first_turn() == turn_after(old(self).board().players, old(self).first_turn()),
            final(self).board() == reset_board(old(self).board(), old(self).first_turn()),
            r@ == (ServerMessageView::NewGame { board_state: final(self).board() }),
    {
        self.reset(solution);
        ServerMessage::NewGame { board_state: self.board_state.snapshot() }
    }

    /// Applies a guess of `word` by `player_id`, or refuses it. Once all
    /// letters are Green the round is won; a sixth guess that is not wins
    /// loses it; either way the event reveals the solution.
    pub fn handle_guess(&mut self, player_id: PlayerId, word: String, dict: &Dictionary) -> (r:
        Result<ServerMessage, GameError>)
        requires
            old(self).wf(),
        ensures
            final(self).wf(),
            final(self).solution() == old(self).solution(),
            final(self).first_turn() == old(self).first_turn(),
            match guess_error(old(self).board(), old(self).solution(), *dict, player_id@, word@) {
                Some(e) => r == Err::<ServerMessage, GameError>(e) && final(self).board() == old(self).board(),
                None => r is Ok && guess_applied(
                    old(self).board(),
                    final(self).board(),
                    old(self).solution(),
                    word@,
                ) && r->Ok_0@ == (ServerMessageView::GameUpdate {
                    board_state: final(self).board(),
                    solution: if final(self).board().game_status == GameStatus::InProgress {
                        None
                    } else {
                        Some(old(self).solution())
                    },
                }),
            },
            forall|c: char|
                #[trigger] keyboard_map(old(self).board().keyboard_status).contains_key(c)
                    && keyboard_map(old(self).board().keyboard_status)[c] == GameColor::Green
                    ==> keyboard_map(final(self).board().keyboard_status).contains_key(c)
                    && keyboard_map(final(self).board().keyboard_status)[c] == GameColor::Green,
    {
        let ghost b = self.board_state@;
        if self.has_ended() {
            return Err(GameError::GameEnded);
        }
        if self.board_state.current_turn != player_id {
            return Err(GameError::TurnViolation);
        }
        if !dict.valid_guess(word.as_str()) {
            return Err(GameError::InvalidWord);
        }
        let letters = chars_of(uppercase(word.as_str()).as_str());
        let ghost w = word@;
        let guess = match self.check_guess(word) {
            Some(g) => g,
            None => {
                return Err(GameError::InvalidWord);
            },
        };
        let win = guess.is_win();
        self.board_state.update_keyboard_status(&letters, &guess.status);
        let ghost colors = guess.status@;
        let ghost gv = guess@;
        self.board_state.guesses.push(guess);
        assert(self.board_state@.guesses =~= b.guesses.push(gv));
        let mut solution: Option<String> = None;
        if win {
            self.board_state.game_status = GameStatus::Won;
            solution = Some(self.solution_word.clone());
        } else if self.board_state.guesses.len() >= MAX_GUESSES {
            self.board_state.game_status = GameStatus::Lost;
            solution = Some(self.solution_word.clone());
        }
        self.board_state.next_turn();
        proof {
            if b.players.len() > 0 {
                let i = choose|i: int| 0 <= i < b.players.len() && b.players[i] == b.current_turn;
                lemma_turn_stays_member(b.players, i);
            }
            assert forall|c: char|
                #[trigger] keyboard_map(b.keyboard_status).contains_key(c) && keyboard_map(
                    b.keyboard_status,
                )[c] == GameColor::Green implies keyboard_map(
                self.board_state@.keyboard_status,
            ).contains_key(c) && keyboard_map(self.board_state@.keyboard_status)[c]
                == GameColor::Green by {
                lemma_keyboard_monotone(
                    keyboard_map(b.keyboard_status),
                    upper_of(w),
                    colors,
                    upper_of(w).len() as int,
                    c,
                );
            }
        }
        Ok(ServerMessage::GameUpdate { board_state: self.board_state.snapshot(), solution })
    }

    /// Removes `player_id` from the round; when they held the turn it passes
    /// to the member who followed them. `None` when no member is left.
    pub fn handle_disconnect(&mut self, player_id: PlayerId) -> (r: Option<ServerMessage>)
        requires
            old(self).wf(),
        ensures
            final(self).wf(),
            final(self).solution() == old(self).solution(),
            left_board(old(self).board(), final(self).board(), player_id@),
            final(self).first_turn() == if old(self).first_turn() == player_id@ {
                turn_after(old(self).board().players, player_id@)
            } else {
                old(self).first_turn()
            },
            r is None <==> final(self).board().players.len() == 0,
            r is Some ==> r->0@ == (ServerMessageView::GameUpdate {
                board_state: final(self).board(),
                solution: None,
            }),
    {
        let ghost b = self.board_state@;
        let ghost ids = b.players;
        let n = self.board_state.players.len();
        let mut idx: usize = n;
        let mut i: usize = 0;
        while i < n
            invariant
                n == ids.len(),
                ids == self.board_state@.players,
                i <= n,
                idx == n ==> forall|k: int| 0 <= k < i ==> ids[k] != player_id@,
                idx != n ==> is_first_index(ids, player_id@, idx as int),
            decreases n - i,
        {
            if idx == n && self.board_state.players[i] == player_id {
                idx = i;
            }
            i = i + 1;
        }
        if self.first_turn == player_id {
            self.first_turn = self.board_state.holder_after(&player_id);
        }
        if self.board_state.current_turn == player_id {
            self.board_state.next_turn();
        }
        let ghost turn = self.board_state@.current_turn;
        let ghost first = self.first_turn@;
        proof {
            if ids.len() > 0 {
                let j = choose|j: int| 0 <= j < ids.len() && ids[j] == b.current_turn;
                lemma_turn_stays_member(ids, j);
                let j2 = choose|j: int| 0 <= j < ids.len() && ids[j] == old(self).first_turn@;
                lemma_turn_stays_member(ids, j2);
            }
        }
        if idx < n {
            self.board_state.players.remove(idx);
            proof {
                let rest = ids.remove(idx as int);
                assert(self.board_state@.players =~= rest);
                assert forall|j: int| is_first_index(ids, player_id@, j) implies j == idx by {
                    if j > idx {
                        assert(ids[idx as int] == player_id@);
                    }
                }
                assert forall|p: int, q: int| 0 <= p < q < rest.len() implies rest[p] != rest[q] by {
                    let p0 = if p < idx { p } else { p + 1 };
                    let q0 = if q < idx { q } else { q + 1 };
                    assert(rest[p] == ids[p0] && rest[q] == ids[q0]);
                }
                if rest.len() > 0 {
                    let t = choose|t: int| 0 <= t < ids.len() && ids[t] == turn;
                    assert(t != idx);
                    let t1 = if t < idx { t } else { t - 1 };
                    assert(rest[t1] == turn);
                    let f = choose|f: int| 0 <= f < ids.len() && ids[f] == first;
                    assert(f != idx);
                    let f1 = if f < idx { f } else { f - 1 };
                    assert(rest[f1] == first);
                }
            }
        } else {
            assert(!ids.contains(player_id@));
        }
        if self.board_state.players.len() == 0 {
            return None;
        }
        Some(ServerMessage::GameUpdate { board_state: self.board_state.snapshot(), solution: None })
    }
    /// Applies one command to the round and says what its owner must send.
    /// A `New` draws the fresh solution from `dict`.
    pub fn process_command(&mut self, command: GameCommand, dict: &Dictionary) -> (r: GameOutcome)
        requires
            old(self).wf(),
        ensures
            final(self).wf(),
            match command {
                GameCommand::Create { .. } => r is Ignored && final(self).board() == old(self).board()
                    && final(self).solution() == old(self).solution(),
                GameCommand::Join { game_id, player_id } => final(self).solution() == old(self).solution()
                    && if join_refused(old(self).board(), player_id@) {
                    r == GameOutcome::Rejected(GameError::GameFull) && final(self).board() == old(self).board()
                } else {
                    final(self).board() == joined_board(old(self).board(), player_id@) && match r {
                        GameOutcome::Joined { broadcast, player_data } => broadcast@
                            == (ServerMessageView::Joined {
                            board_state: final(self).board(),
                            game_id: game_id@,
                        }) && player_data@ == (ServerMessageView::PlayerData {
                            game_id: Some(game_id@),
                            player_id: Some(player_id@),
                        }),
                        _ => false,
                    }
                },
                GameCommand::New { .. } => dict@.solutions.contains(final(self).solution())
                    && final(self).board() == reset_board(old(self).board(), old(self).first_turn()) && match r {
                    GameOutcome::Broadcast(m) => m@ == (ServerMessageView::NewGame {
                        board_state: final(self).board(),
                    }),
                    _ => false,
                },
                GameCommand::Guess { player_id, word, .. } => final(self).solution() == old(self).solution()
                    && match guess_error(old(self).board(), old(self).solution(), *dict, player_id@, word@) {
                    Some(e) => r == GameOutcome::Rejected(e) && final(self).board() == old(self).board(),
                    None => guess_applied(
                        old(self).board(),
                        final(self).board(),
                        old(self).solution(),
                        word@,
                    ) && match r {
                        GameOutcome::Broadcast(m) => m@ == (ServerMessageView::GameUpdate {
                            board_state: final(self).board(),
                            solution: if final(self).board().game_status == GameStatus::InProgress {
                                None
                            } else {
                                Some(old(self).solution())
                            },
                        }),
                        _ => false,
                    },
                },
                GameCommand::Disconnect { player_id, .. } => final(self).solution() == old(self).solution()
                    && left_board(old(self).board(), final(self).board(), player_id@) && if final(self).board().players.len() == 0 {
                    r is Stop
                } else {
                    match r {
                        GameOutcome::Broadcast(m) => m@ == (ServerMessageView::GameUpdate {
                            board_state: final(self).board(),
                            solution: None,
                        }),
                        _ => false,
                    }
                },
            },
    {
        match command {
            GameCommand::Create { .. } => GameOutcome::Ignored,
            GameCommand::Join { game_id, player_id } => {
                match self.handle_join(player_id.clone(), game_id.clone()) {
                    Ok(broadcast) => GameOutcome::Joined {
                        broadcast,
                        player_data: ServerMessage::PlayerData {
                            game_id: Some(game_id),
                            player_id: Some(player_id),
                        },
                    },
                    Err(e) => GameOutcome::Rejected(e),
                }
            },
            GameCommand::New { .. } => {
                let solution = dict.random_solution();
                GameOutcome::Broadcast(self.handle_new(solution))
            },
            GameCommand::Guess { player_id, word, .. } => {
                match self.handle_guess(player_id, word, dict) {
                    Ok(m) => GameOutcome::Broadcast(m),
                    Err(e) => GameOutcome::Rejected(e),
                }
            },
            GameCommand::Disconnect { player_id, .. } => {
                match self.handle_disconnect(player_id) {
                    Some(m) => GameOutcome::Broadcast(m),
                    None => GameOutcome::Stop,
                }
            },
        }
    }
}

} // verus!

//! The state of one round that every player sees: guesses, turn, status,
//! keyboard colors and members.

use vstd::prelude::*;
use crate::pairs::{
    keys_distinct, lemma_pairs_absent, lemma_pairs_lookup, lemma_pairs_push, lemma_pairs_update,
    map_of_pairs,
};
use crate::scoring::GameColor;

verus! {

/// Identifies one connected player.
pub type PlayerId = String;

/// Identifies one running round.
pub type GameId = String;

/// Most guesses a round allows.
pub const MAX_GUESSES: usize = 6;

/// Where a round stands.
#[derive(Clone, Copy, Debug, PartialEq, Eq, Structural)]
pub enum GameStatus {
    Waiting,
    InProgress,
    Won,
    Lost,
}

/// One scored guess: the word as submitted and one color per letter.
#[derive(Clone, Debug, PartialEq, Eq)]
pub struct GuessResult {
    pub word: String,
    pub status: Vec<GameColor>,
}

/// Mathematical value of a [`GuessResult`].
pub struct GuessView {
    pub word: Seq<char>,
    pub status: Seq<GameColor>,
}

impl View for GuessResult {
    type V = GuessView;

    open spec fn view(&self) -> GuessView {
        GuessView { word: self.word@, status: self.status@ }
    }
}

/// Every letter of the guess is Green.
pub open spec fn all_green(status: Seq<GameColor>) -> bool {
    forall|i: int| 0 <= i < status.len() ==> status[i] == GameColor::Green
}

impl GuessResult {
    /// A result for `word` with every letter still Gray.
    pub fn new(word: String) -> (r: Self)
        ensures
            r.word == word,
            r.status@ == Seq::new(word@.len(), |i: int| GameColor::Gray),
    {
        let n = word.as_str().unicode_len();
        let mut status: Vec<GameColor> = Vec::new();
        let mut i: usize = 0;
        while i < n
            invariant
                i <= n,
                status@ == Seq::new(i as nat, |k: int| GameColor::Gray),
            decreases n - i,
        {
            status.push(GameColor::Gray);
            i = i + 1;
            assert(status@ =~= Seq::new(i as nat, |k: int| GameColor::Gray));
        }
        GuessResult { word, status }
    }

    /// Whether every letter scored Green.
    pub fn is_win(&self) -> (r: bool)
        ensures
            r == all_green(self.status@),
    {
        let mut i: usize = 0;
        while i < self.status.len()
            invariant
                i <= self.status@.len(),
                forall|k: int| 0 <= k < i ==> self.status@[k] == GameColor::Green,
            decreases self.status@.len() - i,
        {
            if self.status[i] != GameColor::Green {
                return false;
            }
            i = i + 1;
        }
        true
    }

    /// An independent copy with the same word and colors.
    pub fn snapshot(&self) -> (r: Self)
        ensures
            r@ == self@,
    {
        let mut status: Vec<GameColor> = Vec::new();
        let mut i: usize = 0;
        while i < self.status.len()
            invariant
                i <= self.status@.len(),
                status@ == self.status@.subrange(0, i as int),
            decreases self.status@.len() - i,
        {
            status.push(self.status[i]);
            i = i + 1;
            assert(status@ =~= self.status@.subrange(0, i as int));
        }
        assert(status@ =~= self.status@);
        GuessResult { word: self.word.clone(), status }
    }
}

/// Aggregate keyboard color of each letter guessed so far, as a map.
pub open spec fn keyboard_map(kb: Seq<(char, GameColor)>) -> Map<char, GameColor> {
    map_of_pairs(kb)
}

/// No letter has two keyboard entries.
pub open spec fn keys_unique(kb: Seq<(char, GameColor)>) -> bool {
    keys_distinct(kb)
}

/// Merge rule for one letter: the more informative of the old and new colors.
pub open spec fn merged(previous: Option<GameColor>, color: GameColor) -> GameColor {
    match previous {
        Some(p) => if p.rank() >= color.rank() {
            p
        } else {
            color
        },
        None => color,
    }
}

/// What the keyboard becomes after merging the first `n` letters of a guess.
pub open spec fn keyboard_after(
    kb: Map<char, GameColor>,
    letters: Seq<char>,
    colors: Seq<GameColor>,
    n: int,
) -> Map<char, GameColor>
    decreases n,
{
    if n <= 0 {
        kb
    } else {
        let prev = keyboard_after(kb, letters, colors, n - 1);
        let letter = letters[n - 1];
        let current = if prev.contains_key(letter) {
            Some(prev[letter])
        } else {
            None
        };
        prev.insert(letter, merged(current, colors[n - 1]))
    }
}

/// The round state shared with every member.
#[derive(Clone, Debug, PartialEq, Eq)]
pub struct BoardState {
    pub guesses: Vec<GuessResult>,
    pub current_turn: PlayerId,
    pub game_status: GameStatus,
    pub keyboard_status: Vec<(char, GameColor)>,
    pub players: Vec<PlayerId>,
}

/// Mathematical value of a [`BoardState`].
pub struct BoardView {
    pub guesses: Seq<GuessView>,
    pub current_turn: Seq<char>,
    pub game_status: GameStatus,
    pub keyboard_status: Seq<(char, GameColor)>,
    pub players: Seq<Seq<char>>,
}

impl View for BoardState {
    type V = BoardView;

    open spec fn view(&self) -> BoardView {
        BoardView {
            guesses: self.guesses@.map_values(|g: GuessResult| g@),
            current_turn: self.current_turn@,
            game_status: self.game_status,
            keyboard_status: self.keyboard_status@,
            players: self.players@.map_values(|p: PlayerId| p@),
        }
    }
}

/// `i` is the first position of `id` in `ids`.
pub open spec fn is_first_index(ids: Seq<Seq<char>>, id: Seq<char>, i: int) -> bool {
    &&& 0 <= i < ids.len()
    &&& ids[i] == id
    &&& forall|k: int| 0 <= k < i ==> ids[k] != id
}

/// The turn holder after `id`: the member following its first position,
/// wrapping past the last; `id` itself when it is not a member.
pub open spec fn turn_after(ids: Seq<Seq<char>>, id: Seq<char>) -> Seq<char> {
    if exists|i: int| is_first_index(ids, id, i) {
        let i = choose|i: int| is_first_index(ids, id, i);
        ids[(i + 1) % (ids.len() as int)]
    } else {
        id
    }
}

/// The turn holder after `k` turn changes starting from `id`.
pub open spec fn turns_after(ids: Seq<Seq<char>>, id: Seq<char>, k: nat) -> Seq<char>
    decreases k,
{
    if k == 0 {
        id
    } else {
        turn_after(ids, turns_after(ids, id, (k - 1) as nat))
    }
}

/// No member is listed twice.
pub open spec fn members_unique(ids: Seq<Seq<char>>) -> bool {
    forall|i: int, j: int| 0 <= i < j < ids.len() ==> ids[i] != ids[j]
}

/// With distinct members, the turn passes from the member at position `i`
/// to the one at position `i + 1`, wrapping past the last.
pub proof fn lemma_turn_step(ids: Seq<Seq<char>>, i: int)
    requires
        members_unique(ids),
        0 <= i < ids.len(),
    ensures
        turn_after(ids, ids[i]) == ids[(i + 1) % (ids.len() as int)],
{
    assert(is_first_index(ids, ids[i], i));
    assert forall|j: int| is_first_index(ids, ids[i], j) implies j == i by {
        if j < i {
            assert(ids[j] != ids[i]);
        }
        if j > i {
            assert(ids[i] != ids[j]);
        }
    }
}

/// Passing the turn from a member lands on a member, and on another one
/// when there are at least two.
pub proof fn lemma_turn_stays_member(ids: Seq<Seq<char>>, i: int)
    requires
        members_unique(ids),
        0 <= i < ids.len(),
    ensures
        ids.contains(turn_after(ids, ids[i])),
        ids.len() >= 2 ==> turn_after(ids, ids[i]) != ids[i],
{
    let n = ids.len() as int;
    lemma_turn_step(ids, i);
    let j = (i + 1) % n;
    if i + 1 < n {
        vstd::arithmetic::div_mod::lemma_small_mod((i + 1) as nat, n as nat);
    } else {
        vstd::arithmetic::div_mod::lemma_mod_self_0(n);
    }
    assert(0 <= j < n);
    assert(ids[j] == turn_after(ids, ids[i]));
    if n >= 2 {
        assert(j != i);
    }
}

/// The turn cycles through the members in join order: starting from the
/// member at position `i`, after `k` turn changes the holder is the member
/// at position `(i + k) mod |players|`, so after `|players|` changes the turn
/// is back with the member who held it.
pub proof fn lemma_turn_cycle(ids: Seq<Seq<char>>, i: int, k: nat)
    requires
        members_unique(ids),
        0 <= i < ids.len(),
    ensures
        turns_after(ids, ids[i], k) == ids[(i + k) % (ids.len() as int)],
        k == ids.len() ==> turns_after(ids, ids[i], k) == ids[i],
    decreases k,
{
    let n = ids.len() as int;
    if k == 0 {
        assert(i % n == i) by (nonlinear_arith)
            requires
                0 <= i < n,
        ;
    } else {
        lemma_turn_cycle(ids, i, (k - 1) as nat);
        let j = (i + k - 1) % n;
        assert(0 <= j < n) by (nonlinear_arith)
            requires
                n > 0,
                j == (i + k - 1) % n,
        ;
        lemma_turn_step(ids, j);
        assert((j + 1) % n == (i + k) % n) by {
            vstd::arithmetic::div_mod::lemma_add_mod_noop_right(1, i + k - 1, n);
        }
    }
    if k == n {
        assert((i + n) % n == i) by {
            vstd::arithmetic::div_mod::lemma_mod_add_multiples_vanish(i, n);
            vstd::arithmetic::div_mod::lemma_small_mod(i as nat, n as nat);
        }
    }
}

/// The merge never lowers a letter's color: every letter on the keyboard
/// stays there, at least as informative as before; in particular a Green
/// letter stays Green whatever the later guesses score.
pub proof fn lemma_keyboard_monotone(
    kb: Map<char, GameColor>,
    letters: Seq<char>,
    colors: Seq<GameColor>,
    n: int,
    c: char,
)
    requires
        0 <= n <= letters.len(),
        letters.len() == colors.len(),
        kb.contains_key(c),
    ensures
        keyboard_after(kb, letters, colors, n).contains_key(c),
        keyboard_after(kb, letters, colors, n)[c].rank() >= kb[c].rank(),
        kb[c] == GameColor::Green ==> keyboard_after(kb, letters, colors, n)[c]
            == GameColor::Green,
    decreases n,
{
    if n > 0 {
        lemma_keyboard_monotone(kb, letters, colors, n - 1, c);
    }
}

impl BoardState {
    /// The state's invariant: members and keyboard letters are unique.
    pub open spec fn wf(&self) -> bool {
        &&& members_unique(self@.players)
        &&& keys_unique(self.keyboard_status@)
    }

    /// Whether `player_id` is a member.
    pub fn has_player(&self, player_id: &PlayerId) -> (r: bool)
        ensures
            r == self@.players.contains(player_id@),
    {
        let mut i: usize = 0;
        while i < self.players.len()
            invariant
                i <= self.players@.len(),
                forall|k: int| 0 <= k < i ==> self.players@[k]@ != player_id@,
            decreases self.players@.len() - i,
        {
            if self.players[i] == *player_id {
                assert(self@.players[i as int] == player_id@);
                return true;
            }
            i = i + 1;
        }
        assert(!self@.players.contains(player_id@)) by {
            if self@.players.contains(player_id@) {
                let k = choose|k: int| 0 <= k < self@.players.len() && self@.players[k] == player_id@;
                assert(self.players@[k]@ == player_id@);
            }
        }
        false
    }

    /// Appends `player_id` to the members unless it is one already.
    pub fn add_player(&mut self, player_id: PlayerId)
        ensures
            final(self)@.players == if old(self)@.players.contains(player_id@) {
                old(self)@.players
            } else {
                old(self)@.players.push(player_id@)
            },
            final(self)@.guesses == old(self)@.guesses,
            final(self)@.current_turn == old(self)@.current_turn,
            final(self)@.game_status == old(self)@.game_status,
            final(self)@.keyboard_status == old(self)@.keyboard_status,
            old(self).wf() ==> final(self).wf(),
    {
        if !self.has_player(&player_id) {
            let ghost id = player_id@;
            self.players.push(player_id);
            assert(self@.players =~= old(self)@.players.push(id));
        }
    }

    /// The member who takes the turn after `id`: the one following its
    /// first position, wrapping past the last; `id` itself when it is not a
    /// member.
    pub fn holder_after(&self, id: &PlayerId) -> (r: PlayerId)
        ensures
            r@ == turn_after(self@.players, id@),
    {
        let num_players = self.players.len();
        let ghost ids = self@.players;
        let mut i: usize = 0;
        while i < num_players
            invariant
                num_players == self.players@.len() == ids.len(),
                ids == self@.players,
                i <= num_players,
                forall|k: int| 0 <= k < i ==> ids[k] != id@,
            decreases num_players - i,
        {
            if self.players[i] == *id {
                let next_index = (i + 1) % num_players;
                assert(is_first_index(ids, id@, i as int));
                assert forall|j: int| is_first_index(ids, id@, j) implies j == i by {
                    if j > i {
                        assert(ids[i as int] == id@);
                    }
                }
                return self.players[next_index].clone();
            }
            i = i + 1;
        }
        id.clone()
    }

    /// Passes the turn to the member after the current holder, wrapping past
    /// the last; leaves it unchanged when the holder is not a member.
    pub fn next_turn(&mut self)
        ensures
            final(self)@.current_turn == turn_after(old(self)@.players, old(self)@.current_turn),
            final(self)@.players == old(self)@.players,
            final(self)@.guesses == old(self)@.guesses,
            final(self)@.game_status == old(self)@.game_status,
            final(self)@.keyboard_status == old(self)@.keyboard_status,
            final(self).wf() == old(self).wf(),
    {
        let next_player = self.holder_after(&self.current_turn);
        self.current_turn = next_player;
        assert(self@.players =~= old(self)@.players);
        assert(self@.guesses =~= old(self)@.guesses);
    }

    /// Merges the colors of one scored guess into the keyboard, letter by
    /// letter, keeping for each letter the more informative color.
    pub fn update_keyboard_status(&mut self, letters: &Vec<char>, colors: &Vec<GameColor>)
        requires
            letters@.len() == colors@.len(),
            keys_unique(old(self).keyboard_status@),
        ensures
            keys_unique(final(self).keyboard_status@),
            keyboard_map(final(self)@.keyboard_status) == keyboard_after(
                keyboard_map(old(self)@.keyboard_status),
                letters@,
                colors@,
                letters@.len() as int,
            ),
            final(self)@.players == old(self)@.players,
            final(self)@.guesses == old(self)@.guesses,
            final(self)@.current_turn == old(self)@.current_turn,
            final(self)@.game_status == old(self)@.game_status,
    {
        let ghost start = keyboard_map(self.keyboard_status@);
        let mut i: usize = 0;
        while i < letters.len()
            invariant
                letters@.len() == colors@.len(),
                i <= letters@.len(),
                keys_unique(self.keyboard_status@),
                keyboard_map(self.keyboard_status@) == keyboard_after(
                    start,
                    letters@,
                    colors@,
                    i as int,
                ),
                self@.players == old(self)@.players,
                self@.guesses == old(self)@.guesses,
                self@.current_turn == old(self)@.current_turn,
                self@.game_status == old(self)@.game_status,
            decreases letters@.len() - i,
        {
            let letter = letters[i];
            let color = colors[i];
            let ghost kb = self.keyboard_status@;
            let mut k: usize = 0;
            let mut found: usize = self.keyboard_status.len();
            while k < self.keyboard_status.len()
                invariant
                    kb == self.keyboard_status@,
                    k <= kb.len(),
                    found == kb.len() ==> forall|m: int| 0 <= m < k ==> kb[m].0 != letter,
                    found != kb.len() ==> found < kb.len() && kb[found as int].0 == letter,
                decreases kb.len() - k,
            {
                if found == self.keyboard_status.len() && self.keyboard_status[k].0 == letter {
                    found = k;
                }
                k = k + 1;
            }
            if found < self.keyboard_status.len() {
                let previous = self.keyboard_status[found].1;
                proof {
                    lemma_pairs_lookup(kb, found as int);
                }
                let stronger = match (previous, color) {
                    (GameColor::Green, _) => GameColor::Green,
                    (GameColor::Yellow, GameColor::Green) => GameColor::Green,
                    (GameColor::Yellow, _) => GameColor::Yellow,
                    (GameColor::Gray, c) => c,
                };
                self.keyboard_status.set(found, (letter, stronger));
                proof {
                    lemma_pairs_update(kb, found as int, stronger);
                }
            } else {
                proof {
                    lemma_pairs_absent(kb, letter);
                    lemma_pairs_push(kb, letter, color);
                }
                self.keyboard_status.push((letter, color));
            }
            i = i + 1;
        }
    }

    /// An independent copy of the whole state.
    pub fn snapshot(&self) -> (r: Self)
        ensures
            r@ == self@,
            r.wf() == self.wf(),
    {
        let mut guesses: Vec<GuessResult> = Vec::new();
        let mut i: usize = 0;
        while i < self.guesses.len()
            invariant
                i <= self.guesses@.len(),
                guesses@.len() == i,
                forall|k: int| 0 <= k < i ==> guesses@[k]@ == self.guesses@[k]@,
            decreases self.guesses@.len() - i,
        {
            guesses.push(self.guesses[i].snapshot());
            i = i + 1;
        }
        let mut keyboard: Vec<(char, GameColor)> = Vec::new();
        let mut j: usize = 0;
        while j < self.keyboard_status.len()
            invariant
                j <= self.keyboard_status@.len(),
                keyboard@ == self.keyboard_status@.subrange(0, j as int),
            decreases self.keyboard_status@.len() - j,
        {
            keyboard.push(self.keyboard_status[j]);
            j = j + 1;
            assert(keyboard@ =~= self.keyboard_status@.subrange(0, j as int));
        }
        assert(keyboard@ =~= self.keyboard_status@);
        let mut players: Vec<PlayerId> = Vec::new();
        let mut p: usize = 0;
        while p < self.players.len()
            invariant
                p <= self.players@.len(),
                players@ == self.players@.subrange(0, p as int),
            decreases self.players@.len() - p,
        {
            players.push(self.players[p].clone());
            p = p + 1;
            assert(players@ =~= self.players@.subrange(0, p as int));
        }
        assert(players@ =~= self.players@);
        let r = BoardState {
            guesses,
            current_turn: self.current_turn.clone(),
            game_status: self.game_status,
            keyboard_status: keyboard,
            players,
        };
        assert(r@.guesses =~= self@.guesses);
        r
    }
}

} // verus!

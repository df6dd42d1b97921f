//! The rules of the game, written as functions on [`GameView`], the
//! mathematical model of a game: which moves are allowed, what a move does to
//! the board and to the players, how lines are scored and when a game is won.

use crate::board::{claim, empty_cells, lines, scoring, Coord, HexView, TripleView, BOARD_SIZE};
use crate::player::{PlayerID, PlayerView};
use vstd::prelude::*;

verus! {

/// The cell in the middle of the board. Playing on it while it is empty earns
/// no bonus, and no king may be put on it.
pub const CENTER_HEX: Coord = Coord::C2;

/// Stones earned by playing on an empty cell other than the center.
pub const EMPTY_CELL_BONUS: u8 = 2;

/// The two kinds of move.
#[derive(Debug, Clone, Copy, PartialEq, Eq, Structural)]
pub enum Play {
    /// Put stones on a cell.
    Stones,
    /// Put the king on a cell.
    King,
}

/// Why a call of [`crate::game::Sixes::play`] failed.
#[derive(Debug, Clone, Copy, PartialEq, Eq, Structural)]
pub enum GameError {
    /// The game is over, or the rules do not allow the move. Nothing changed.
    InvalidPlay,
    /// After the move both players have held a line for two turns. The move
    /// stays on the board.
    InvalidWin,
}

/// Whether the game is still being played.
#[derive(Debug, Clone, Copy, PartialEq, Eq, Structural)]
pub enum GameState {
    Running,
    Win(PlayerID),
}

/// Mathematical model of a game of [`crate::game::Sixes`].
pub struct GameView {
    /// The eleven cells, in board order.
    pub board: Seq<HexView>,
    pub player_one: PlayerView,
    pub player_two: PlayerView,
    /// The player to move.
    pub turn: PlayerID,
    /// The cell played on in the previous turn, which may not be played on in
    /// this one.
    pub last_captured: Option<Coord>,
    /// The lines that scored after the previous turn.
    pub last_scored: Seq<TripleView>,
    pub game_state: GameState,
}

/// Whether `player` owns a line of `now` that already stood in `before`.
pub open spec fn sustained(now: Seq<TripleView>, before: Seq<TripleView>, player: PlayerID) -> bool {
    exists|i: int| 0 <= i < now.len() && (#[trigger] now[i]).player == player && before.contains(now[i])
}

/// Every pair of a cell and a kind of move: the cells in board order, and for
/// each cell stones before the king.
pub open spec fn all_moves() -> Seq<(Coord, Play)> {
    Seq::new(
        2 * BOARD_SIZE as nat,
        |i: int| (Coord::at(i / 2), if i % 2 == 0 { Play::Stones } else { Play::King }),
    )
}

/// The stones on the board: the heights of the eleven piles together.
#[verifier::opaque]
pub open spec fn piled(cells: Seq<HexView>) -> nat {
    cells[0].stone + cells[1].stone + cells[2].stone + cells[3].stone + cells[4].stone
        + cells[5].stone + cells[6].stone + cells[7].stone + cells[8].stone + cells[9].stone
        + cells[10].stone
}

/// The bonus that a player earns by putting stones on `cell`: two stones if
/// nobody owns the cell, unless it is the center.
pub open spec fn bonus_on(cell: HexView) -> nat {
    if cell.player is None && cell.coord != CENTER_HEX {
        EMPTY_CELL_BONUS as nat
    } else {
        0
    }
}

/// All bonus stones that the board will still pay out.
#[verifier::opaque]
pub open spec fn bonus_left(cells: Seq<HexView>) -> nat {
    bonus_on(cells[0]) + bonus_on(cells[1]) + bonus_on(cells[2]) + bonus_on(cells[3]) + bonus_on(
        cells[4],
    ) + bonus_on(cells[5]) + bonus_on(cells[6]) + bonus_on(cells[7]) + bonus_on(cells[8])
        + bonus_on(cells[9]) + bonus_on(cells[10])
}

/// The most stones that can be in a game while `kings` kings are still in
/// hand. A game begins with twenty-four stones and ten cells that pay a bonus
/// of two; a king move, which leaves the pile on the cell and puts as many
/// stones into a graveyard, can at most double the stones in the game.
pub open spec fn stone_limit(kings: nat) -> nat {
    if kings >= 2 {
        44
    } else if kings == 1 {
        88
    } else {
        176
    }
}

impl GameView {
    /// A game before the first move.
    pub open spec fn initial() -> GameView {
        GameView {
            board: empty_cells(),
            player_one: PlayerView::fresh(PlayerID::One),
            player_two: PlayerView::fresh(PlayerID::Two),
            turn: PlayerID::One,
            last_captured: None,
            last_scored: Seq::empty(),
            game_state: GameState::Running,
        }
    }

    /// What the cell `coord` holds.
    pub open spec fn cell(self, coord: Coord) -> HexView {
        self.board[coord.index()]
    }

    /// The resources of the player `id`.
    pub open spec fn player(self, id: PlayerID) -> PlayerView {
        match id {
            PlayerID::One => self.player_one,
            PlayerID::Two => self.player_two,
        }
    }

    /// The game with the resources of the player `id` replaced by `player`.
    pub open spec fn with_player(self, id: PlayerID, player: PlayerView) -> GameView {
        match id {
            PlayerID::One => GameView { player_one: player, ..self },
            PlayerID::Two => GameView { player_two: player, ..self },
        }
    }

    /// All stones in the game: in the pools, in the graveyards and on the
    /// board.
    pub open spec fn stone_count(self) -> nat {
        self.player_one.stones + self.player_one.graveyard + self.player_two.stones
            + self.player_two.graveyard + piled(self.board)
    }

    /// How many kings are still in hand.
    pub open spec fn kings_in_hand(self) -> nat {
        (if self.player_one.king { 1nat } else { 0nat }) + (if self.player_two.king { 1nat } else { 0nat })
    }

    /// What holds of the board and the players of every game that play can
    /// reach: the board has its eleven cells in order, a cell has an owner
    /// exactly when something stands on it, the players sit in their own
    /// seats, and the stones in the game together with the bonus still to come
    /// stay within [`stone_limit`].
    pub open spec fn sound(self) -> bool {
        &&& self.board.len() == BOARD_SIZE
        &&& forall|i: int| 0 <= i < BOARD_SIZE ==> (#[trigger] self.board[i]).coord == Coord::at(i)
        &&& forall|i: int| 0 <= i < BOARD_SIZE ==> (#[trigger] self.board[i]).consistent()
        &&& self.player_one.id == PlayerID::One
        &&& self.player_two.id == PlayerID::Two
        &&& self.stone_count() + bonus_left(self.board) <= stone_limit(self.kings_in_hand())
    }

    /// What holds of every game that play can reach, between two moves: the
    /// game is [`sound`](Self::sound), the lines on record are those that
    /// score on the board, and while the game runs each of them belongs to
    /// the player who moved last.
    pub open spec fn valid(self) -> bool {
        &&& self.sound()
        &&& self.last_scored == scoring(self.board)
        &&& self.game_state == GameState::Running ==> forall|i: int|
            0 <= i < self.last_scored.len() ==> (#[trigger] self.last_scored[i]).player
                == self.turn.opponent()
    }

    /// Whether the rules allow the player to move to put stones on `coord`,
    /// leaving aside the cell played last: always on a cell nobody owns; on a
    /// cell of the opponent only without a king on it and with more stones in
    /// the pool than the pile is high.
    pub open spec fn stones_allowed(self, coord: Coord) -> bool {
        let cell = self.cell(coord);
        match cell.player {
            Some(owner) => owner != self.turn && self.player(self.turn).stones > cell.stone
                && !cell.king,
            None => true,
        }
    }

    /// Whether the rules allow the player to move to put the king on `coord`,
    /// leaving aside the cell played last: only on a cell of the opponent with
    /// at least one stone and no king on it, which is not the center, and only
    /// with the king still in hand.
    pub open spec fn king_allowed(self, coord: Coord) -> bool {
        let cell = self.cell(coord);
        match cell.player {
            Some(owner) => owner != self.turn && self.player(self.turn).king && cell.stone > 0
                && !cell.king && coord != CENTER_HEX,
            None => false,
        }
    }

    /// Whether the rules allow the player to move to make the move: the cell
    /// is not the one played in the previous turn, and the rule of the kind of
    /// move is met.
    pub open spec fn legal(self, coord: Coord, play: Play) -> bool {
        &&& self.last_captured != Some(coord)
        &&& match play {
            Play::Stones => self.stones_allowed(coord),
            Play::King => self.king_allowed(coord),
        }
    }

    /// The stones that the player to move earns by playing stones on `coord`.
    pub open spec fn bonus(self, coord: Coord) -> nat {
        bonus_on(self.cell(coord))
    }

    /// The stones that the player to move pays for playing stones on `coord`:
    /// one more than the pile is high.
    pub open spec fn cost(self, coord: Coord) -> nat {
        self.cell(coord).stone + 1
    }

    /// Whether the move would be carried out and would take more stones out of
    /// the mover's pool than it holds.
    pub open spec fn overdraws(self, coord: Coord, play: Play) -> bool {
        &&& self.game_state == GameState::Running
        &&& self.legal(coord, play)
        &&& play == Play::Stones
        &&& self.player(self.turn).stones + self.bonus(coord) < self.cost(coord)
    }

    /// The game after the pile on `coord` has gone to the graveyard of the
    /// cell's owner, if it has one.
    pub open spec fn captured(self, coord: Coord) -> GameView {
        match self.cell(coord).player {
            Some(owner) => self.with_player(
                owner,
                PlayerView {
                    graveyard: self.player(owner).graveyard + self.cell(coord).stone,
                    ..self.player(owner)
                },
            ),
            None => self,
        }
    }

    /// The game after the player to move has made the move, before the lines
    /// are scored and the turn passes.
    ///
    /// Either kind of move first sends the pile on the cell to its owner's
    /// graveyard. Stones then earn the bonus, cost one more than the pile was
    /// high, and raise the pile by one. A king costs the king. The cell goes
    /// to the mover and becomes the cell played last.
    pub open spec fn moved(self, coord: Coord, play: Play) -> GameView {
        let taken = self.captured(coord);
        let mover = taken.player(self.turn);
        match play {
            Play::Stones => GameView {
                board: self.board.update(coord.index(), self.cell(coord).with_stone(self.turn)),
                last_captured: Some(coord),
                ..taken.with_player(
                    self.turn,
                    (PlayerView { stones: mover.stones + self.bonus(coord), ..mover }).pay(
                        self.cost(coord),
                    ),
                )
            },
            Play::King => GameView {
                board: self.board.update(coord.index(), self.cell(coord).with_king(self.turn)),
                last_captured: Some(coord),
                ..taken.with_player(self.turn, PlayerView { king: false, ..mover })
            },
        }
    }

    /// The game after the lines on the board have been scored, and whether
    /// that went well.
    ///
    /// A player who owns a line that also scored after the previous turn has
    /// won. If both players do, nobody wins and the scoring fails. Either way
    /// the lines that score now are recorded for the next turn.
    pub open spec fn scored(self) -> (GameView, Result<(), GameError>) {
        let now = scoring(self.board);
        let one = sustained(now, self.last_scored, PlayerID::One);
        let two = sustained(now, self.last_scored, PlayerID::Two);
        let recorded = GameView { last_scored: now, ..self };
        if one && two {
            (recorded, Err(GameError::InvalidWin))
        } else if one {
            (GameView { game_state: GameState::Win(PlayerID::One), ..recorded }, Ok(()))
        } else if two {
            (GameView { game_state: GameState::Win(PlayerID::Two), ..recorded }, Ok(()))
        } else {
            (recorded, Ok(()))
        }
    }

    /// One call of [`crate::game::Sixes::play`]: the game afterwards, and the
    /// result.
    ///
    /// A move in a game that is over, or that the rules do not allow, changes
    /// nothing. Any other move is made and scored. If the scoring fails the
    /// move stays made and the turn does not pass; else the turn passes to the
    /// opponent.
    pub open spec fn step(self, coord: Coord, play: Play) -> (GameView, Result<(), GameError>) {
        if self.game_state != GameState::Running || !self.legal(coord, play) {
            (self, Err(GameError::InvalidPlay))
        } else {
            let (after, outcome) = self.moved(coord, play).scored();
            match outcome {
                Ok(_) => (GameView { turn: self.turn.opponent(), ..after }, Ok(())),
                Err(error) => (after, Err(error)),
            }
        }
    }

    /// The moves that the rules allow the player to move, in the order of
    /// [`all_moves`].
    pub open spec fn possible_moves(self) -> Seq<(Coord, Play)> {
        all_moves().filter(|m: (Coord, Play)| self.legal(m.0, m.1))
    }
}

/// Replacing one cell changes the stones on the board, and the bonus still to
/// come, by what that cell contributes.
proof fn lemma_update_totals(cells: Seq<HexView>, i: int, cell: HexView)
    requires
        cells.len() == BOARD_SIZE,
        0 <= i < BOARD_SIZE,
    ensures
        piled(cells.update(i, cell)) + cells[i].stone == piled(cells) + cell.stone,
        bonus_left(cells.update(i, cell)) + bonus_on(cells[i]) == bonus_left(cells) + bonus_on(cell),
        cells[i].stone <= piled(cells),
        bonus_on(cells[i]) <= bonus_left(cells),
{
    reveal(piled);
    reveal(bonus_left);
}

/// A game before the first move is valid.
pub proof fn lemma_initial_valid()
    ensures
        GameView::initial().valid(),
{
    reveal(piled);
    reveal(bonus_left);
    reveal_with_fuel(Seq::filter_map, 12);
    assert(scoring(empty_cells()) =~= Seq::<TripleView>::empty());
}

/// In a sound game every count of stones is within the limit, so that a legal
/// move that does not overdraw can be carried out in eight bits.
pub proof fn lemma_move_in_bounds(game: GameView, coord: Coord, play: Play)
    requires
        game.sound(),
        game.legal(coord, play),
        !game.overdraws(coord, play),
        game.game_state == GameState::Running,
    ensures
        game.cell(coord).stone + 1 <= u8::MAX,
        game.player_one.graveyard + game.cell(coord).stone <= u8::MAX,
        game.player_two.graveyard + game.cell(coord).stone <= u8::MAX,
        game.player(game.turn).stones + game.bonus(coord) <= u8::MAX,
        play == Play::Stones ==> game.cost(coord) <= game.captured(coord).player(game.turn).stones
            + game.bonus(coord),
{
    lemma_update_totals(game.board, coord.index(), game.cell(coord));
}

/// A legal move that does not overdraw leads from a sound game to a sound
/// game.
pub proof fn lemma_moved_sound(game: GameView, coord: Coord, play: Play)
    requires
        game.sound(),
        game.legal(coord, play),
        !game.overdraws(coord, play),
        game.game_state == GameState::Running,
    ensures
        game.moved(coord, play).sound(),
{
    let i = coord.index();
    let after = game.moved(coord, play);
    let cell = after.board[i];
    assert(game.board[i].coord == coord);
    lemma_update_totals(game.board, i, cell);
    assert(after.board == game.board.update(i, cell));
    assert(bonus_on(cell) == 0);
    assert forall|k: int| 0 <= k < BOARD_SIZE implies (#[trigger] after.board[k]).coord == Coord::at(
        k,
    ) && after.board[k].consistent() by {
        if k != i {
            assert(after.board[k] == game.board[k]);
        }
    }
    match play {
        Play::Stones => {
            assert(cell.stone == game.board[i].stone + 1);
            assert(after.kings_in_hand() == game.kings_in_hand());
            assert(after.stone_count() + bonus_left(after.board) == game.stone_count()
                + bonus_left(game.board));
        },
        Play::King => {
            assert(cell.stone == game.board[i].stone);
            assert(after.stone_count() == game.stone_count() + game.board[i].stone);
            assert(bonus_left(after.board) == bonus_left(game.board));
            assert(after.kings_in_hand() + 1 == game.kings_in_hand());
        },
    }
}

/// An element that `f` maps to a value puts that value into the filtered
/// sequence.
proof fn lemma_filter_map_keeps<A, B>(s: Seq<A>, f: spec_fn(A) -> Option<B>, i: int)
    requires
        0 <= i < s.len(),
        f(s[i]) is Some,
    ensures
        s.filter_map(f).contains(f(s[i]).unwrap()),
    decreases s.len(),
{
    let rest = s.drop_last().filter_map(f);
    let value = f(s[i]).unwrap();
    if i == s.len() - 1 {
        assert(s.filter_map(f) == rest + seq![value]);
        assert(s.filter_map(f)[rest.len() as int] == value);
    } else {
        lemma_filter_map_keeps(s.drop_last(), f, i);
        let j = choose|j: int| 0 <= j < rest.len() && rest[j] == value;
        assert(s.filter_map(f)[j] == value);
    }
}

/// A triple scores exactly when one of the eleven lines claims it.
pub proof fn lemma_scoring_is_claimed(cells: Seq<HexView>, triple: TripleView)
    ensures
        scoring(cells).contains(triple) <==> exists|k: int|
            0 <= k < lines().len() && claim(cells, #[trigger] lines()[k]) == Some(triple),
{
    let f = |line: (Coord, Coord, Coord)| claim(cells, line);
    if scoring(cells).contains(triple) {
        lines().lemma_filter_map_contains(f, triple);
        let line = choose|line: (Coord, Coord, Coord)| #[trigger]
            lines().contains(line) && f(line) == Some(triple);
        let k = choose|k: int| 0 <= k < lines().len() && lines()[k] == line;
        assert(claim(cells, lines()[k]) == Some(triple));
    }
    if exists|k: int| 0 <= k < lines().len() && claim(cells, #[trigger] lines()[k]) == Some(triple) {
        let k = choose|k: int|
            0 <= k < lines().len() && claim(cells, #[trigger] lines()[k]) == Some(triple);
        lemma_filter_map_keeps(lines(), f, k);
    }
}

/// A line that scores after a move and did not score before it passes through
/// the cell that was played, and so belongs to the mover.
pub proof fn lemma_new_line_is_the_movers(
    game: GameView,
    coord: Coord,
    play: Play,
    triple: TripleView,
)
    requires
        game.board.len() == BOARD_SIZE,
        scoring(game.moved(coord, play).board).contains(triple),
        !scoring(game.board).contains(triple),
    ensures
        triple.player == game.turn,
{
    let after = game.moved(coord, play).board;
    lemma_scoring_is_claimed(after, triple);
    lemma_scoring_is_claimed(game.board, triple);
    let k = choose|k: int|
        0 <= k < lines().len() && claim(after, #[trigger] lines()[k]) == Some(triple);
    let line = lines()[k];
    if line.0 != coord && line.1 != coord && line.2 != coord {
        assert(after[line.0.index()] == game.board[line.0.index()]);
        assert(after[line.1.index()] == game.board[line.1.index()]);
        assert(after[line.2.index()] == game.board[line.2.index()]);
        assert(claim(game.board, lines()[k]) == Some(triple));
    } else {
        assert(after[coord.index()].player == Some(game.turn));
    }
}

/// Every move that [`crate::game::Sixes::play`] accepts leads from a valid
/// game to a valid game. The scoring never fails on the way, and if the move
/// ends the game, the winner is the player who did not make it.
pub proof fn lemma_step_valid(game: GameView, coord: Coord, play: Play)
    requires
        game.valid(),
        !game.overdraws(coord, play),
    ensures
        game.step(coord, play).0.valid(),
        game.step(coord, play).1 != Err::<(), GameError>(GameError::InvalidWin),
        game.step(coord, play).0.game_state == game.game_state || game.step(
            coord,
            play,
        ).0.game_state == GameState::Win(game.turn.opponent()),
{
    if game.game_state == GameState::Running && game.legal(coord, play) {
        let moved = game.moved(coord, play);
        let now = scoring(moved.board);
        let before = game.last_scored;
        lemma_moved_sound(game, coord, play);
        assert forall|j: int| 0 <= j < now.len() implies (#[trigger] now[j]).player == (if before.contains(
            now[j],
        ) {
            game.turn.opponent()
        } else {
            game.turn
        }) by {
            if before.contains(now[j]) {
                let i = choose|i: int| 0 <= i < before.len() && before[i] == now[j];
                assert(before[i].player == game.turn.opponent());
            } else {
                assert(now.contains(now[j]));
                lemma_new_line_is_the_movers(game, coord, play, now[j]);
            }
        }
        assert(!sustained(now, before, game.turn));
        let after = game.step(coord, play).0;
        assert(after.board == moved.board);
        assert(after.last_scored == now);
        if after.game_state == GameState::Running {
            assert forall|j: int| 0 <= j < now.len() implies (#[trigger] now[j]).player
                == after.turn.opponent() by {
                if before.contains(now[j]) {
                    assert(sustained(now, before, now[j].player));
                }
            }
        }
    }
}

} // verus!

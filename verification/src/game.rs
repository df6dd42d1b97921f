//! The executable game. Every operation of [`Sixes`] is specified by the rule
//! of [`crate::rules`] that it carries out.

use crate::board::{scoring, Board, Coord, Triple, BOARD_SIZE};
use crate::player::{Player, PlayerID};
use crate::rules::{
    all_moves, lemma_initial_valid, lemma_move_in_bounds, lemma_step_valid, sustained, GameError,
    GameState, GameView, Play, CENTER_HEX, EMPTY_CELL_BONUS,
};
use vstd::prelude::*;

verus! {

/// A game of Sixes.
#[derive(Debug, Clone)]
pub struct Sixes {
    board: Board,
    player_one: Player,
    player_two: Player,
    turn: PlayerID,
    last_captured: Option<Coord>,
    last_scored: Vec<Triple>,
    game_state: GameState,
}

impl View for Sixes {
    type V = GameView;

    closed spec fn view(&self) -> GameView {
        GameView {
            board: self.board@,
            player_one: self.player_one@,
            player_two: self.player_two@,
            turn: self.turn,
            last_captured: self.last_captured,
            last_scored: self.last_scored@.map_values(|triple: Triple| triple@),
            game_state: self.game_state,
        }
    }
}

impl Sixes {
    /// The game is one that play can reach: see [`GameView::valid`].
    pub open spec fn wf(&self) -> bool {
        self@.valid()
    }

    /// A new game. Player one moves first.
    pub fn start() -> (game: Self)
        ensures
            game.wf(),
            game@ == GameView::initial(),
    {
        let game = Sixes {
            board: Board::new(),
            player_one: Player::new(PlayerID::One),
            player_two: Player::new(PlayerID::Two),
            turn: PlayerID::One,
            last_captured: None,
            last_scored: Vec::new(),
            game_state: GameState::Running,
        };
        proof {
            assert(game@.last_scored =~= Seq::empty());
            lemma_initial_valid();
        }
        game
    }

    /// Starts the game over.
    pub fn reset(&mut self)
        ensures
            final(self).wf(),
            final(self)@ == GameView::initial(),
    {
        self.board = Board::new();
        self.player_one = Player::new(PlayerID::One);
        self.player_two = Player::new(PlayerID::Two);
        self.turn = PlayerID::One;
        self.last_captured = None;
        self.last_scored = Vec::new();
        self.game_state = GameState::Running;
        proof {
            assert(self@.last_scored =~= Seq::empty());
            lemma_initial_valid();
        }
    }

    /// Whether the game is still being played, or who has won it.
    pub fn game_state(&self) -> (state: GameState)
        ensures
            state == self@.game_state,
    {
        self.game_state
    }

    /// The player to move.
    pub fn turn(&self) -> (turn: PlayerID)
        ensures
            turn == self@.turn,
    {
        self.turn
    }

    /// Plays a move for the player whose turn it is.
    ///
    /// The result and the game afterwards are those of [`GameView::step`]. A
    /// move that the mover cannot pay for ([`GameView::overdraws`]) must not
    /// be made; [`Sixes::overdraws`] tells.
    pub fn play(&mut self, coord: Coord, play: Play) -> (res: Result<(), GameError>)
        requires
            old(self).wf(),
            !old(self)@.overdraws(coord, play),
        ensures
            final(self).wf(),
            (final(self)@, res) == old(self)@.step(coord, play),
    {
        if self.game_state != GameState::Running {
            return Err(GameError::InvalidPlay);
        }
        if self.check_playable(coord, play) == false {
            return Err(GameError::InvalidPlay);
        }
        let hex = self.board.hex(coord);
        let owner: Option<PlayerID> = hex.player();
        let stack: u8 = hex.stone();
        let on_center: bool = hex.coord() == CENTER_HEX;
        proof {
            lemma_move_in_bounds(self@, coord, play);
            lemma_step_valid(self@, coord, play);
        }

        match play {
            Play::Stones => {
                match owner {
                    Some(player_id) => {
                        match player_id {
                            PlayerID::One => self.player_one.add_to_graveyard(stack),
                            PlayerID::Two => self.player_two.add_to_graveyard(stack),
                        };
                    },
                    None => {
                        if !on_center {
                            match self.turn {
                                PlayerID::One => self.player_one.add_stones(EMPTY_CELL_BONUS),
                                PlayerID::Two => self.player_two.add_stones(EMPTY_CELL_BONUS),
                            };
                        }
                    },
                }

                match self.turn {
                    PlayerID::One => self.player_one.remove_stones(stack + 1),
                    PlayerID::Two => self.player_two.remove_stones(stack + 1),
                };
                self.board.play_stone(coord, self.turn);
            },
            Play::King => {
                match owner {
                    Some(player_id) => {
                        match player_id {
                            PlayerID::One => self.player_one.add_to_graveyard(stack),
                            PlayerID::Two => self.player_two.add_to_graveyard(stack),
                        };
                    },
                    None => {},
                }

                match self.turn {
                    PlayerID::One => self.player_one.play_king(),
                    PlayerID::Two => self.player_two.play_king(),
                };
                self.board.play_king(coord, self.turn);
            },
        }

        self.last_captured = Some(coord);
        assert(self@ == old(self)@.moved(coord, play));
        match self.score() {
            Ok(_) => {},
            Err(error) => {
                return Err(error);
            },
        }
        self.next_turn();
        Ok(())
    }

    /// Whether `play` on `coord` is a move that would be carried out but that
    /// the mover cannot pay for. [`Sixes::play`] must not be called with such
    /// a move.
    pub fn overdraws(&self, coord: Coord, play: Play) -> (overdraws: bool)
        requires
            self.wf(),
        ensures
            overdraws == self@.overdraws(coord, play),
    {
        if self.game_state != GameState::Running {
            return false;
        }
        if !self.check_playable(coord, play) {
            return false;
        }
        match play {
            Play::Stones => {
                let hex = self.board.hex(coord);
                let stones: u8 = match self.turn {
                    PlayerID::One => self.player_one.stones(),
                    PlayerID::Two => self.player_two.stones(),
                };
                let earns_bonus: bool = hex.player().is_none() && coord != CENTER_HEX;
                !earns_bonus && stones <= hex.stone()
            },
            Play::King => false,
        }
    }

    fn check_playable(&self, coord: Coord, play: Play) -> (playable: bool)
        requires
            self.wf(),
        ensures
            playable == self@.legal(coord, play),
    {
        let player = match self.turn {
            PlayerID::One => &self.player_one,
            PlayerID::Two => &self.player_two,
        };

        let hex = self.board.hex(coord);

        match self.last_captured {
            Some(last_captured) => {
                if last_captured == coord {
                    return false;
                }
            },
            None => {},
        }

        match play {
            Play::Stones => {
                if let Some(player_id) = hex.player() {
                    if player_id != player.id() && player.stones() > hex.stone() && hex.king()
                        == false {
                        return true;
                    }
                    return false;
                }
                true
            },
            Play::King => {
                if let Some(player_id) = hex.player() {
                    if player_id != player.id() && player.king() && hex.stone() > 0 && hex.king()
                        == false && hex.coord() != CENTER_HEX {
                        return true;
                    }
                }
                false
            },
        }
    }

    fn score(&mut self) -> (res: Result<(), GameError>)
        requires
            old(self)@.sound(),
        ensures
            (final(self)@, res) == old(self)@.scored(),
    {
        let new_score = self.board.score();
        let ghost now = scoring(self@.board);
        let ghost before = self@.last_scored;
        let mut stay_scored: Vec<PlayerID> = Vec::new();

        let mut i: usize = 0;
        while i < new_score.len()
            invariant
                *self == *old(self),
                i <= new_score@.len(),
                new_score@.len() == now.len(),
                forall|k: int| 0 <= k < new_score@.len() ==> (#[trigger] new_score@[k])@ == now[k],
                before == self.last_scored@.map_values(|triple: Triple| triple@),
                forall|k: int|
                    0 <= k < stay_scored@.len() ==> sustained(now, before, #[trigger] stay_scored@[k]),
                forall|a: int, b: int|
                    0 <= a < i && 0 <= b < before.len() && #[trigger] now[a] == #[trigger] before[b]
                        ==> stay_scored@.contains(now[a].player),
            decreases new_score@.len() - i,
        {
            let triple1 = new_score[i];
            let mut j: usize = 0;
            while j < self.last_scored.len()
                invariant
                    *self == *old(self),
                    i < new_score@.len(),
                    j <= self.last_scored@.len(),
                    new_score@.len() == now.len(),
                    triple1 == new_score@[i as int],
                    triple1@ == now[i as int],
                    before == self.last_scored@.map_values(|triple: Triple| triple@),
                    forall|k: int|
                        0 <= k < stay_scored@.len() ==> sustained(
                            now,
                            before,
                            #[trigger] stay_scored@[k],
                        ),
                    forall|a: int, b: int|
                        0 <= a < i && 0 <= b < before.len() && #[trigger] now[a]
                            == #[trigger] before[b] ==> stay_scored@.contains(now[a].player),
                    forall|b: int|
                        0 <= b < j && now[i as int] == #[trigger] before[b] ==> stay_scored@.contains(
                            now[i as int].player,
                        ),
                decreases self.last_scored@.len() - j,
            {
                let triple2 = self.last_scored[j];
                proof {
                    Triple::lemma_view_injective(triple1, triple2);
                    assert(before[j as int] == triple2@);
                }
                if triple1 == triple2 {
                    let ghost earlier = stay_scored@;
                    stay_scored.push(triple1.player());
                    proof {
                        assert(before.contains(now[i as int]));
                        assert(stay_scored@[earlier.len() as int] == now[i as int].player);
                        assert forall|player: PlayerID| earlier.contains(player) implies #[trigger]
                            stay_scored@.contains(player) by {
                            let k = choose|k: int| 0 <= k < earlier.len() && earlier[k] == player;
                            assert(stay_scored@[k] == player);
                        }
                    }
                }
                j += 1;
            }
            i += 1;
        }
        self.last_scored = new_score;
        proof {
            assert(self@.last_scored =~= now);
            assert forall|player: PlayerID| sustained(now, before, player) implies stay_scored@.contains(
                player,
            ) by {
                let a = choose|a: int|
                    0 <= a < now.len() && (#[trigger] now[a]).player == player && before.contains(
                        now[a],
                    );
                let b = choose|b: int| 0 <= b < before.len() && before[b] == now[a];
                assert(now[a] == before[b]);
            }
        }

        // The game is won only if every line that was held belongs to one player.
        let mut all_same: bool = true;
        let mut k: usize = 0;
        while k < stay_scored.len()
            invariant
                k <= stay_scored@.len(),
                all_same ==> forall|m: int| 0 <= m < k ==> #[trigger] stay_scored@[m] == stay_scored@[0],
                !all_same ==> exists|m: int|
                    0 <= m < stay_scored@.len() && #[trigger] stay_scored@[m] != stay_scored@[0],
            decreases stay_scored@.len() - k,
        {
            if stay_scored[k] != stay_scored[0] {
                all_same = false;
            }
            k += 1;
        }
        if all_same {
            if stay_scored.len() > 0 {
                self.game_state = GameState::Win(stay_scored[0]);
            }
            proof {
                assert forall|player: PlayerID| sustained(now, before, player) implies stay_scored@.len()
                    > 0 && player == stay_scored@[0] by {
                    let m = choose|m: int| 0 <= m < stay_scored@.len() && stay_scored@[m] == player;
                }
            }
            Ok(())
        } else {
            proof {
                let m = choose|m: int|
                    0 <= m < stay_scored@.len() && #[trigger] stay_scored@[m] != stay_scored@[0];
                assert(sustained(now, before, stay_scored@[m]));
                assert(sustained(now, before, stay_scored@[0]));
            }
            Err(GameError::InvalidWin)
        }
    }

    fn next_turn(&mut self)
        ensures
            final(self)@ == (GameView { turn: old(self)@.turn.opponent(), ..old(self)@ }),
    {
        match self.turn {
            PlayerID::One => self.turn = PlayerID::Two,
            PlayerID::Two => self.turn = PlayerID::One,
        }
    }

    /// What every cell holds, in board order: its name, the height of its
    /// pile, whether a king stands on it, and its owner.
    pub fn board(&self) -> (cells: Vec<(Coord, u8, bool, Option<PlayerID>)>)
        ensures
            cells@.len() == self@.board.len(),
            forall|i: int|
                0 <= i < cells@.len() ==> {
                    let cell = #[trigger] cells@[i];
                    let hex = self@.board[i];
                    cell.0 == hex.coord && cell.1 == hex.stone && cell.2 == hex.king && cell.3
                        == hex.player
                },
    {
        let hexes = self.board.hexes();
        let mut cells: Vec<(Coord, u8, bool, Option<PlayerID>)> = Vec::new();
        let mut i: usize = 0;
        while i < hexes.len()
            invariant
                i <= hexes@.len(),
                hexes@.len() == self@.board.len(),
                forall|k: int| 0 <= k < hexes@.len() ==> (#[trigger] hexes@[k])@ == self@.board[k],
                cells@.len() == i,
                forall|k: int|
                    0 <= k < i ==> {
                        let cell = #[trigger] cells@[k];
                        let hex = self@.board[k];
                        cell.0 == hex.coord && cell.1 == hex.stone && cell.2 == hex.king && cell.3
                            == hex.player
                    },
            decreases hexes@.len() - i,
        {
            let hex = &hexes[i];
            cells.push((hex.coord(), hex.stone(), hex.king(), hex.player()));
            i += 1;
        }
        cells
    }

    /// For player one, then player two: who it is, the stones in the pool,
    /// and whether the king is still in hand.
    pub fn players(&self) -> (players: Vec<(PlayerID, u8, bool)>)
        ensures
            players@.len() == 2,
            players@[0].0 == self@.player_one.id,
            players@[0].1 == self@.player_one.stones,
            players@[0].2 == self@.player_one.king,
            players@[1].0 == self@.player_two.id,
            players@[1].1 == self@.player_two.stones,
            players@[1].2 == self@.player_two.king,
    {
        vec![
            (self.player_one.id(), self.player_one.stones(), self.player_one.king()),
            (self.player_two.id(), self.player_two.stones(), self.player_two.king()),
        ]
    }

    /// Every move that the rules allow the player to move: the cells in board
    /// order, and for each cell stones before the king.
    pub fn possible_moves(&self) -> (moves: Vec<(Coord, Play)>)
        requires
            self.wf(),
        ensures
            moves@ == self@.possible_moves(),
    {
        let mut possible_moves: Vec<(Coord, Play)> = Vec::new();
        let hexes = self.board.hexes();
        let ghost allowed = |m: (Coord, Play)| self@.legal(m.0, m.1);

        let mut i: usize = 0;
        while i < hexes.len()
            invariant
                self.wf(),
                i <= hexes@.len(),
                hexes@.len() == BOARD_SIZE,
                forall|k: int| 0 <= k < hexes@.len() ==> (#[trigger] hexes@[k])@ == self@.board[k],
                allowed == |m: (Coord, Play)| self@.legal(m.0, m.1),
                possible_moves@ == all_moves().take(2 * i).filter(allowed),
            decreases hexes@.len() - i,
        {
            let hex = &hexes[i];
            proof {
                lemma_filter_take_succ(all_moves(), allowed, 2 * i);
                lemma_filter_take_succ(all_moves(), allowed, 2 * i + 1);
                assert(hex@.coord == Coord::at(i as int));
            }
            if self.check_playable(hex.coord(), Play::Stones) {
                possible_moves.push((hex.coord(), Play::Stones));
            }
            if self.check_playable(hex.coord(), Play::King) {
                possible_moves.push((hex.coord(), Play::King));
            }
            i += 1;
        }
        assert(all_moves().take(all_moves().len() as int) == all_moves());
        possible_moves
    }
}

/// Filtering one element more of a sequence keeps what was filtered before and
/// adds the element if it passes.
proof fn lemma_filter_take_succ<A>(s: Seq<A>, pred: spec_fn(A) -> bool, i: int)
    requires
        0 <= i < s.len(),
    ensures
        s.take(i + 1).filter(pred) == if pred(s[i]) {
            s.take(i).filter(pred).push(s[i])
        } else {
            s.take(i).filter(pred)
        },
{
    reveal(Seq::filter);
    assert(s.take(i + 1).drop_last() =~= s.take(i));
}

} // verus!

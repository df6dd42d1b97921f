//! Properties of the rules that hold in every game, proved from the
//! definitions in [`crate::rules`] and [`crate::board`].
//!
//! Each property is stated of [`GameView::step`], which is what
//! [`crate::game::Sixes::play`] carries out, so it holds of every call of
//! `play`.

use crate::board::{empty_cells, scoring, Coord, HexView, TripleView, BOARD_SIZE};
use crate::player::PlayerID;
use crate::rules::{
    all_moves, lemma_step_valid, GameError, GameState, GameView, Play, CENTER_HEX,
};
use vstd::prelude::*;

verus! {

/// Stones played on a cell that nobody owns, other than the center, leave the
/// mover with one stone more than before (two earned, one paid) and a pile of
/// one stone on the cell, which now belongs to the mover.
pub proof fn empty_cell_earns_one_stone(game: GameView, coord: Coord)
    requires
        game.valid(),
        game.game_state == GameState::Running,
        game.legal(coord, Play::Stones),
        game.cell(coord).player is None,
        coord != CENTER_HEX,
    ensures
        !game.overdraws(coord, Play::Stones),
        game.step(coord, Play::Stones).1 != Err::<(), GameError>(GameError::InvalidPlay),
        game.step(coord, Play::Stones).0.player(game.turn).stones == game.player(game.turn).stones
            + 1,
        game.step(coord, Play::Stones).0.cell(coord).stone == 1,
        game.step(coord, Play::Stones).0.cell(coord).player == Some(game.turn),
{
    assert(game.cell(coord).consistent());
    assert(game.cell(coord).coord == coord);
}

/// Stones played on the center never earn the bonus, whether or not the
/// center was empty: the mover pays one more than the pile was high out of
/// the pool as it stood.
pub proof fn center_earns_no_bonus(game: GameView)
    requires
        game.valid(),
        game.game_state == GameState::Running,
        game.legal(CENTER_HEX, Play::Stones),
        !game.overdraws(CENTER_HEX, Play::Stones),
    ensures
        game.bonus(CENTER_HEX) == 0,
        game.step(CENTER_HEX, Play::Stones).0.player(game.turn) == game.player(game.turn).pay(
            game.cell(CENTER_HEX).stone + 1,
        ),
{
    assert(game.cell(CENTER_HEX).coord == CENTER_HEX);
}

/// A move never takes more stones out of the mover's pool than it holds. If
/// it takes exactly all of them, the pool is refilled with the mover's whole
/// graveyard and the graveyard is empty, within the same move.
pub proof fn pool_is_never_overdrawn(game: GameView, coord: Coord)
    requires
        game.valid(),
        game.game_state == GameState::Running,
        game.legal(coord, Play::Stones),
        !game.overdraws(coord, Play::Stones),
    ensures
        game.cost(coord) <= game.player(game.turn).stones + game.bonus(coord),
        ({
            let before = game.player(game.turn);
            let after = game.step(coord, Play::Stones).0.player(game.turn);
            if before.stones + game.bonus(coord) == game.cost(coord) {
                after.stones == before.graveyard && after.graveyard == 0
            } else {
                after.stones == before.stones + game.bonus(coord) - game.cost(coord)
                    && after.graveyard == before.graveyard
            }
        }),
{
}

/// The only move that the rules allow and that the mover cannot pay for is
/// stones on the empty center with an empty pool.
pub proof fn overdraw_is_only_on_the_empty_center(game: GameView, coord: Coord, play: Play)
    requires
        game.valid(),
        game.overdraws(coord, play),
    ensures
        play == Play::Stones,
        coord == CENTER_HEX,
        game.cell(coord).player is None,
        game.player(game.turn).stones == 0,
{
    assert(game.cell(coord).consistent());
    assert(game.cell(coord).coord == coord);
}

/// The cell played in the previous turn is never a legal target, for either
/// kind of move and whatever else holds: playing on it fails and changes
/// nothing, and it is not among the possible moves.
pub proof fn last_played_cell_is_locked(game: GameView, coord: Coord, play: Play)
    requires
        game.last_captured == Some(coord),
    ensures
        !game.legal(coord, play),
        game.step(coord, play) == (game, Err::<(), GameError>(GameError::InvalidPlay)),
        !game.possible_moves().contains((coord, play)),
{
    possible_moves_are_the_legal_moves(game, coord, play);
}

/// A move that is carried out locks its cell for the next turn.
pub proof fn played_cell_becomes_locked(game: GameView, coord: Coord, play: Play)
    requires
        game.step(coord, play).1 != Err::<(), GameError>(GameError::InvalidPlay),
    ensures
        game.step(coord, play).0.last_captured == Some(coord),
        forall|next: Play| !game.step(coord, play).0.legal(coord, next),
{
}

/// The possible moves are exactly the legal ones.
pub proof fn possible_moves_are_the_legal_moves(game: GameView, coord: Coord, play: Play)
    ensures
        game.possible_moves().contains((coord, play)) <==> game.legal(coord, play),
{
    let allowed = |m: (Coord, Play)| game.legal(m.0, m.1);
    let all = all_moves();
    let moves = game.possible_moves();
    if moves.contains((coord, play)) {
        let i = choose|i: int| 0 <= i < moves.len() && moves[i] == (coord, play);
        all.lemma_filter_pred(allowed, i);
    }
    if game.legal(coord, play) {
        let i = 2 * coord.index() + if play == Play::Stones {
            0int
        } else {
            1int
        };
        assert(all[i] == (coord, play));
        all.lemma_filter_contains(allowed, i);
    }
}

/// A king may only be put on a cell of the opponent that holds at least one
/// stone and no king and is not the center, and only by a player whose king
/// is still in hand. In particular never on an empty cell.
pub proof fn king_needs_an_occupied_rival_cell(game: GameView, coord: Coord)
    requires
        game.valid(),
        game.legal(coord, Play::King),
    ensures
        game.cell(coord).player == Some(game.turn.opponent()),
        game.cell(coord).stone >= 1,
        !game.cell(coord).king,
        coord != CENTER_HEX,
        game.player(game.turn).king,
{
}

/// A king move that is carried out spends the mover's king and puts a king on
/// the cell.
pub proof fn king_move_spends_the_king(game: GameView, coord: Coord)
    requires
        game.step(coord, Play::King).1 != Err::<(), GameError>(GameError::InvalidPlay),
        game.board.len() == BOARD_SIZE,
    ensures
        !game.step(coord, Play::King).0.player(game.turn).king,
        game.step(coord, Play::King).0.cell(coord).king,
        game.step(coord, Play::King).0.cell(coord).player == Some(game.turn),
{
}

/// A king once spent stays spent: no move gives a player the king back.
pub proof fn spent_king_never_returns(game: GameView, coord: Coord, play: Play, id: PlayerID)
    requires
        !game.player(id).king,
    ensures
        !game.step(coord, play).0.player(id).king,
{
}

/// A board on which nobody owns a cell scores no line; in particular the
/// board of a new game scores none.
pub proof fn unowned_board_scores_nothing(cells: Seq<HexView>)
    requires
        forall|i: int| 0 <= i < BOARD_SIZE ==> (#[trigger] cells[i]).player is None,
    ensures
        scoring(cells) == Seq::<TripleView>::empty(),
        scoring(empty_cells()) == Seq::<TripleView>::empty(),
{
    reveal_with_fuel(Seq::filter_map, 12);
    assert(scoring(cells) =~= Seq::<TripleView>::empty());
    assert(scoring(empty_cells()) =~= Seq::<TripleView>::empty());
}

/// Once a game is won no move is accepted and nothing changes any more.
pub proof fn won_game_is_over(game: GameView, coord: Coord, play: Play)
    requires
        game.game_state is Win,
    ensures
        game.step(coord, play) == (game, Err::<(), GameError>(GameError::InvalidPlay)),
{
}

/// A move changes no cell but the one played on, and that one only grows: its
/// pile is never lower, a king on it stays, and it keeps having an owner.
pub proof fn cells_only_grow(game: GameView, coord: Coord, play: Play, other: Coord)
    requires
        game.board.len() == BOARD_SIZE,
    ensures
        other != coord ==> game.step(coord, play).0.cell(other) == game.cell(other),
        game.step(coord, play).0.cell(other).stone >= game.cell(other).stone,
        game.cell(other).king ==> game.step(coord, play).0.cell(other).king,
        game.cell(other).player is Some ==> game.step(coord, play).0.cell(other).player is Some,
{
}

/// Every move that [`crate::game::Sixes::play`] accepts leads from a valid
/// game to a valid game.
pub proof fn valid_games_stay_valid(game: GameView, coord: Coord, play: Play)
    requires
        game.valid(),
        !game.overdraws(coord, play),
    ensures
        game.step(coord, play).0.valid(),
{
    lemma_step_valid(game, coord, play);
}

/// In a valid game the two players never both hold a line for two turns, so
/// the scoring never fails: a move is refused or carried out in full.
pub proof fn scoring_never_fails(game: GameView, coord: Coord, play: Play)
    requires
        game.valid(),
        !game.overdraws(coord, play),
    ensures
        game.step(coord, play).1 != Err::<(), GameError>(GameError::InvalidWin),
{
    lemma_step_valid(game, coord, play);
}

/// A game is won by the player whose line has survived the opponent's move:
/// the move that ends a game is never the winner's own.
pub proof fn winner_is_the_player_who_waited(game: GameView, coord: Coord, play: Play)
    requires
        game.valid(),
        !game.overdraws(coord, play),
        game.game_state == GameState::Running,
        game.step(coord, play).0.game_state is Win,
    ensures
        game.step(coord, play).0.game_state == GameState::Win(game.turn.opponent()),
{
    lemma_step_valid(game, coord, play);
}

} // verus!

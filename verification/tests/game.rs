use sixes_game::{Coord, GameError, GameState, Play, PlayerID, Sixes, CENTER_HEX};

use Coord::{A1, B1, B2, B3, C1, C2, C3, D1, D2, D3, E3};
use Play::{King, Stones};

const ALL: [Coord; 11] = [A1, B1, B2, B3, C1, C2, C3, D1, D2, D3, E3];

/// Plays the moves in turn; each must succeed.
fn after(moves: &[(Coord, Play)]) -> Sixes {
    let mut game = Sixes::start();
    for (n, (coord, play)) in moves.iter().enumerate() {
        assert!(!game.overdraws(*coord, *play), "move {} overdraws", n);
        assert_eq!(game.play(*coord, *play), Ok(()), "move {} was refused", n);
    }
    game
}

fn cell(game: &Sixes, coord: Coord) -> (u8, bool, Option<PlayerID>) {
    let board = game.board();
    let found: Vec<_> = board.iter().filter(|c| c.0 == coord).collect();
    assert_eq!(found.len(), 1);
    (found[0].1, found[0].2, found[0].3)
}

fn stones(game: &Sixes, id: PlayerID) -> u8 {
    let players = game.players();
    match id {
        PlayerID::One => players[0].1,
        PlayerID::Two => players[1].1,
    }
}

fn has_king(game: &Sixes, id: PlayerID) -> bool {
    let players = game.players();
    match id {
        PlayerID::One => players[0].2,
        PlayerID::Two => players[1].2,
    }
}

type Snapshot = (
    Vec<(Coord, u8, bool, Option<PlayerID>)>,
    Vec<(PlayerID, u8, bool)>,
    GameState,
    PlayerID,
    Vec<(Coord, Play)>,
);

fn snapshot(game: &Sixes) -> Snapshot {
    (game.board(), game.players(), game.game_state(), game.turn(), game.possible_moves())
}

/// A game in which player two, to move, has no stones left and the center is
/// still empty.
const TO_EMPTY_POOL: [(Coord, Play); 27] = [
    (D3, Stones),
    (E3, Stones),
    (A1, Stones),
    (D1, Stones),
    (B1, Stones),
    (D3, Stones),
    (D1, King),
    (D2, Stones),
    (E3, Stones),
    (A1, Stones),
    (D3, Stones),
    (E3, Stones),
    (A1, Stones),
    (D3, Stones),
    (D2, Stones),
    (B1, Stones),
    (B3, Stones),
    (A1, King),
    (B2, Stones),
    (B3, Stones),
    (B1, Stones),
    (D2, Stones),
    (E3, Stones),
    (B1, Stones),
    (C1, Stones),
    (E3, Stones),
    (C3, Stones),
];

#[test]
fn center_is_c2() {
    assert_eq!(CENTER_HEX, C2);
}

#[test]
fn start_is_an_empty_running_game() {
    let game = Sixes::start();
    assert_eq!(game.game_state(), GameState::Running);
    assert_eq!(game.turn(), PlayerID::One);
    assert_eq!(
        game.players(),
        vec![(PlayerID::One, 12, true), (PlayerID::Two, 12, true)]
    );
    let expected: Vec<_> = ALL.iter().map(|c| (*c, 0u8, false, None)).collect();
    assert_eq!(game.board(), expected);
}

#[test]
fn start_allows_stones_everywhere_and_no_king() {
    let game = Sixes::start();
    let expected: Vec<_> = ALL.iter().map(|c| (*c, Stones)).collect();
    assert_eq!(game.possible_moves(), expected);
}

#[test]
fn stones_on_empty_cell_earn_one_stone_net() {
    for coord in ALL {
        if coord == CENTER_HEX {
            continue;
        }
        let mut game = Sixes::start();
        assert_eq!(game.play(coord, Stones), Ok(()));
        assert_eq!(stones(&game, PlayerID::One), 13);
        assert_eq!(stones(&game, PlayerID::Two), 12);
        assert_eq!(cell(&game, coord), (1, false, Some(PlayerID::One)));
        assert_eq!(game.turn(), PlayerID::Two);
        assert_eq!(game.game_state(), GameState::Running);
    }
}

#[test]
fn first_move_scenario() {
    let mut game = Sixes::start();
    assert_eq!(game.play(B3, Stones), Ok(()));
    assert_eq!(game.players(), vec![(PlayerID::One, 13, true), (PlayerID::Two, 12, true)]);
    assert_eq!(cell(&game, B3), (1, false, Some(PlayerID::One)));
    for coord in ALL {
        if coord != B3 {
            assert_eq!(cell(&game, coord), (0, false, None));
        }
    }
    assert!(!game.possible_moves().iter().any(|m| m.0 == B3));
    assert_eq!(game.play(B3, Stones), Err(GameError::InvalidPlay));
    assert_eq!(game.play(B3, King), Err(GameError::InvalidPlay));
    assert_eq!(game.turn(), PlayerID::Two);
}

#[test]
fn stones_on_empty_center_earn_no_bonus() {
    let mut game = Sixes::start();
    assert_eq!(game.play(C2, Stones), Ok(()));
    assert_eq!(stones(&game, PlayerID::One), 11);
    assert_eq!(cell(&game, C2), (1, false, Some(PlayerID::One)));
}

#[test]
fn stones_on_owned_center_earn_no_bonus() {
    let game = after(&[(C2, Stones), (A1, Stones), (B1, Stones), (C2, Stones)]);
    assert_eq!(stones(&game, PlayerID::Two), 11);
    assert_eq!(stones(&game, PlayerID::One), 12);
    assert_eq!(cell(&game, C2), (2, false, Some(PlayerID::Two)));
}

#[test]
fn capture_costs_one_more_than_the_pile() {
    let game = after(&[(A1, Stones), (B1, Stones), (C3, Stones), (A1, Stones)]);
    assert_eq!(stones(&game, PlayerID::Two), 11);
    assert_eq!(stones(&game, PlayerID::One), 14);
    assert_eq!(cell(&game, A1), (2, false, Some(PlayerID::Two)));

    let game = after(&[(A1, Stones), (B1, Stones), (C3, Stones), (A1, Stones), (D1, Stones), (D2, Stones), (A1, Stones)]);
    assert_eq!(stones(&game, PlayerID::One), 12);
    assert_eq!(cell(&game, A1), (3, false, Some(PlayerID::One)));
}

#[test]
fn stones_never_go_on_own_cell() {
    let mut game = after(&[(A1, Stones), (B1, Stones)]);
    let before = snapshot(&game);
    assert_eq!(game.play(A1, Stones), Err(GameError::InvalidPlay));
    assert_eq!(game.play(A1, King), Err(GameError::InvalidPlay));
    assert_eq!(snapshot(&game), before);
}

#[test]
fn capture_needs_more_stones_than_the_pile() {
    let mut game = after(&[
        (C1, Stones),
        (B3, Stones),
        (C3, Stones),
        (A1, Stones),
        (B3, Stones),
        (C1, Stones),
        (A1, Stones),
        (B3, Stones),
        (C1, Stones),
        (A1, Stones),
        (B3, Stones),
        (C2, Stones),
    ]);
    // Player one holds three stones and A1, of player two, is three high.
    assert_eq!(game.turn(), PlayerID::One);
    assert_eq!(game.players(), vec![(PlayerID::One, 3, true), (PlayerID::Two, 5, true)]);
    assert_eq!(cell(&game, A1), (3, false, Some(PlayerID::Two)));
    assert_eq!(
        game.possible_moves(),
        vec![
            (A1, King),
            (B1, Stones),
            (B2, Stones),
            (D1, Stones),
            (D2, Stones),
            (D3, Stones),
            (E3, Stones),
        ]
    );
    let before = snapshot(&game);
    assert_eq!(game.play(A1, Stones), Err(GameError::InvalidPlay));
    assert_eq!(snapshot(&game), before);
    // One stone more and the pile can be outbid.
    assert_eq!(game.play(B1, Stones), Ok(()));
    assert_eq!(game.play(D1, Stones), Ok(()));
    assert_eq!(stones(&game, PlayerID::One), 4);
    assert_eq!(game.play(A1, Stones), Ok(()));
    assert_eq!(stones(&game, PlayerID::One), 5);
    assert_eq!(cell(&game, A1), (4, false, Some(PlayerID::One)));
}

#[test]
fn pool_emptied_exactly_is_refilled_from_graveyard() {
    let moves = [
        (D3, Stones),
        (D1, Stones),
        (B2, Stones),
        (C2, Stones),
        (B3, Stones),
        (B2, Stones),
        (D1, Stones),
        (D3, Stones),
        (B2, Stones),
        (B3, Stones),
        (C1, Stones),
        (B2, Stones),
        (D3, King),
    ];
    let mut game = after(&moves);
    // Player two holds two stones; five of its stones were captured.
    assert_eq!(game.players(), vec![(PlayerID::One, 11, false), (PlayerID::Two, 2, true)]);
    assert_eq!(cell(&game, C1), (1, false, Some(PlayerID::One)));
    // Capturing C1 costs both stones; the five captured stones come back.
    assert_eq!(game.play(C1, Stones), Ok(()));
    assert_eq!(game.players(), vec![(PlayerID::One, 11, false), (PlayerID::Two, 5, true)]);
    assert_eq!(cell(&game, C1), (2, false, Some(PlayerID::Two)));
}

#[test]
fn king_move_takes_the_cell_and_spends_the_king() {
    let game = after(&[(A1, Stones), (B2, Stones), (E3, Stones), (D1, Stones), (B2, King)]);
    assert_eq!(game.players(), vec![(PlayerID::One, 14, false), (PlayerID::Two, 14, true)]);
    assert_eq!(cell(&game, B2), (1, true, Some(PlayerID::One)));
    assert_eq!(game.turn(), PlayerID::Two);
}

#[test]
fn king_is_never_legal_on_an_empty_cell() {
    let mut game = Sixes::start();
    for coord in ALL {
        let before = snapshot(&game);
        assert_eq!(game.play(coord, King), Err(GameError::InvalidPlay));
        assert_eq!(snapshot(&game), before);
    }
}

#[test]
fn king_is_never_legal_on_the_center() {
    let mut game = after(&[(A1, Stones), (C2, Stones), (B3, Stones), (D1, Stones)]);
    assert_eq!(cell(&game, C2), (1, false, Some(PlayerID::Two)));
    let before = snapshot(&game);
    assert_eq!(game.play(C2, King), Err(GameError::InvalidPlay));
    assert_eq!(snapshot(&game), before);
    assert!(game.possible_moves().contains(&(C2, Stones)));
    assert!(!game.possible_moves().contains(&(C2, King)));
}

#[test]
fn king_on_a_king_cell_is_refused() {
    let mut game = after(&[
        (A1, Stones),
        (B2, Stones),
        (E3, Stones),
        (D1, Stones),
        (B2, King),
        (D2, Stones),
        (B3, Stones),
    ]);
    assert_eq!(game.turn(), PlayerID::Two);
    assert_eq!(cell(&game, B2), (1, true, Some(PlayerID::One)));
    assert!(has_king(&game, PlayerID::Two));
    let before = snapshot(&game);
    assert_eq!(game.play(B2, King), Err(GameError::InvalidPlay));
    assert_eq!(game.play(B2, Stones), Err(GameError::InvalidPlay));
    assert_eq!(snapshot(&game), before);
    assert_eq!(
        game.possible_moves(),
        vec![
            (A1, Stones),
            (A1, King),
            (B1, Stones),
            (C1, Stones),
            (C2, Stones),
            (C3, Stones),
            (D3, Stones),
            (E3, Stones),
            (E3, King),
        ]
    );
}

#[test]
fn king_needs_the_king_in_hand() {
    let mut game = after(&[
        (A1, Stones),
        (B2, Stones),
        (E3, Stones),
        (D1, Stones),
        (B2, King),
        (D2, Stones),
    ]);
    assert_eq!(game.turn(), PlayerID::One);
    assert!(!has_king(&game, PlayerID::One));
    assert_eq!(cell(&game, D1), (1, false, Some(PlayerID::Two)));
    assert_eq!(game.play(D1, King), Err(GameError::InvalidPlay));
    assert!(game.possible_moves().iter().all(|m| m.1 != King));
    assert_eq!(game.play(D1, Stones), Ok(()));
}

#[test]
fn spent_king_stays_spent() {
    let mut game = Sixes::start();
    let mut one_spent = false;
    let mut two_spent = false;
    for (coord, play) in TO_EMPTY_POOL {
        assert_eq!(game.play(coord, play), Ok(()));
        if one_spent {
            assert!(!has_king(&game, PlayerID::One));
        }
        if two_spent {
            assert!(!has_king(&game, PlayerID::Two));
        }
        one_spent = !has_king(&game, PlayerID::One);
        two_spent = !has_king(&game, PlayerID::Two);
    }
    assert!(one_spent && two_spent);
}

#[test]
fn replay_on_last_played_cell_is_refused() {
    let mut game = after(&[(A1, Stones), (B1, Stones), (C3, Stones)]);
    let before = snapshot(&game);
    assert_eq!(game.play(C3, Stones), Err(GameError::InvalidPlay));
    assert_eq!(snapshot(&game), before);
    assert_eq!(game.play(C3, King), Err(GameError::InvalidPlay));
    assert_eq!(snapshot(&game), before);
    // One turn later the cell is open again.
    assert_eq!(game.play(D1, Stones), Ok(()));
    assert_eq!(game.play(D2, Stones), Ok(()));
    assert_eq!(game.play(C3, Stones), Ok(()));
    assert_eq!(cell(&game, C3), (2, false, Some(PlayerID::Two)));
}

#[test]
fn last_played_cell_is_never_among_possible_moves() {
    let mut game = Sixes::start();
    for (coord, play) in TO_EMPTY_POOL {
        assert_eq!(game.play(coord, play), Ok(()));
        assert!(game.possible_moves().iter().all(|m| m.0 != coord));
    }
}

#[test]
fn possible_moves_are_exactly_the_accepted_moves() {
    let mut game = Sixes::start();
    for (coord, play) in TO_EMPTY_POOL {
        let possible = game.possible_moves();
        for target in ALL {
            for kind in [Stones, King] {
                let mut trial = game.clone();
                if trial.overdraws(target, kind) {
                    continue;
                }
                let accepted = trial.play(target, kind) != Err(GameError::InvalidPlay);
                assert_eq!(accepted, possible.contains(&(target, kind)));
            }
        }
        assert_eq!(game.play(coord, play), Ok(()));
    }
}

#[test]
fn possible_moves_come_in_board_order() {
    let game = after(&[(A1, Stones), (E3, Stones), (B1, Stones), (D3, Stones), (C1, Stones)]);
    assert_eq!(
        game.possible_moves(),
        vec![
            (A1, Stones),
            (A1, King),
            (B1, Stones),
            (B1, King),
            (B2, Stones),
            (B3, Stones),
            (C2, Stones),
            (C3, Stones),
            (D1, Stones),
            (D2, Stones),
        ]
    );
}

#[test]
fn line_held_for_two_turns_wins() {
    let mut game = after(&[(A1, Stones), (E3, Stones), (B1, Stones), (D3, Stones)]);
    assert_eq!(game.play(C1, Stones), Ok(()));
    // The line stands for the first time: no win yet.
    assert_eq!(game.game_state(), GameState::Running);
    assert_eq!(game.play(D2, Stones), Ok(()));
    // The line has survived the opponent's turn.
    assert_eq!(game.game_state(), GameState::Win(PlayerID::One));
    assert_eq!(game.players(), vec![(PlayerID::One, 15, true), (PlayerID::Two, 15, true)]);
    assert_eq!(game.turn(), PlayerID::One);
}

#[test]
fn broken_line_does_not_win() {
    let mut game = after(&[(A1, Stones), (E3, Stones), (B1, Stones), (D3, Stones), (C1, Stones)]);
    // Player two takes A1 back out of the line.
    assert_eq!(game.play(A1, Stones), Ok(()));
    assert_eq!(game.game_state(), GameState::Running);
    assert_eq!(game.play(D1, Stones), Ok(()));
    assert_eq!(game.game_state(), GameState::Running);
}

#[test]
fn line_held_by_a_king_cell_wins_too() {
    let mut game = after(&[
        (A1, Stones),
        (B1, Stones),
        (C1, Stones),
        (D1, Stones),
        (B1, King),
    ]);
    assert_eq!(game.game_state(), GameState::Running);
    assert_eq!(game.play(E3, Stones), Ok(()));
    assert_eq!(game.game_state(), GameState::Win(PlayerID::One));
}

#[test]
fn won_game_refuses_every_move() {
    let mut game = after(&[
        (A1, Stones),
        (E3, Stones),
        (B1, Stones),
        (D3, Stones),
        (C1, Stones),
        (D2, Stones),
    ]);
    assert_eq!(game.game_state(), GameState::Win(PlayerID::One));
    let before = snapshot(&game);
    for coord in ALL {
        for play in [Stones, King] {
            assert!(!game.overdraws(coord, play));
            assert_eq!(game.play(coord, play), Err(GameError::InvalidPlay));
        }
    }
    assert_eq!(snapshot(&game), before);
}

#[test]
fn empty_pool_cannot_pay_for_the_center() {
    let game = after(&TO_EMPTY_POOL);
    assert_eq!(game.turn(), PlayerID::Two);
    assert_eq!(game.game_state(), GameState::Running);
    assert_eq!(game.players(), vec![(PlayerID::One, 16, false), (PlayerID::Two, 0, false)]);
    assert_eq!(cell(&game, C2), (0, false, None));
    // The rules allow the move, but there is no stone to pay for it.
    assert_eq!(game.possible_moves(), vec![(C2, Stones)]);
    assert!(game.overdraws(C2, Stones));
    for coord in ALL {
        for play in [Stones, King] {
            assert_eq!(game.overdraws(coord, play), (coord, play) == (C2, Stones));
        }
    }
}

#[test]
fn board_after_a_long_game() {
    let game = after(&TO_EMPTY_POOL);
    assert_eq!(
        game.board(),
        vec![
            (A1, 3, true, Some(PlayerID::Two)),
            (B1, 4, false, Some(PlayerID::Two)),
            (B2, 1, false, Some(PlayerID::One)),
            (B3, 2, false, Some(PlayerID::Two)),
            (C1, 1, false, Some(PlayerID::One)),
            (C2, 0, false, None),
            (C3, 1, false, Some(PlayerID::One)),
            (D1, 1, true, Some(PlayerID::One)),
            (D2, 3, false, Some(PlayerID::Two)),
            (D3, 4, false, Some(PlayerID::Two)),
            (E3, 5, false, Some(PlayerID::Two)),
        ]
    );
}

#[test]
fn reset_starts_over() {
    let mut game = after(&TO_EMPTY_POOL);
    game.reset();
    assert_eq!(snapshot(&game), snapshot(&Sixes::start()));
    assert_eq!(game.play(A1, Stones), Ok(()));
    assert_eq!(stones(&game, PlayerID::One), 13);
}

#[test]
fn reset_reopens_a_won_game() {
    let mut game = after(&[
        (A1, Stones),
        (E3, Stones),
        (B1, Stones),
        (D3, Stones),
        (C1, Stones),
        (D2, Stones),
    ]);
    game.reset();
    assert_eq!(game.game_state(), GameState::Running);
    // The lines scored before the reset are forgotten.
    let mut game2 = game.clone();
    assert_eq!(game2.play(C3, Stones), Ok(()));
    assert_eq!(game2.game_state(), GameState::Running);
}

#[test]
fn queries_change_nothing() {
    let game = after(&[(A1, Stones), (B1, Stones), (C3, Stones)]);
    let first = snapshot(&game);
    let second = snapshot(&game);
    assert_eq!(first, second);
}

#[test]
fn cells_keep_their_owner_and_king() {
    let mut game = Sixes::start();
    for (coord, play) in TO_EMPTY_POOL {
        let before = game.board();
        assert_eq!(game.play(coord, play), Ok(()));
        let now = game.board();
        for (old, new) in before.iter().zip(now.iter()) {
            assert_eq!(old.0, new.0);
            assert!(new.1 >= old.1);
            assert!(new.2 || !old.2);
            assert!(new.3.is_some() || old.3.is_none());
            assert_eq!(new.3.is_none(), new.1 == 0 && !new.2);
            if old.0 != coord {
                assert_eq!(old, new);
            }
        }
    }
}

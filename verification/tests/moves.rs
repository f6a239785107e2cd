use tictactoe::{ErrorKind, Game, GameStatus, Player};

fn play(game: &mut Game, moves: &[(usize, usize)]) {
    for &(row, col) in moves {
        assert_eq!(game.make_move(row, col), Ok(()));
    }
}

#[test]
fn new_game_is_empty_with_x_to_move() {
    let game = Game::new();
    assert_eq!(game.board, [[None; 3]; 3]);
    assert_eq!(game.current_turn, Player::X);
    assert!(!game.is_full());
    assert_eq!(game.check_winner(), None);
    assert_eq!(game.status(), GameStatus::InProgress);
}

#[test]
fn default_game_is_a_new_game() {
    assert_eq!(Game::default(), Game::new());
}

#[test]
fn opponent_swaps_the_players() {
    assert_eq!(Player::X.opponent(), Player::O);
    assert_eq!(Player::O.opponent(), Player::X);
}

#[test]
fn move_to_each_open_cell_is_accepted() {
    for row in 0..3 {
        for col in 0..3 {
            let mut game = Game::new();
            assert_eq!(game.make_move(row, col), Ok(()));
            assert_eq!(game.board[row][col], Some(Player::X));
            for r in 0..3 {
                for c in 0..3 {
                    if (r, c) != (row, col) {
                        assert_eq!(game.board[r][c], None);
                    }
                }
            }
            assert_eq!(game.current_turn, Player::O);
        }
    }
}

#[test]
fn second_move_places_the_mark_of_o() {
    let mut game = Game::new();
    play(&mut game, &[(1, 1), (0, 2)]);
    assert_eq!(game.board[1][1], Some(Player::X));
    assert_eq!(game.board[0][2], Some(Player::O));
    assert_eq!(game.current_turn, Player::X);
}

#[test]
fn move_out_of_bounds_is_refused() {
    let mut game = Game::new();
    play(&mut game, &[(0, 0)]);
    let before = game;
    for &(row, col) in &[(3, 0), (0, 3), (3, 3), (usize::MAX, 1), (1, usize::MAX), (7, 9)] {
        assert_eq!(game.make_move(row, col), Err(ErrorKind::OutOfBounds));
        assert_eq!(game, before);
    }
}

#[test]
fn move_to_marked_cell_is_refused() {
    let mut game = Game::new();
    play(&mut game, &[(0, 0), (1, 1)]);
    let before = game;
    assert_eq!(game.make_move(0, 0), Err(ErrorKind::CellOccupied));
    assert_eq!(game, before);
    assert_eq!(game.make_move(1, 1), Err(ErrorKind::CellOccupied));
    assert_eq!(game, before);
}

#[test]
fn bounds_are_checked_before_anything_else() {
    let mut game = Game::new();
    play(&mut game, &[(0, 0), (1, 1), (0, 1), (2, 2), (0, 2)]);
    assert_eq!(game.check_winner(), Some(Player::X));
    assert_eq!(game.make_move(3, 3), Err(ErrorKind::OutOfBounds));
    assert_eq!(game.make_move(0, 0), Err(ErrorKind::CellOccupied));
    assert_eq!(game.make_move(2, 0), Err(ErrorKind::GameOver));
}

#[test]
fn turn_alternates_after_each_accepted_move() {
    let mut game = Game::new();
    let moves = [(0, 0), (0, 1), (0, 2), (1, 1)];
    let mut expected = Player::X;
    for &(row, col) in &moves {
        assert_eq!(game.current_turn, expected);
        assert_eq!(game.make_move(row, col), Ok(()));
        expected = expected.opponent();
        assert_eq!(game.current_turn, expected);
    }
}

#[test]
fn refused_move_keeps_the_turn() {
    let mut game = Game::new();
    play(&mut game, &[(2, 2)]);
    assert_eq!(game.current_turn, Player::O);
    assert!(game.make_move(2, 2).is_err());
    assert_eq!(game.current_turn, Player::O);
    assert!(game.make_move(5, 0).is_err());
    assert_eq!(game.current_turn, Player::O);
}

#[test]
fn winning_move_keeps_the_turn() {
    let mut game = Game::new();
    play(&mut game, &[(0, 0), (1, 1), (0, 1), (2, 2)]);
    assert_eq!(game.current_turn, Player::X);
    assert_eq!(game.make_move(0, 2), Ok(()));
    assert_eq!(game.check_winner(), Some(Player::X));
    assert_eq!(game.current_turn, Player::X);
}

#[test]
fn winning_move_of_o_keeps_the_turn() {
    let mut game = Game::new();
    play(&mut game, &[(0, 0), (1, 1), (0, 1), (0, 2), (2, 2)]);
    assert_eq!(game.current_turn, Player::O);
    assert_eq!(game.make_move(2, 0), Ok(()));
    assert_eq!(game.check_winner(), Some(Player::O));
    assert_eq!(game.current_turn, Player::O);
    assert_eq!(game.status(), GameStatus::Won(Player::O));
}

#[test]
fn move_after_a_win_is_refused() {
    let mut game = Game::new();
    play(&mut game, &[(0, 0), (1, 1), (0, 1), (2, 2), (0, 2)]);
    let before = game;
    for row in 0..3 {
        for col in 0..3 {
            let expected = if before.board[row][col].is_some() {
                ErrorKind::CellOccupied
            } else {
                ErrorKind::GameOver
            };
            assert_eq!(game.make_move(row, col), Err(expected));
            assert_eq!(game, before);
        }
    }
}

#[test]
fn top_row_scenario() {
    let mut game = Game::new();
    play(&mut game, &[(0, 0), (1, 1), (0, 1), (2, 2), (0, 2)]);
    assert_eq!(game.check_winner(), Some(Player::X));
    assert_eq!(game.status(), GameStatus::Won(Player::X));
    assert!(!game.is_full());
}

#[test]
fn draw_scenario() {
    // X O X
    // X O O
    // O X X
    let mut game = Game::new();
    play(
        &mut game,
        &[(0, 0), (0, 1), (0, 2), (1, 1), (1, 0), (1, 2), (2, 1), (2, 0), (2, 2)],
    );
    assert_eq!(game.check_winner(), None);
    assert!(game.is_full());
    assert_eq!(game.status(), GameStatus::Draw);
    let before = game;
    for row in 0..3 {
        for col in 0..3 {
            assert_eq!(game.make_move(row, col), Err(ErrorKind::CellOccupied));
        }
    }
    assert_eq!(game, before);
}

#[test]
fn is_full_needs_every_cell() {
    let mut game = Game::new();
    let moves = [(0, 0), (0, 1), (0, 2), (1, 1), (1, 0), (1, 2), (2, 1), (2, 0)];
    for &(row, col) in &moves {
        assert!(!game.is_full());
        assert_eq!(game.make_move(row, col), Ok(()));
    }
    assert!(!game.is_full());
    assert_eq!(game.make_move(2, 2), Ok(()));
    assert!(game.is_full());
}

#[test]
fn is_full_looks_at_the_last_cell_of_each_row() {
    let x = Some(Player::X);
    for row in 0..3 {
        for col in 0..3 {
            let mut board = [[x; 3]; 3];
            board[row][col] = None;
            let game = Game { board, current_turn: Player::O };
            assert!(!game.is_full());
        }
    }
}

#[test]
fn mark_count_grows_by_one_per_accepted_move() {
    let mut game = Game::new();
    let requests = [(0, 0), (0, 0), (1, 1), (4, 4), (0, 1), (2, 2), (1, 1), (0, 2)];
    let mut accepted = 0;
    for &(row, col) in &requests {
        if game.make_move(row, col).is_ok() {
            accepted += 1;
        }
        let marks = game.board.iter().flatten().filter(|cell| cell.is_some()).count();
        assert_eq!(marks, accepted);
    }
    assert_eq!(accepted, 5);
}

#[test]
fn error_messages() {
    assert_eq!(ErrorKind::OutOfBounds.message(), "Invalid move: out of bounds");
    assert_eq!(ErrorKind::CellOccupied.message(), "Invalid move: cell already taken");
    assert_eq!(ErrorKind::GameOver.message(), "Invalid move: game is over");
    assert_eq!(ErrorKind::NoMovesAvailable.message(), "No available moves");
}

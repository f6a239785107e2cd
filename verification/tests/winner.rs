use tictactoe::{Game, GameStatus, Player};

const X: Option<Player> = Some(Player::X);
const O: Option<Player> = Some(Player::O);
const E: Option<Player> = None;

fn with_board(board: [[Option<Player>; 3]; 3]) -> Game {
    Game { board, current_turn: Player::X }
}

#[test]
fn winner_none_on_empty_board() {
    assert_eq!(Game::new().check_winner(), None);
}

fn no_winner_in_any_line_of_play(game: Game, depth: usize) {
    assert_eq!(game.check_winner(), None);
    if depth == 0 {
        return;
    }
    for row in 0..3 {
        for col in 0..3 {
            let mut next = game;
            if next.make_move(row, col).is_ok() {
                no_winner_in_any_line_of_play(next, depth - 1);
            }
        }
    }
}

#[test]
fn winner_none_with_fewer_than_five_marks() {
    no_winner_in_any_line_of_play(Game::new(), 4);
}

#[test]
fn fifth_mark_can_win() {
    let mut game = Game::new();
    for &(row, col) in &[(1, 1), (0, 0), (0, 2), (0, 1)] {
        assert_eq!(game.make_move(row, col), Ok(()));
        assert_eq!(game.check_winner(), None);
    }
    assert_eq!(game.make_move(2, 0), Ok(()));
    assert_eq!(game.check_winner(), Some(Player::X));
}

#[test]
fn each_row_wins() {
    for row in 0..3 {
        for &player in &[Player::X, Player::O] {
            let mut board = [[E; 3]; 3];
            board[row] = [Some(player); 3];
            assert_eq!(with_board(board).check_winner(), Some(player));
        }
    }
}

#[test]
fn each_column_wins() {
    for col in 0..3 {
        for &player in &[Player::X, Player::O] {
            let mut board = [[E; 3]; 3];
            for row in 0..3 {
                board[row][col] = Some(player);
            }
            assert_eq!(with_board(board).check_winner(), Some(player));
        }
    }
}

#[test]
fn both_diagonals_win() {
    assert_eq!(with_board([[X, E, E], [E, X, E], [E, E, X]]).check_winner(), Some(Player::X));
    assert_eq!(with_board([[E, E, O], [E, O, E], [O, E, E]]).check_winner(), Some(Player::O));
}

#[test]
fn mixed_or_open_lines_do_not_win() {
    assert_eq!(with_board([[X, X, O], [E, E, E], [E, E, E]]).check_winner(), None);
    assert_eq!(with_board([[X, X, E], [O, O, E], [E, E, E]]).check_winner(), None);
    assert_eq!(with_board([[X, O, X], [O, X, O], [O, X, O]]).check_winner(), None);
    assert_eq!(with_board([[E, E, E], [E, E, E], [E, E, E]]).check_winner(), None);
}

#[test]
fn first_complete_line_in_order_decides() {
    // rows are looked at from the top
    assert_eq!(with_board([[X, X, X], [O, O, O], [E, E, E]]).check_winner(), Some(Player::X));
    assert_eq!(with_board([[E, E, E], [O, O, O], [X, X, X]]).check_winner(), Some(Player::O));
    // columns from the left
    assert_eq!(with_board([[O, X, E], [O, X, E], [O, X, E]]).check_winner(), Some(Player::O));
    assert_eq!(with_board([[E, X, O], [E, X, O], [E, X, O]]).check_winner(), Some(Player::X));
}

#[test]
fn winner_does_not_depend_on_the_turn() {
    let board = [[X, X, X], [O, O, E], [E, E, E]];
    let a = Game { board, current_turn: Player::X };
    let b = Game { board, current_turn: Player::O };
    assert_eq!(a.check_winner(), b.check_winner());
}

#[test]
fn winner_twice_gives_the_same_and_changes_nothing() {
    let boards = [
        [[E, E, E], [E, E, E], [E, E, E]],
        [[X, X, X], [O, O, E], [E, E, E]],
        [[X, O, X], [X, O, O], [O, X, X]],
        [[O, E, X], [E, O, X], [E, E, O]],
    ];
    for &board in &boards {
        let game = with_board(board);
        let before = game;
        let first = game.check_winner();
        let second = game.check_winner();
        assert_eq!(first, second);
        assert_eq!(game, before);
    }
}

#[test]
fn check_winner_with_board_asks_for_one_player() {
    let game = Game::new();
    let board = [[X, X, X], [O, O, E], [E, E, E]];
    assert_eq!(game.check_winner_with_board(&board, Player::X), Some(Player::X));
    assert_eq!(game.check_winner_with_board(&board, Player::O), None);
    let both = [[X, X, X], [O, O, O], [E, E, E]];
    assert_eq!(game.check_winner_with_board(&both, Player::X), Some(Player::X));
    assert_eq!(game.check_winner_with_board(&both, Player::O), Some(Player::O));
    let none = [[X, O, X], [X, O, O], [O, X, X]];
    assert_eq!(game.check_winner_with_board(&none, Player::X), None);
    assert_eq!(game.check_winner_with_board(&none, Player::O), None);
}

#[test]
fn check_winner_with_board_sees_every_line() {
    let game = Game::new();
    let lines: [[(usize, usize); 3]; 8] = [
        [(0, 0), (0, 1), (0, 2)],
        [(1, 0), (1, 1), (1, 2)],
        [(2, 0), (2, 1), (2, 2)],
        [(0, 0), (1, 0), (2, 0)],
        [(0, 1), (1, 1), (2, 1)],
        [(0, 2), (1, 2), (2, 2)],
        [(0, 0), (1, 1), (2, 2)],
        [(0, 2), (1, 1), (2, 0)],
    ];
    for line in &lines {
        let mut board = [[E; 3]; 3];
        for &(row, col) in line {
            board[row][col] = O;
        }
        assert_eq!(game.check_winner_with_board(&board, Player::O), Some(Player::O));
        assert_eq!(game.check_winner_with_board(&board, Player::X), None);
        assert_eq!(with_board(board).check_winner(), Some(Player::O));
        // one cell short of the line
        board[line[1].0][line[1].1] = E;
        assert_eq!(game.check_winner_with_board(&board, Player::O), None);
        assert_eq!(with_board(board).check_winner(), None);
    }
}

#[test]
fn status_of_each_kind() {
    assert_eq!(with_board([[E; 3]; 3]).status(), GameStatus::InProgress);
    assert_eq!(with_board([[X, O, E], [E, E, E], [E, E, E]]).status(), GameStatus::InProgress);
    assert_eq!(with_board([[X, O, X], [X, O, O], [O, X, X]]).status(), GameStatus::Draw);
    assert_eq!(
        with_board([[X, O, O], [X, O, E], [X, E, E]]).status(),
        GameStatus::Won(Player::X)
    );
    // a full board with a line is won, not drawn
    assert_eq!(
        with_board([[X, X, X], [O, O, X], [X, O, O]]).status(),
        GameStatus::Won(Player::X)
    );
}

//! The game state and the operations that advance it.

use crate::rules::{
    board_empty, board_full, first_owner, has_line, in_bounds, line_owner, mark_count, place,
    winner_of,
};
use crate::theorems::{lemma_fresh_is_well_formed, lemma_step_keeps_well_formed};
use vstd::prelude::*;

verus! {

/// One of the two players.
#[derive(Debug, Clone, Copy, PartialEq, Eq, Structural)]
pub enum Player {
    X,
    O,
}

/// The 3×3 grid of cells, indexed by row and then by column. A cell is empty
/// (`None`) or holds one player's mark.
pub type Board = [[Option<Player>; 3]; 3];

/// Why a request was refused.
#[derive(Debug, Clone, Copy, PartialEq, Eq, Structural)]
pub enum ErrorKind {
    /// The row or the column is not in `0..3`.
    OutOfBounds,
    /// The target cell already holds a mark.
    CellOccupied,
    /// The game has a winner, so no further mark may be placed.
    GameOver,
    /// The computer was asked to move on a full board.
    NoMovesAvailable,
}

/// Where a match stands.
#[derive(Debug, Clone, Copy, PartialEq, Eq, Structural)]
pub enum GameStatus {
    /// No line is complete and a cell is still open.
    InProgress,
    /// The player has completed a line.
    Won(Player),
    /// Every cell is marked and no line is complete.
    Draw,
}

/// Where a match with this board stands.
pub open spec fn status_of(board: Board) -> GameStatus {
    match winner_of(board) {
        Some(player) => GameStatus::Won(player),
        None => if board_full(board) {
            GameStatus::Draw
        } else {
            GameStatus::InProgress
        },
    }
}

/// A match: the board and the player whose turn it is.
#[derive(Debug, Clone, Copy, PartialEq, Eq)]
pub struct Game {
    pub board: Board,
    pub current_turn: Player,
}

impl Player {
    /// The other player.
    pub open spec fn other(self) -> Player {
        match self {
            Player::X => Player::O,
            Player::O => Player::X,
        }
    }

    /// The other player.
    pub fn opponent(self) -> (p: Player)
        ensures
            p == self.other(),
    {
        match self {
            Player::X => Player::O,
            Player::O => Player::X,
        }
    }
}

impl ErrorKind {
    /// The text that [`ErrorKind::message`] gives for this refusal.
    pub open spec fn text(self) -> Seq<char> {
        match self {
            ErrorKind::OutOfBounds => "Invalid move: out of bounds"@,
            ErrorKind::CellOccupied => "Invalid move: cell already taken"@,
            ErrorKind::GameOver => "Invalid move: game is over"@,
            ErrorKind::NoMovesAvailable => "No available moves"@,
        }
    }

    /// A line of text for the user.
    pub fn message(&self) -> (message: String)
        ensures
            message@ == self.text(),
    {
        match self {
            ErrorKind::OutOfBounds => "Invalid move: out of bounds".to_string(),
            ErrorKind::CellOccupied => "Invalid move: cell already taken".to_string(),
            ErrorKind::GameOver => "Invalid move: game is over".to_string(),
            ErrorKind::NoMovesAvailable => "No available moves".to_string(),
        }
    }
}

impl Game {
    /// Whether this is the state a match starts in: an empty board, `X` to move.
    pub open spec fn is_fresh(self) -> bool {
        board_empty(self.board) && self.current_turn == Player::X
    }

    /// The verdict on a request to mark `(row, col)`. The checks are made in this
    /// order: the coordinates, the cell, the game being over.
    pub open spec fn check_move(self, row: int, col: int) -> Result<(), ErrorKind> {
        if !in_bounds(row, col) {
            Err(ErrorKind::OutOfBounds)
        } else if self.board[row][col] is Some {
            Err(ErrorKind::CellOccupied)
        } else if winner_of(self.board) is Some {
            Err(ErrorKind::GameOver)
        } else {
            Ok(())
        }
    }

    /// The state after the player to move has marked `(row, col)`: the turn
    /// passes to the other player unless the mark wins the game.
    pub open spec fn after_move(self, row: int, col: int) -> Game {
        let board = place(self.board, row, col, self.current_turn);
        Game {
            board,
            current_turn: if winner_of(board) is Some {
                self.current_turn
            } else {
                self.current_turn.other()
            },
        }
    }

    /// The state after a request to mark `(row, col)`: [`Game::after_move`] where
    /// the request is accepted, the state unchanged where it is refused.
    pub open spec fn step(self, row: int, col: int) -> Game {
        if self.check_move(row, col) is Ok {
            self.after_move(row, col)
        } else {
            self
        }
    }

    /// What every state that play can reach from a new match satisfies.
    ///
    /// The two players never both hold a line. While nobody has won, `X` is to
    /// move exactly when both have placed equally many marks, and `O` when `X`
    /// is one ahead. Once a player has won, the turn has stayed with the winner,
    /// who placed the last mark.
    pub open spec fn well_formed(self) -> bool {
        let x = mark_count(self.board, Player::X);
        let o = mark_count(self.board, Player::O);
        &&& !(has_line(self.board, Player::X) && has_line(self.board, Player::O))
        &&& match winner_of(self.board) {
            None => if self.current_turn == Player::X {
                x == o
            } else {
                x == o + 1
            },
            Some(winner) => winner == self.current_turn && if winner == Player::X {
                x == o + 1
            } else {
                x == o
            },
        }
    }

    /// The state after a sequence of requests, each a cell to mark, made one
    /// after the other.
    pub open spec fn play(self, requests: Seq<(int, int)>) -> Game
        decreases requests.len(),
    {
        if requests.len() == 0 {
            self
        } else {
            self.play(requests.drop_last()).step(requests.last().0, requests.last().1)
        }
    }

    /// The number of requests of the sequence that are accepted when they are
    /// made one after the other.
    pub open spec fn accepted(self, requests: Seq<(int, int)>) -> nat
        decreases requests.len(),
    {
        if requests.len() == 0 {
            0
        } else {
            let before = self.play(requests.drop_last());
            let last: nat = if before.check_move(requests.last().0, requests.last().1) is Ok {
                1
            } else {
                0
            };
            self.accepted(requests.drop_last()) + last
        }
    }

    /// A new match: an empty board, `X` to move.
    pub fn new() -> (game: Game)
        ensures
            game.is_fresh(),
            game.well_formed(),
    {
        Self::default()
    }

    /// Whether every cell holds a mark.
    pub fn is_full(&self) -> (full: bool)
        ensures
            full == board_full(self.board),
    {
        let mut row: usize = 0;
        while row < 3
            invariant
                row <= 3,
                forall|r: int, c: int| 0 <= r < row && 0 <= c < 3 ==> self.board[r][c] is Some,
            decreases 3 - row,
        {
            let mut col: usize = 0;
            while col < 3
                invariant
                    row < 3,
                    col <= 3,
                    forall|r: int, c: int| 0 <= r < row && 0 <= c < 3 ==> self.board[r][c] is Some,
                    forall|c: int| 0 <= c < col ==> self.board[row as int][c] is Some,
                decreases 3 - col,
            {
                if self.board[row][col].is_none() {
                    return false;
                }
                col += 1;
            }
            row += 1;
        }
        true
    }

    /// Marks `(row, col)` for the player to move.
    ///
    /// The request is refused, and the state left as it was, with `OutOfBounds`
    /// where a coordinate is not in `0..3`, else with `CellOccupied` where the
    /// cell holds a mark, else with `GameOver` where the board already has a
    /// winner. Otherwise the mark is written, and the turn passes to the other
    /// player unless the mark completes a line.
    pub fn make_move(&mut self, row: usize, col: usize) -> (res: Result<(), ErrorKind>)
        ensures
            res == old(self).check_move(row as int, col as int),
            res is Ok ==> *final(self) == old(self).after_move(row as int, col as int),
            res is Err ==> *final(self) == *old(self),
            old(self).well_formed() ==> final(self).well_formed(),
    {
        proof {
            if self.well_formed() {
                lemma_step_keeps_well_formed(*self, row as int, col as int);
            }
        }
        if row >= 3 || col >= 3 {
            return Err(ErrorKind::OutOfBounds);
        }
        if self.board[row][col].is_some() {
            return Err(ErrorKind::CellOccupied);
        }
        if self.check_winner().is_some() {
            return Err(ErrorKind::GameOver);
        }
        self.board[row][col] = Some(self.current_turn);
        if self.check_winner().is_none() {
            self.current_turn = self.current_turn.opponent();
        }
        Ok(())
    }

    /// Where the match stands: won, drawn or in progress.
    pub fn status(&self) -> (status: GameStatus)
        ensures
            status == status_of(self.board),
    {
        match self.check_winner() {
            Some(player) => GameStatus::Won(player),
            None => if self.is_full() {
                GameStatus::Draw
            } else {
                GameStatus::InProgress
            },
        }
    }

    /// The winner of the board as it stands: the owner of the first complete
    /// line, looking at row `i` and then column `i` for `i` = 0, 1, 2, then at
    /// the two diagonals. `None` while no line is complete.
    pub fn check_winner(&self) -> (winner: Option<Player>)
        ensures
            winner == winner_of(self.board),
    {
        let mut i: usize = 0;
        while i < 3
            invariant
                i <= 3,
                winner_of(self.board) == first_owner(self.board, 2 * i),
            decreases 3 - i,
        {
            proof {
                reveal_with_fuel(first_owner, 3);
            }
            if self.board[i][0] == self.board[i][1] && self.board[i][1] == self.board[i][2] {
                if let Some(player) = self.board[i][0] {
                    return Some(player);
                }
            }
            if self.board[0][i] == self.board[1][i] && self.board[1][i] == self.board[2][i] {
                if let Some(player) = self.board[0][i] {
                    return Some(player);
                }
            }
            i += 1;
        }
        proof {
            reveal_with_fuel(first_owner, 3);
        }
        if self.board[0][0] == self.board[1][1] && self.board[1][1] == self.board[2][2] {
            if let Some(player) = self.board[0][0] {
                return Some(player);
            }
        }
        if self.board[0][2] == self.board[1][1] && self.board[1][1] == self.board[2][0] {
            if let Some(player) = self.board[0][2] {
                return Some(player);
            }
        }
        None
    }

    /// `Some(player)` where `player` fills one of the eight lines of `board`,
    /// else `None`.
    pub fn check_winner_with_board(&self, board: &Board, player: Player) -> (winner: Option<
        Player,
    >)
        ensures
            winner == (if has_line(*board, player) {
                Some(player)
            } else {
                None
            }),
    {
        let mut i: usize = 0;
        while i < 3
            invariant
                i <= 3,
                forall|k: int| 0 <= k < 2 * i ==> line_owner(*board, k) != Some(player),
            decreases 3 - i,
        {
            if board[i][0] == board[i][1] && board[i][1] == board[i][2] {
                if let Some(p) = board[i][0] {
                    if p == player {
                        assert(line_owner(*board, 2 * i) == Some(player));
                        return Some(player);
                    }
                }
            }
            if board[0][i] == board[1][i] && board[1][i] == board[2][i] {
                if let Some(p) = board[0][i] {
                    if p == player {
                        assert(line_owner(*board, 2 * i + 1) == Some(player));
                        return Some(player);
                    }
                }
            }
            i += 1;
        }
        if board[0][0] == board[1][1] && board[1][1] == board[2][2] {
            if let Some(p) = board[0][0] {
                if p == player {
                    assert(line_owner(*board, 6) == Some(player));
                    return Some(player);
                }
            }
        }
        if board[0][2] == board[1][1] && board[1][1] == board[2][0] {
            if let Some(p) = board[0][2] {
                if p == player {
                    assert(line_owner(*board, 7) == Some(player));
                    return Some(player);
                }
            }
        }
        None
    }
}

impl Default for Game {
    /// A new match: an empty board, `X` to move.
    fn default() -> (game: Game)
        ensures
            game.is_fresh(),
            game.well_formed(),
    {
        let game = Game { board: [[None; 3]; 3], current_turn: Player::X };
        proof {
            lemma_fresh_is_well_formed(game);
        }
        game
    }
}

} // verus!

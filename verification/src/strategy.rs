//! The computer opponent: a fixed ladder of rules, tried from the top.
//!
//! 1. complete a line of its own; 2. block a line of the opponent; 3. take the
//! centre; 4. take the first free corner; 5. take any free cell at random.

use crate::chance::choose_cell;
use crate::game::{status_of, Board, ErrorKind, Game, GameStatus, Player};
use crate::rules::{board_full, has_line, in_bounds, is_open, place, winner_of};
use vstd::prelude::*;

verus! {

/// Whether `(row, col)` is open and `player`'s mark there would fill a line.
pub open spec fn completes_line(board: Board, row: int, col: int, player: Player) -> bool {
    is_open(board, row, col) && has_line(place(board, row, col, player), player)
}

/// The first cell among those at row-major positions `k`, `k + 1`, …, 8 at which
/// `player` would complete a line. Position `k` is row `k / 3`, column `k % 3`.
pub open spec fn winning_cell_from(board: Board, player: Player, k: int) -> Option<(int, int)>
    decreases 9 - k,
{
    if k < 0 || k >= 9 {
        None
    } else if completes_line(board, k / 3, k % 3, player) {
        Some((k / 3, k % 3))
    } else {
        winning_cell_from(board, player, k + 1)
    }
}

/// The first cell, in row-major order, at which `player` would complete a line.
pub open spec fn winning_cell(board: Board, player: Player) -> Option<(int, int)> {
    winning_cell_from(board, player, 0)
}

/// The first open corner in the order (0,0), (0,2), (2,0), (2,2).
pub open spec fn open_corner(board: Board) -> Option<(int, int)> {
    if board[0][0] is None {
        Some((0, 0))
    } else if board[0][2] is None {
        Some((0, 2))
    } else if board[2][0] is None {
        Some((2, 0))
    } else if board[2][2] is None {
        Some((2, 2))
    } else {
        None
    }
}

/// The cell that the deterministic rules pick for the computer, which plays
/// `O`: a cell that wins for `O`, else a cell that stops `X` from winning, else
/// the centre, else a corner. `None` where none of the four applies.
pub open spec fn ladder_cell(board: Board) -> Option<(int, int)> {
    if winning_cell(board, Player::O) is Some {
        winning_cell(board, Player::O)
    } else if winning_cell(board, Player::X) is Some {
        winning_cell(board, Player::X)
    } else if board[1][1] is None {
        Some((1, 1))
    } else {
        open_corner(board)
    }
}

/// The open cells among those at row-major positions below `k`, in row-major
/// order.
pub open spec fn open_cells_upto(board: Board, k: int) -> Seq<(usize, usize)>
    decreases k,
{
    if k <= 0 {
        Seq::empty()
    } else {
        let rest = open_cells_upto(board, k - 1);
        if is_open(board, (k - 1) / 3, (k - 1) % 3) {
            rest.push((((k - 1) / 3) as usize, ((k - 1) % 3) as usize))
        } else {
            rest
        }
    }
}

/// The cell that the computer marks when the caller's draw is `fallback`: the
/// cell of [`ladder_cell`] where there is one, else `fallback`.
pub open spec fn ai_cell(board: Board, fallback: (int, int)) -> (int, int) {
    match ladder_cell(board) {
        Some(cell) => cell,
        None => fallback,
    }
}

/// All open cells of the board, in row-major order.
pub open spec fn open_cells(board: Board) -> Seq<(usize, usize)> {
    open_cells_upto(board, 9)
}

/// A cell with machine-integer coordinates as a cell of the model.
pub open spec fn as_cell(cell: Option<(usize, usize)>) -> Option<(int, int)> {
    match cell {
        Some((row, col)) => Some((row as int, col as int)),
        None => None,
    }
}

/// A winning cell is open, and the player's mark there fills a line.
pub proof fn lemma_winning_cell_completes(board: Board, player: Player, k: int)
    requires
        0 <= k,
        winning_cell_from(board, player, k) is Some,
    ensures
        ({
            let (row, col) = winning_cell_from(board, player, k)->0;
            k <= 3 * row + col && completes_line(board, row, col, player)
        }),
    decreases 9 - k,
{
    if k < 9 && !completes_line(board, k / 3, k % 3, player) {
        lemma_winning_cell_completes(board, player, k + 1);
    }
}

/// No cell before the winning cell, from position `k` on, completes a line.
pub proof fn lemma_winning_cell_is_first(board: Board, player: Player, k: int, row: int, col: int)
    requires
        0 <= k <= 3 * row + col,
        in_bounds(row, col),
        winning_cell_from(board, player, k) matches Some(cell) && 3 * row + col < 3 * cell.0
            + cell.1,
    ensures
        !completes_line(board, row, col, player),
    decreases 9 - k,
{
    if k < 3 * row + col {
        lemma_winning_cell_is_first(board, player, k + 1, row, col);
    }
}

/// No cell from position `k` on completes a line where there is no winning cell.
pub proof fn lemma_no_winning_cell(board: Board, player: Player, k: int, row: int, col: int)
    requires
        0 <= k <= 3 * row + col,
        in_bounds(row, col),
        winning_cell_from(board, player, k) is None,
    ensures
        !completes_line(board, row, col, player),
    decreases 9 - k,
{
    if k < 3 * row + col {
        lemma_no_winning_cell(board, player, k + 1, row, col);
    }
}

/// The cell that the deterministic rules pick is open.
pub proof fn lemma_ladder_cell_open(board: Board)
    requires
        ladder_cell(board) is Some,
    ensures
        ({
            let (row, col) = ladder_cell(board)->0;
            is_open(board, row, col)
        }),
{
    if winning_cell(board, Player::O) is Some {
        lemma_winning_cell_completes(board, Player::O, 0);
    } else if winning_cell(board, Player::X) is Some {
        lemma_winning_cell_completes(board, Player::X, 0);
    }
}

/// Every listed cell is open.
pub proof fn lemma_open_cells_are_open(board: Board, k: int, i: int)
    requires
        0 <= k <= 9,
        0 <= i < open_cells_upto(board, k).len(),
    ensures
        ({
            let (row, col) = open_cells_upto(board, k)[i];
            is_open(board, row as int, col as int)
        }),
    decreases k,
{
    if k > 0 {
        let rest = open_cells_upto(board, k - 1);
        if i < rest.len() {
            lemma_open_cells_are_open(board, k - 1, i);
        }
    }
}

/// Every open cell below position `k` is listed.
pub proof fn lemma_open_cells_complete(board: Board, k: int, row: int, col: int)
    requires
        is_open(board, row, col),
        3 * row + col < k <= 9,
    ensures
        open_cells_upto(board, k).contains((row as usize, col as usize)),
    decreases k,
{
    let rest = open_cells_upto(board, k - 1);
    if 3 * row + col < k - 1 {
        lemma_open_cells_complete(board, k - 1, row, col);
        let i = choose|i: int| 0 <= i < rest.len() && rest[i] == (row as usize, col as usize);
        assert(open_cells_upto(board, k)[i] == (row as usize, col as usize));
    } else {
        assert(open_cells_upto(board, k) == rest.push((row as usize, col as usize)));
        assert(open_cells_upto(board, k)[rest.len() as int] == (row as usize, col as usize));
    }
}

impl Game {
    /// Whether the computer may answer this state by marking `(row, col)`: the
    /// cell of [`ladder_cell`] where there is one, else any open cell.
    pub open spec fn ai_may_play(self, row: int, col: int) -> bool {
        match ladder_cell(self.board) {
            Some(cell) => cell == (row, col),
            None => is_open(self.board, row, col),
        }
    }

    /// Whether it is for the computer to move: the match is in progress and it
    /// is the turn of `O`.
    pub fn ai_to_move(&self) -> (due: bool)
        ensures
            due == (self.current_turn == Player::O && status_of(self.board)
                == GameStatus::InProgress),
    {
        self.current_turn == Player::O && self.status() == GameStatus::InProgress
    }

    /// The first cell, in row-major order, that is open and at which `player`'s
    /// mark would fill a line.
    pub fn find_winning_move(&self, player: Player) -> (found: Option<(usize, usize)>)
        ensures
            as_cell(found) == winning_cell(self.board, player),
    {
        let mut i: usize = 0;
        while i < 3
            invariant
                i <= 3,
                winning_cell(self.board, player) == winning_cell_from(self.board, player, 3 * i),
            decreases 3 - i,
        {
            let mut j: usize = 0;
            while j < 3
                invariant
                    i < 3,
                    j <= 3,
                    winning_cell(self.board, player) == winning_cell_from(
                        self.board,
                        player,
                        3 * i + j,
                    ),
                decreases 3 - j,
            {
                if self.board[i][j].is_none() {
                    let mut board_copy = self.board;
                    board_copy[i][j] = Some(player);
                    if self.check_winner_with_board(&board_copy, player).is_some() {
                        return Some((i, j));
                    }
                }
                j += 1;
            }
            i += 1;
        }
        None
    }

    /// The move that the four deterministic rules pick, if any. The computer
    /// plays `O`: it looks for a cell that wins for `O`, then for one that stops
    /// `X` from winning, then at the centre, then at the corners.
    pub fn ladder_move(&self) -> (found: Option<(usize, usize)>)
        ensures
            as_cell(found) == ladder_cell(self.board),
    {
        if let Some(cell) = self.find_winning_move(Player::O) {
            return Some(cell);
        }
        if let Some(cell) = self.find_winning_move(Player::X) {
            return Some(cell);
        }
        if self.board[1][1].is_none() {
            return Some((1, 1));
        }
        if self.board[0][0].is_none() {
            return Some((0, 0));
        }
        if self.board[0][2].is_none() {
            return Some((0, 2));
        }
        if self.board[2][0].is_none() {
            return Some((2, 0));
        }
        if self.board[2][2].is_none() {
            return Some((2, 2));
        }
        None
    }

    /// The open cells of the board, in row-major order.
    pub fn empty_cells(&self) -> (cells: Vec<(usize, usize)>)
        ensures
            cells@ == open_cells(self.board),
    {
        let mut cells: Vec<(usize, usize)> = Vec::new();
        let mut i: usize = 0;
        while i < 3
            invariant
                i <= 3,
                cells@ == open_cells_upto(self.board, 3 * i),
            decreases 3 - i,
        {
            let mut j: usize = 0;
            while j < 3
                invariant
                    i < 3,
                    j <= 3,
                    cells@ == open_cells_upto(self.board, 3 * i + j),
                decreases 3 - j,
            {
                if self.board[i][j].is_none() {
                    cells.push((i, j));
                }
                j += 1;
            }
            i += 1;
        }
        cells
    }

    /// Plays the computer's move, with the random draw supplied by the caller.
    ///
    /// On a full board nothing is played and `NoMovesAvailable` comes back.
    /// Otherwise the move goes to the cell of [`ladder_cell`] or, where no rule
    /// of the ladder applies, to `fallback`; it is made as [`Game::make_move`]
    /// makes it, with the same refusals.
    pub fn ai_move_with(&mut self, fallback: (usize, usize)) -> (res: Result<(), ErrorKind>)
        ensures
            board_full(old(self).board) ==> res == Err::<(), ErrorKind>(
                ErrorKind::NoMovesAvailable,
            ) && *final(self) == *old(self),
            !board_full(old(self).board) ==> ({
                let (row, col) = ai_cell(old(self).board, (fallback.0 as int, fallback.1 as int));
                &&& res == old(self).check_move(row, col)
                &&& res is Ok ==> *final(self) == old(self).after_move(row, col)
                &&& res is Err ==> *final(self) == *old(self)
            }),
            old(self).well_formed() ==> final(self).well_formed(),
    {
        if self.is_full() {
            return Err(ErrorKind::NoMovesAvailable);
        }
        match self.ladder_move() {
            Some((row, col)) => self.make_move(row, col),
            None => self.make_move(fallback.0, fallback.1),
        }
    }

    /// Plays the computer's move.
    ///
    /// On a full board nothing is played and `NoMovesAvailable` comes back. On a
    /// board that has a winner and an open cell nothing is played and `GameOver`
    /// comes back. Otherwise exactly one mark is placed, for the player to move,
    /// as [`Game::make_move`] places it: in the cell of [`ladder_cell`] or, where
    /// no rule of the ladder applies, in an open cell drawn at random.
    pub fn ai_move(&mut self) -> (res: Result<(), ErrorKind>)
        ensures
            board_full(old(self).board) ==> res == Err::<(), ErrorKind>(
                ErrorKind::NoMovesAvailable,
            ),
            !board_full(old(self).board) && winner_of(old(self).board) is Some ==> res == Err::<
                (),
                ErrorKind,
            >(ErrorKind::GameOver),
            !board_full(old(self).board) && winner_of(old(self).board) is None ==> res is Ok,
            res is Err ==> *final(self) == *old(self),
            res is Ok ==> exists|row: int, col: int|
                #[trigger] old(self).ai_may_play(row, col) && *final(self) == old(self).after_move(
                    row,
                    col,
                ),
            old(self).well_formed() ==> final(self).well_formed(),
    {
        if let Some((row, col)) = self.ladder_move() {
            proof {
                lemma_ladder_cell_open(self.board);
                assert(self.ai_may_play(row as int, col as int));
            }
            return self.make_move(row, col);
        }
        let cells = self.empty_cells();
        match choose_cell(&cells) {
            Some((row, col)) => {
                proof {
                    let i = choose|i: int| 0 <= i < cells@.len() && cells@[i] == (row, col);
                    lemma_open_cells_are_open(self.board, 9, i);
                    assert(self.ai_may_play(row as int, col as int));
                }
                self.make_move(row, col)
            },
            None => {
                proof {
                    assert forall|r: int, c: int| in_bounds(r, c) implies (
                    #[trigger] self.board[r][c]) is Some by {
                        if self.board[r][c] is None {
                            lemma_open_cells_complete(self.board, 9, r, c);
                        }
                    }
                }
                Err(ErrorKind::NoMovesAvailable)
            },
        }
    }
}

} // verus!

//! The rules of the game as mathematics: cells, lines, winners and mark counts
//! on a board snapshot.

use crate::game::{Board, Player};
use vstd::prelude::*;

verus! {

/// Whether `(row, col)` names a cell of the 3×3 board.
pub open spec fn in_bounds(row: int, col: int) -> bool {
    0 <= row < 3 && 0 <= col < 3
}

/// Whether `(row, col)` is a cell of the board that holds no mark.
pub open spec fn is_open(board: Board, row: int, col: int) -> bool {
    in_bounds(row, col) && board[row][col] is None
}

/// Whether every cell of the board holds a mark.
pub open spec fn board_full(board: Board) -> bool {
    forall|row: int, col: int| in_bounds(row, col) ==> (#[trigger] board[row][col]) is Some
}

/// Whether no cell of the board holds a mark.
pub open spec fn board_empty(board: Board) -> bool {
    forall|row: int, col: int| in_bounds(row, col) ==> (#[trigger] board[row][col]) is None
}

/// The board with `player`'s mark written into `(row, col)` and every other cell
/// as it was.
pub open spec fn place(board: Board, row: int, col: int, player: Player) -> Board {
    vstd::array::spec_array_update(
        board,
        row,
        vstd::array::spec_array_update(board[row], col, Some(player)),
    )
}

/// Cell `n` (0, 1 or 2) of line `k`. The eight lines are numbered in the order
/// in which a winner is looked for: row 0, column 0, row 1, column 1, row 2,
/// column 2, the main diagonal, the anti-diagonal.
pub open spec fn line_cell(k: int, n: int) -> (int, int) {
    if k == 6 {
        (n, n)
    } else if k == 7 {
        (n, 2 - n)
    } else if k % 2 == 0 {
        (k / 2, n)
    } else {
        (n, k / 2)
    }
}

/// The mark in cell `n` of line `k`.
pub open spec fn line_mark(board: Board, k: int, n: int) -> Option<Player> {
    board[line_cell(k, n).0][line_cell(k, n).1]
}

/// The player whose marks fill line `k`, if its three cells are occupied by one
/// and the same player.
pub open spec fn line_owner(board: Board, k: int) -> Option<Player> {
    let first = line_mark(board, k, 0);
    if first == line_mark(board, k, 1) && first == line_mark(board, k, 2) {
        first
    } else {
        None
    }
}

/// Whether `player` fills at least one of the eight lines.
pub open spec fn has_line(board: Board, player: Player) -> bool {
    exists|k: int| 0 <= k < 8 && #[trigger] line_owner(board, k) == Some(player)
}

/// The owner of the first owned line among lines `k`, `k + 1`, …, 7.
pub open spec fn first_owner(board: Board, k: int) -> Option<Player>
    decreases 8 - k,
{
    if k < 0 || k >= 8 {
        None
    } else if line_owner(board, k) is Some {
        line_owner(board, k)
    } else {
        first_owner(board, k + 1)
    }
}

/// The winner of a board snapshot: the owner of the first owned line, in the
/// order of [`line_cell`]; `None` where no line is owned.
pub open spec fn winner_of(board: Board) -> Option<Player> {
    first_owner(board, 0)
}

/// 1 if `(row, col)` holds `player`'s mark, else 0.
pub open spec fn held(board: Board, row: int, col: int, player: Player) -> nat {
    if board[row][col] == Some(player) {
        1
    } else {
        0
    }
}

/// The number of cells that hold `player`'s mark.
pub open spec fn mark_count(board: Board, player: Player) -> nat {
    let top = held(board, 0, 0, player) + held(board, 0, 1, player) + held(board, 0, 2, player);
    let middle = held(board, 1, 0, player) + held(board, 1, 1, player) + held(board, 1, 2, player);
    let bottom = held(board, 2, 0, player) + held(board, 2, 1, player) + held(board, 2, 2, player);
    top + middle + bottom
}

/// The number of occupied cells.
pub open spec fn marks(board: Board) -> nat {
    mark_count(board, Player::X) + mark_count(board, Player::O)
}

/// Placing a mark changes the chosen cell and no other.
pub proof fn lemma_place(board: Board, row: int, col: int, player: Player)
    requires
        in_bounds(row, col),
    ensures
        place(board, row, col, player)[row][col] == Some(player),
        forall|r: int, c: int|
            in_bounds(r, c) && (r, c) != (row, col) ==> #[trigger] place(board, row, col, player)[r][c]
                == board[r][c],
{
}

} // verus!

//! What holds of every game: theorems over the spec functions that the
//! contracts of the engine are written in.

use crate::game::{status_of, Board, ErrorKind, Game, GameStatus, Player};
use crate::rules::{
    board_empty, first_owner, has_line, in_bounds, is_open, line_mark, line_owner, mark_count,
    marks, place, winner_of,
};
use crate::strategy::{completes_line, ladder_cell, lemma_winning_cell_completes, winning_cell};
use vstd::prelude::*;

verus! {

/// A board has a winner exactly when a player fills a line, and the winner
/// fills one.
pub proof fn lemma_winner_fills_line(board: Board)
    ensures
        winner_of(board) is Some <==> has_line(board, Player::X) || has_line(board, Player::O),
        winner_of(board) matches Some(player) ==> has_line(board, player),
{
    reveal_with_fuel(first_owner, 9);
    if has_line(board, Player::X) || has_line(board, Player::O) {
        let k = choose|k: int|
            0 <= k < 8 && (#[trigger] line_owner(board, k) == Some(Player::X) || line_owner(
                board,
                k,
            ) == Some(Player::O));
        assert(line_owner(board, k) is Some);
    }
}

/// Where only one player fills a line, that player is the winner.
pub proof fn lemma_sole_line_wins(board: Board, player: Player)
    requires
        has_line(board, player),
        !has_line(board, player.other()),
    ensures
        winner_of(board) == Some(player),
{
    lemma_winner_fills_line(board);
}

/// An empty board has no winner.
pub proof fn lemma_empty_board_has_no_winner(board: Board)
    requires
        board_empty(board),
    ensures
        winner_of(board) is None,
        marks(board) == 0,
{
    reveal_with_fuel(first_owner, 9);
}

/// A player who fills a line holds at least three marks.
pub proof fn lemma_line_takes_three_marks(board: Board, player: Player)
    requires
        has_line(board, player),
    ensures
        mark_count(board, player) >= 3,
{
    let k = choose|k: int| 0 <= k < 8 && #[trigger] line_owner(board, k) == Some(player);
    assert(line_mark(board, k, 0) == Some(player));
    assert(line_mark(board, k, 1) == Some(player));
    assert(line_mark(board, k, 2) == Some(player));
}

/// A mark changes a line's owner only to the player who placed it: a line
/// that another player fills afterwards was filled by that player before.
pub proof fn lemma_mark_favours_mover(board: Board, row: int, col: int, mover: Player, k: int)
    requires
        is_open(board, row, col),
        0 <= k < 8,
        line_owner(place(board, row, col, mover), k) == Some(mover.other()),
    ensures
        line_owner(board, k) == Some(mover.other()),
{
    let after = place(board, row, col, mover);
    assert(line_mark(after, k, 0) == Some(mover.other()));
    assert(line_mark(after, k, 1) == Some(mover.other()));
    assert(line_mark(after, k, 2) == Some(mover.other()));
}

/// On a board without a winner, a mark can make only the player who placed it
/// the winner.
pub proof fn lemma_only_mover_can_win(board: Board, row: int, col: int, mover: Player)
    requires
        is_open(board, row, col),
        winner_of(board) is None,
    ensures
        !has_line(place(board, row, col, mover), mover.other()),
        winner_of(place(board, row, col, mover)) is None || winner_of(
            place(board, row, col, mover),
        ) == Some(mover),
{
    let after = place(board, row, col, mover);
    lemma_winner_fills_line(board);
    lemma_winner_fills_line(after);
    if has_line(after, mover.other()) {
        let k = choose|k: int|
            0 <= k < 8 && #[trigger] line_owner(after, k) == Some(mover.other());
        lemma_mark_favours_mover(board, row, col, mover, k);
    }
}

/// On a board without a winner, a mark completes a line for the player who
/// placed it exactly when it makes that player the winner.
pub proof fn lemma_completing_a_line_wins(board: Board, row: int, col: int, mover: Player)
    requires
        is_open(board, row, col),
        winner_of(board) is None,
    ensures
        completes_line(board, row, col, mover) <==> winner_of(place(board, row, col, mover))
            == Some(mover),
{
    lemma_only_mover_can_win(board, row, col, mover);
    lemma_winner_fills_line(place(board, row, col, mover));
}

/// A mark on an open cell adds one to the count of the player who placed it and
/// leaves the other player's count as it was.
pub proof fn lemma_mark_counts(board: Board, row: int, col: int, mover: Player)
    requires
        is_open(board, row, col),
    ensures
        mark_count(place(board, row, col, mover), mover) == mark_count(board, mover) + 1,
        mark_count(place(board, row, col, mover), mover.other()) == mark_count(
            board,
            mover.other(),
        ),
        marks(place(board, row, col, mover)) == marks(board) + 1,
{
}

/// A request never clears or changes a mark that is on the board.
pub proof fn lemma_marks_stay(game: Game, row: int, col: int, r: int, c: int)
    requires
        in_bounds(r, c),
        game.board[r][c] is Some,
    ensures
        game.step(row, col).board[r][c] == game.board[r][c],
{
}

/// On a board without a winner, a move to an open cell is accepted, and the
/// cell then holds the mover's mark.
pub proof fn lemma_move_to_open_cell(game: Game, row: int, col: int)
    requires
        is_open(game.board, row, col),
        winner_of(game.board) is None,
    ensures
        game.check_move(row, col) is Ok,
        game.step(row, col).board[row][col] == Some(game.current_turn),
{
}

/// A move outside the board is refused as out of bounds and changes nothing.
pub proof fn lemma_move_out_of_bounds(game: Game, row: int, col: int)
    requires
        !in_bounds(row, col),
    ensures
        game.check_move(row, col) == Err::<(), ErrorKind>(ErrorKind::OutOfBounds),
        game.step(row, col) == game,
{
}

/// A move to a marked cell is refused as occupied and changes nothing.
pub proof fn lemma_move_to_marked_cell(game: Game, row: int, col: int)
    requires
        in_bounds(row, col),
        game.board[row][col] is Some,
    ensures
        game.check_move(row, col) == Err::<(), ErrorKind>(ErrorKind::CellOccupied),
        game.step(row, col) == game,
{
}

/// After an accepted move the turn has passed to the other player exactly when
/// the move did not win; after a winning move it is still the mover's.
pub proof fn lemma_turn_passes_unless_won(game: Game, row: int, col: int)
    requires
        game.check_move(row, col) is Ok,
    ensures
        game.current_turn.other() != game.current_turn,
        game.current_turn.other().other() == game.current_turn,
        winner_of(game.step(row, col).board) is None ==> game.step(row, col).current_turn
            == game.current_turn.other(),
        winner_of(game.step(row, col).board) is Some ==> game.step(row, col).current_turn
            == game.current_turn && winner_of(game.step(row, col).board) == Some(
            game.current_turn,
        ),
{
    lemma_only_mover_can_win(game.board, row, col, game.current_turn);
}

/// Once a match is won or drawn, every request is refused and the state stays
/// as it is.
pub proof fn lemma_finished_game_is_final(game: Game, row: int, col: int)
    requires
        status_of(game.board) != GameStatus::InProgress,
    ensures
        game.check_move(row, col) is Err,
        game.step(row, col) == game,
{
}

/// A match in progress goes on, is won by the player who moved, or is drawn.
pub proof fn lemma_status_after_move(game: Game, row: int, col: int)
    requires
        game.check_move(row, col) is Ok,
    ensures
        status_of(game.board) == GameStatus::InProgress,
        status_of(game.step(row, col).board) == GameStatus::InProgress || status_of(
            game.step(row, col).board,
        ) == GameStatus::Won(game.current_turn) || status_of(game.step(row, col).board)
            == GameStatus::Draw,
{
    lemma_only_mover_can_win(game.board, row, col, game.current_turn);
}

/// A new match is well formed.
pub proof fn lemma_fresh_is_well_formed(game: Game)
    requires
        game.is_fresh(),
    ensures
        game.well_formed(),
{
    lemma_empty_board_has_no_winner(game.board);
    lemma_winner_fills_line(game.board);
}

/// A request, accepted or refused, takes a well-formed state to a well-formed
/// state.
pub proof fn lemma_step_keeps_well_formed(game: Game, row: int, col: int)
    requires
        game.well_formed(),
    ensures
        game.step(row, col).well_formed(),
{
    if game.check_move(row, col) is Ok {
        let mover = game.current_turn;
        lemma_only_mover_can_win(game.board, row, col, mover);
        lemma_mark_counts(game.board, row, col, mover);
    }
}

/// Any sequence of requests takes a well-formed state to a well-formed state.
pub proof fn lemma_play_keeps_well_formed(game: Game, requests: Seq<(int, int)>)
    requires
        game.well_formed(),
    ensures
        game.play(requests).well_formed(),
    decreases requests.len(),
{
    if requests.len() > 0 {
        lemma_play_keeps_well_formed(game, requests.drop_last());
        lemma_step_keeps_well_formed(
            game.play(requests.drop_last()),
            requests.last().0,
            requests.last().1,
        );
    }
}

/// The marks on the board are those it started with and one more for each
/// request that was accepted.
pub proof fn lemma_one_mark_per_accepted_move(start: Game, requests: Seq<(int, int)>)
    ensures
        marks(start.play(requests).board) == marks(start.board) + start.accepted(requests),
    decreases requests.len(),
{
    if requests.len() > 0 {
        let before = start.play(requests.drop_last());
        let (row, col) = requests.last();
        lemma_one_mark_per_accepted_move(start, requests.drop_last());
        if before.check_move(row, col) is Ok {
            lemma_mark_counts(before.board, row, col, before.current_turn);
        }
    }
}

/// A well-formed state with fewer than five marks on the board has no winner.
pub proof fn lemma_no_winner_before_fifth_mark(game: Game)
    requires
        game.well_formed(),
        marks(game.board) < 5,
    ensures
        winner_of(game.board) is None,
{
    lemma_winner_fills_line(game.board);
    if winner_of(game.board) is Some {
        lemma_line_takes_three_marks(game.board, winner_of(game.board)->0);
    }
}

/// However a match is played from its start, it has no winner while fewer than
/// five marks are on the board.
pub proof fn lemma_early_play_has_no_winner(start: Game, requests: Seq<(int, int)>)
    requires
        start.is_fresh(),
        marks(start.play(requests).board) < 5,
    ensures
        winner_of(start.play(requests).board) is None,
{
    lemma_fresh_is_well_formed(start);
    lemma_play_keeps_well_formed(start, requests);
    lemma_no_winner_before_fifth_mark(start.play(requests));
}

/// A player with fewer than two marks on the board has no cell to win at.
pub proof fn lemma_two_marks_before_a_threat(board: Board, player: Player)
    requires
        mark_count(board, player) < 2,
    ensures
        winning_cell(board, player) is None,
{
    if winning_cell(board, player) is Some {
        lemma_winning_cell_completes(board, player, 0);
        let (row, col) = winning_cell(board, player)->0;
        lemma_mark_counts(board, row, col, player);
        lemma_line_takes_three_marks(place(board, row, col, player), player);
    }
}

/// On an empty board the computer's rules pick the centre.
pub proof fn lemma_opening_takes_centre(board: Board)
    requires
        board_empty(board),
    ensures
        ladder_cell(board) == Some((1int, 1int)),
{
    lemma_two_marks_before_a_threat(board, Player::O);
    lemma_two_marks_before_a_threat(board, Player::X);
}

/// Where the computer, to move as `O` on a board without a winner, can complete
/// a line, the cell that its rules pick wins the game.
pub proof fn lemma_computer_takes_the_win(game: Game)
    requires
        game.current_turn == Player::O,
        winner_of(game.board) is None,
        winning_cell(game.board, Player::O) is Some,
    ensures
        ladder_cell(game.board) == winning_cell(game.board, Player::O),
        ({
            let (row, col) = ladder_cell(game.board)->0;
            game.check_move(row, col) is Ok && winner_of(game.step(row, col).board) == Some(
                Player::O,
            )
        }),
{
    lemma_winning_cell_completes(game.board, Player::O, 0);
    let (row, col) = winning_cell(game.board, Player::O)->0;
    lemma_only_mover_can_win(game.board, row, col, Player::O);
    lemma_sole_line_wins(place(game.board, row, col, Player::O), Player::O);
}

/// Where the computer cannot win at once and `X` can, its rules pick the first
/// cell at which `X` would complete a line, and the mark there takes that cell
/// from `X`.
pub proof fn lemma_computer_blocks_the_threat(game: Game)
    requires
        winner_of(game.board) is None,
        winning_cell(game.board, Player::O) is None,
        winning_cell(game.board, Player::X) is Some,
    ensures
        ladder_cell(game.board) == winning_cell(game.board, Player::X),
        ({
            let (row, col) = ladder_cell(game.board)->0;
            &&& completes_line(game.board, row, col, Player::X)
            &&& game.check_move(row, col) is Ok
            &&& !is_open(game.step(row, col).board, row, col)
        }),
{
    lemma_winning_cell_completes(game.board, Player::X, 0);
}

} // verus!

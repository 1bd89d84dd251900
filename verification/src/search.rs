//! The search engine: exhaustive negamax with a one-sided cutoff, and the
//! driver that picks a placement with it.
//!
//! The engine tries placements on the caller's board and takes each one
//! back before it tries the next, so every function here returns with the
//! board exactly as it found it.

use vstd::prelude::*;
use crate::board::{
    Board, GameError, Mark, Move, SIDE, check_winner, get_cell, get_mark_of_char,
    grid_char_to_grid_mark, grid_cells, grid_covers_board, grid_readable, is_full, is_terminal,
    mark_of_symbol, opponent, set_cell, terminal, winner,
};
use crate::value::{
    DRAW, LOSS, UNSCORED, WIN, best_reply, bounded_value, cut_index, empties, game_value,
    is_optimal_choice, lemma_bounded_value, lemma_game_value_range, lemma_placement_fills,
    move_value,
};

verus! {

/// The player who moves after `mark`.
fn other_player(mark: Mark) -> (other: Mark)
    requires
        mark != Mark::Empty,
    ensures
        other == opponent(mark),
        other != Mark::Empty,
{
    match mark {
        Mark::PlayerA => Mark::PlayerB,
        _ => Mark::PlayerA,
    }
}

/// Scores one placement of `mark` at the empty cell `play_move` for a scan
/// whose best score so far is `best`: the greater of `best` and the value
/// of the placement. The opponent's answer is searched only as far as is
/// needed to tell whether the placement beats `best`.
fn try_placement(board: &mut Board, play_move: Move, mark: Mark, best: i32) -> (score: i32)
    requires
        mark != Mark::Empty,
        play_move.in_range(),
        old(board)@[play_move.index()] == Mark::Empty,
        UNSCORED <= best <= WIN,
    ensures
        final(board)@ == old(board)@,
        score > best ==> score == move_value(old(board)@, mark, play_move.index()),
        score <= best ==> move_value(old(board)@, mark, play_move.index()) <= best,
        LOSS <= score <= WIN,
    decreases empties(old(board)@), 0int,
{
    let ghost before = board@;
    let ghost k = play_move.index();
    let ghost after = before.update(k, mark);
    proof {
        lemma_placement_fills(before, mark, k);
        lemma_bounded_value(after, opponent(mark), -best as int);
        lemma_game_value_range(after, opponent(mark));
    }
    set_cell(board, play_move, mark);
    let reply = negamax(board, other_player(mark), -best);
    set_cell(board, play_move, Mark::Empty);
    assert(board@ =~= before);
    -reply
}

/// The value of the position to `mark`, who is about to move, searched
/// with cutoff `bound`.
fn negamax(board: &mut Board, mark: Mark, bound: i32) -> (score: i32)
    requires
        mark != Mark::Empty,
    ensures
        final(board)@ == old(board)@,
        score == bounded_value(old(board)@, mark, bound as int),
    decreases empties(old(board)@), 1int,
{
    if is_terminal(board) {
        return match check_winner(board) {
            None => DRAW,
            Some(_) => LOSS,
        };
    }
    let ghost cells = board@;
    let ghost target = bounded_value(cells, mark, bound as int);
    let mut best: i32 = UNSCORED;
    let mut r: usize = 0;
    while r < SIDE
        invariant
            r <= 3,
            mark != Mark::Empty,
            board@ == cells,
            cells == old(board)@,
            !terminal(cells),
            target == bounded_value(cells, mark, bound as int),
            best == best_reply(cells, mark, 3 * r),
            UNSCORED <= best <= WIN,
            best >= bound ==> target == best,
            best < bound ==> target == best_reply(
                cells,
                mark,
                cut_index(cells, mark, bound as int, 3 * r),
            ),
        decreases 3 - r,
    {
        let mut c: usize = 0;
        while c < SIDE
            invariant
                r < 3,
                c <= 3,
                mark != Mark::Empty,
                board@ == cells,
                cells == old(board)@,
                !terminal(cells),
                target == bounded_value(cells, mark, bound as int),
                best == best_reply(cells, mark, 3 * r + c),
                UNSCORED <= best <= WIN,
                best >= bound ==> target == best,
                best < bound ==> target == best_reply(
                    cells,
                    mark,
                    cut_index(cells, mark, bound as int, 3 * r + c),
                ),
            decreases 3 - c,
        {
            let play_move = Move { row: r, col: c };
            let ghost k = play_move.index();
            let ghost scanned = best;
            if get_cell(board, play_move) == Mark::Empty {
                if best >= bound {
                    return best;
                }
                let score = try_placement(board, play_move, mark, best);
                if score > best {
                    best = score;
                }
            }
            proof {
                // The scan was not cut off at `k`; if it is cut off now, then
                // right behind `k`.
                if scanned < bound && best >= bound {
                    assert(cut_index(cells, mark, bound as int, k + 1) == k + 1);
                }
            }
            c += 1;
        }
        r += 1;
    }
    best
}

/// The value of the position to `mark`, who is about to move, as an exact
/// negamax search with cutoff `bound` finds it. The scan of the empty cells
/// stops as soon as the best score found has reached `bound`, so the score
/// is the position's value whenever it lies below `bound`, and a lower
/// estimate of it otherwise. On a finished game it is `LOSS` if a line
/// stands on the board and `DRAW` if not. `Mark::Empty` is refused with
/// `InvalidMark`.
pub fn evaluate(board: &mut Board, mark: Mark, bound: i32) -> (result: Result<i32, GameError>)
    ensures
        final(board)@ == old(board)@,
        mark == Mark::Empty ==> result == Err::<i32, GameError>(GameError::InvalidMark),
        mark != Mark::Empty ==> result is Ok && result.unwrap() == bounded_value(
            old(board)@,
            mark,
            bound as int,
        ),
        mark != Mark::Empty ==> result.unwrap() <= game_value(old(board)@, mark),
        mark != Mark::Empty && result.unwrap() < bound ==> result.unwrap() == game_value(
            old(board)@,
            mark,
        ),
        mark != Mark::Empty && terminal(old(board)@) ==> result == Ok::<i32, GameError>(
            if winner(old(board)@) is Some {
                LOSS
            } else {
                DRAW
            },
        ),
{
    if mark == Mark::Empty {
        return Err(GameError::InvalidMark);
    }
    proof {
        lemma_bounded_value(board@, mark, bound as int);
    }
    Ok(negamax(board, mark, bound))
}

/// What `find_optimal_move` answers on a position: the refusal that is
/// due, or the one placement that `is_optimal_choice` singles out.
pub open spec fn selects(cells: Seq<Mark>, mark: Mark, result: Result<Move, GameError>) -> bool {
    if mark == Mark::Empty {
        result == Err::<Move, GameError>(GameError::InvalidMark)
    } else if is_full(cells) {
        result == Err::<Move, GameError>(GameError::NoLegalMove)
    } else {
        &&& result is Ok
        &&& result.unwrap().in_range()
        &&& is_optimal_choice(cells, mark, result.unwrap().index())
    }
}

/// Among the cells at positions below `k`, `play_move` is the first whose
/// placement is worth most.
spec fn leads(cells: Seq<Mark>, mark: Mark, play_move: Move, k: int) -> bool {
    &&& play_move.in_range()
    &&& play_move.index() < k
    &&& cells[play_move.index()] == Mark::Empty
    &&& move_value(cells, mark, play_move.index()) == best_reply(cells, mark, k)
    &&& forall|j: int|
        0 <= j < k && cells[j] == Mark::Empty ==> #[trigger] move_value(cells, mark, j)
            <= move_value(cells, mark, play_move.index())
    &&& forall|j: int|
        0 <= j < play_move.index() && cells[j] == Mark::Empty ==> #[trigger] move_value(
            cells,
            mark,
            j,
        ) < move_value(cells, mark, play_move.index())
}

/// The best placement for `mark`: the empty cell whose placement is worth
/// most to `mark` under perfect play by both sides, and among several such
/// cells the first in row-major order. `Mark::Empty` is refused with
/// `InvalidMark`, and a board without an empty cell with `NoLegalMove`.
pub fn find_optimal_move(board: &mut Board, mark: Mark) -> (result: Result<Move, GameError>)
    ensures
        final(board)@ == old(board)@,
        selects(old(board)@, mark, result),
{
    if mark == Mark::Empty {
        return Err(GameError::InvalidMark);
    }
    let ghost cells = board@;
    let mut best: i32 = UNSCORED;
    let mut choice: Option<Move> = None;
    let mut r: usize = 0;
    while r < SIDE
        invariant
            r <= 3,
            mark != Mark::Empty,
            board@ == cells,
            cells == old(board)@,
            best == best_reply(cells, mark, 3 * r),
            UNSCORED <= best <= WIN,
            choice is None ==> best == UNSCORED,
            choice is None ==> forall|j: int| 0 <= j < 3 * r ==> cells[j] != Mark::Empty,
            choice is Some ==> leads(cells, mark, choice.unwrap(), 3 * r),
        decreases 3 - r,
    {
        let mut c: usize = 0;
        while c < SIDE
            invariant
                r < 3,
                c <= 3,
                mark != Mark::Empty,
                board@ == cells,
                cells == old(board)@,
                best == best_reply(cells, mark, 3 * r + c),
                UNSCORED <= best <= WIN,
                choice is None ==> best == UNSCORED,
                choice is None ==> forall|j: int| 0 <= j < 3 * r + c ==> cells[j] != Mark::Empty,
                choice is Some ==> leads(cells, mark, choice.unwrap(), 3 * r + c),
            decreases 3 - c,
        {
            let play_move = Move { row: r, col: c };
            if get_cell(board, play_move) == Mark::Empty {
                let score = try_placement(board, play_move, mark, best);
                if score > best {
                    best = score;
                    choice = Some(play_move);
                }
            }
            c += 1;
        }
        r += 1;
    }
    match choice {
        Some(play_move) => Ok(play_move),
        None => Err(GameError::NoLegalMove),
    }
}

/// The best placement on a board given as rows of symbols, for the player
/// whose symbol is `mark`. A symbol that stands for no cell state, among
/// the nine cells or as `mark`, is refused with `InvalidSymbol`; after
/// that the answer is that of `find_optimal_move` on the board read.
pub fn find_optimal_move_from_symbols(grid: &Vec<Vec<char>>, mark: char) -> (result: Result<
    Move,
    GameError,
>)
    requires
        grid_covers_board(grid.deep_view()),
    ensures
        !grid_readable(grid.deep_view()) || mark_of_symbol(mark) is None ==> result == Err::<
            Move,
            GameError,
        >(GameError::InvalidSymbol),
        grid_readable(grid.deep_view()) && mark_of_symbol(mark) is Some ==> selects(
            grid_cells(grid.deep_view()),
            mark_of_symbol(mark).unwrap(),
            result,
        ),
{
    let mut board = match grid_char_to_grid_mark(grid) {
        Ok(board) => board,
        Err(error) => {
            return Err(error);
        },
    };
    let player = match get_mark_of_char(mark) {
        Ok(player) => player,
        Err(error) => {
            return Err(error);
        },
    };
    find_optimal_move(&mut board, player)
}

} // verus!

//! What a position is worth under perfect play.
//!
//! Everything here is specification: the exact negamax value of a position,
//! the value of a single placement, and the value that a search with a
//! cutoff reports. The lemmas relate the three and bound them.

use vstd::prelude::*;
use crate::board::{Mark, opponent, terminal, winner};

verus! {

/// Score of a position whose mover wins under perfect play.
pub const WIN: i32 = 10;

/// Score of a drawn position.
pub const DRAW: i32 = 0;

/// Score of a position whose mover loses under perfect play.
pub const LOSS: i32 = -10;

/// Stands for "no placement scored yet"; lies below every score.
pub const UNSCORED: i32 = -200;

/// 1 for an empty cell, 0 for an occupied one.
pub open spec fn vacancy(mark: Mark) -> int {
    if mark == Mark::Empty {
        1
    } else {
        0
    }
}

/// Number of empty cells.
pub open spec fn empties(cells: Seq<Mark>) -> int {
    vacancy(cells[0]) + vacancy(cells[1]) + vacancy(cells[2]) + vacancy(cells[3]) + vacancy(
        cells[4],
    ) + vacancy(cells[5]) + vacancy(cells[6]) + vacancy(cells[7]) + vacancy(cells[8])
}

/// `mark` may be placed at position `k`.
pub open spec fn playable(cells: Seq<Mark>, mark: Mark, k: int) -> bool {
    cells.len() == 9 && 0 <= k < 9 && cells[k] == Mark::Empty && mark != Mark::Empty
}

/// Value of a finished game to the player who would move next: a line on
/// the board was completed by the placement just made, so that player has
/// lost; without a line the game is drawn.
pub open spec fn leaf_value(cells: Seq<Mark>) -> int {
    if winner(cells) is Some {
        LOSS as int
    } else {
        DRAW as int
    }
}

/// The negamax value of a position to `mark`, who is about to move.
pub open spec fn game_value(cells: Seq<Mark>, mark: Mark) -> int
    decreases empties(cells), 10int,
{
    if terminal(cells) {
        leaf_value(cells)
    } else {
        best_reply(cells, mark, 9)
    }
}

/// What placing `mark` at position `k` is worth to `mark`: the negated
/// value of the resulting position to the opponent. `UNSCORED` where the
/// placement cannot be made.
pub open spec fn move_value(cells: Seq<Mark>, mark: Mark, k: int) -> int
    decreases empties(cells), 0int,
{
    if playable(cells, mark, k) {
        -game_value(cells.update(k, mark), opponent(mark))
    } else {
        UNSCORED as int
    }
}

/// The greatest `move_value` among the empty cells at positions below `k`;
/// `UNSCORED` if there is none.
pub open spec fn best_reply(cells: Seq<Mark>, mark: Mark, k: int) -> int
    decreases empties(cells), k,
{
    if k <= 0 {
        UNSCORED as int
    } else if cells[k - 1] == Mark::Empty && move_value(cells, mark, k - 1) > best_reply(
        cells,
        mark,
        k - 1,
    ) {
        move_value(cells, mark, k - 1)
    } else {
        best_reply(cells, mark, k - 1)
    }
}

/// Where a row-major scan that starts at position `k` stops when it is cut
/// off as soon as the best reply found has reached `bound`: the first
/// position from `k` on at which that is so, or 9.
pub open spec fn cut_index(cells: Seq<Mark>, mark: Mark, bound: int, k: int) -> int
    decreases 9 - k,
{
    if k >= 9 {
        9
    } else if best_reply(cells, mark, k) >= bound {
        k
    } else {
        cut_index(cells, mark, bound, k + 1)
    }
}

/// The value that a search with cutoff `bound` reports for a position: the
/// best reply among the cells scanned before the cutoff.
pub open spec fn bounded_value(cells: Seq<Mark>, mark: Mark, bound: int) -> int {
    if terminal(cells) {
        leaf_value(cells)
    } else {
        best_reply(cells, mark, cut_index(cells, mark, bound, 0))
    }
}

/// Position `k` is the placement that the engine selects for `mark`: an
/// empty cell whose value no empty cell exceeds and no earlier empty cell
/// equals.
pub open spec fn is_optimal_choice(cells: Seq<Mark>, mark: Mark, k: int) -> bool {
    &&& 0 <= k < 9
    &&& cells[k] == Mark::Empty
    &&& forall|j: int|
        0 <= j < 9 && cells[j] == Mark::Empty ==> #[trigger] move_value(cells, mark, j)
            <= move_value(cells, mark, k)
    &&& forall|j: int|
        0 <= j < k && cells[j] == Mark::Empty ==> #[trigger] move_value(cells, mark, j)
            < move_value(cells, mark, k)
}

/// A placement on an empty cell leaves one empty cell fewer.
pub proof fn lemma_placement_fills(cells: Seq<Mark>, mark: Mark, k: int)
    requires
        playable(cells, mark, k),
    ensures
        empties(cells.update(k, mark)) == empties(cells) - 1,
        cells.update(k, mark).len() == 9,
        0 <= empties(cells.update(k, mark)),
{
}

/// `best_reply` is the maximum of the values of the empty cells below `k`.
pub proof fn lemma_best_reply_is_max(cells: Seq<Mark>, mark: Mark, k: int)
    requires
        0 <= k <= 9,
    ensures
        best_reply(cells, mark, k) >= UNSCORED,
        forall|j: int|
            0 <= j < k && cells[j] == Mark::Empty ==> #[trigger] move_value(cells, mark, j)
                <= best_reply(cells, mark, k),
        best_reply(cells, mark, k) == UNSCORED || exists|j: int|
            0 <= j < k && cells[j] == Mark::Empty && #[trigger] move_value(cells, mark, j)
                == best_reply(cells, mark, k),
    decreases k,
{
    if k > 0 {
        lemma_best_reply_is_max(cells, mark, k - 1);
        let prev = best_reply(cells, mark, k - 1);
        if prev != UNSCORED && best_reply(cells, mark, k) == prev {
            let j = choose|j: int|
                0 <= j < k - 1 && cells[j] == Mark::Empty && #[trigger] move_value(cells, mark, j)
                    == prev;
            assert(0 <= j < k && cells[j] == Mark::Empty && move_value(cells, mark, j)
                == best_reply(cells, mark, k));
        } else if best_reply(cells, mark, k) != prev {
            assert(cells[k - 1] == Mark::Empty && move_value(cells, mark, k - 1) == best_reply(
                cells,
                mark,
                k,
            ));
        }
    }
}

/// Scanning further never lowers the best reply.
pub proof fn lemma_best_reply_grows(cells: Seq<Mark>, mark: Mark, j: int, k: int)
    requires
        0 <= j <= k,
    ensures
        best_reply(cells, mark, j) <= best_reply(cells, mark, k),
    decreases k - j,
{
    if j < k {
        lemma_best_reply_grows(cells, mark, j, k - 1);
    }
}

/// Every position is won, drawn or lost for the player to move.
pub proof fn lemma_game_value_range(cells: Seq<Mark>, mark: Mark)
    requires
        cells.len() == 9,
        mark != Mark::Empty,
    ensures
        game_value(cells, mark) == WIN || game_value(cells, mark) == DRAW || game_value(
            cells,
            mark,
        ) == LOSS,
    decreases empties(cells), 10int,
{
    if !terminal(cells) {
        // An unfinished game has an empty cell, so some placement is scored.
        let k = choose|k: int| 0 <= k < 9 && cells[k] == Mark::Empty;
        assert(cells[k] == Mark::Empty);
        lemma_best_reply_range(cells, mark, 9);
    }
}

/// Every placement on an empty cell wins, draws or loses.
pub proof fn lemma_move_value_range(cells: Seq<Mark>, mark: Mark, k: int)
    requires
        playable(cells, mark, k),
    ensures
        move_value(cells, mark, k) == WIN || move_value(cells, mark, k) == DRAW || move_value(
            cells,
            mark,
            k,
        ) == LOSS,
    decreases empties(cells), 0int,
{
    lemma_placement_fills(cells, mark, k);
    lemma_game_value_range(cells.update(k, mark), opponent(mark));
}

/// The best reply is a score as soon as an empty cell has been scanned.
pub proof fn lemma_best_reply_range(cells: Seq<Mark>, mark: Mark, k: int)
    requires
        cells.len() == 9,
        mark != Mark::Empty,
        0 <= k <= 9,
    ensures
        best_reply(cells, mark, k) == UNSCORED || best_reply(cells, mark, k) == WIN || best_reply(
            cells,
            mark,
            k,
        ) == DRAW || best_reply(cells, mark, k) == LOSS,
        (exists|j: int| 0 <= j < k && cells[j] == Mark::Empty) ==> best_reply(cells, mark, k)
            != UNSCORED,
    decreases empties(cells), k,
{
    if k > 0 {
        lemma_best_reply_range(cells, mark, k - 1);
        if cells[k - 1] == Mark::Empty {
            lemma_move_value_range(cells, mark, k - 1);
        }
    }
}

/// The scan is cut off at or after its start, and only where the best
/// reply has reached the bound.
pub proof fn lemma_cut_index(cells: Seq<Mark>, mark: Mark, bound: int, k: int)
    requires
        0 <= k <= 9,
    ensures
        k <= cut_index(cells, mark, bound, k) <= 9,
        cut_index(cells, mark, bound, k) < 9 ==> best_reply(
            cells,
            mark,
            cut_index(cells, mark, bound, k),
        ) >= bound,
    decreases 9 - k,
{
    if k < 9 && best_reply(cells, mark, k) < bound {
        lemma_cut_index(cells, mark, bound, k + 1);
    }
}

/// A search with a cutoff never overrates a position, and is exact
/// whenever what it reports lies below the cutoff.
pub proof fn lemma_bounded_value(cells: Seq<Mark>, mark: Mark, bound: int)
    ensures
        UNSCORED <= bounded_value(cells, mark, bound) <= game_value(cells, mark),
        bounded_value(cells, mark, bound) < bound ==> bounded_value(cells, mark, bound)
            == game_value(cells, mark),
{
    if !terminal(cells) {
        let cut = cut_index(cells, mark, bound, 0);
        lemma_cut_index(cells, mark, bound, 0);
        lemma_best_reply_grows(cells, mark, cut, 9);
        lemma_best_reply_is_max(cells, mark, cut);
    }
}

} // verus!

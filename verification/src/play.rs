//! Whole games: what happens when both players leave every placement to
//! the engine.

use vstd::prelude::*;
use crate::board::{Mark, Move, empty_cells, is_full, opponent, terminal, winner};
use crate::draw::lemma_empty_board_is_drawn;
use crate::laws::{law_optimal_choice_is_unique, law_optimal_choice_keeps_value};
use crate::search::selects;
use crate::value::{
    DRAW, best_reply, empties, game_value, is_optimal_choice, lemma_best_reply_is_max,
    lemma_move_value_range, lemma_placement_fills, move_value, playable,
};

verus! {

/// The position in which the game ends when, from `cells` with `mark` to
/// move, the players in turn make the placement that the engine selects.
pub open spec fn self_play(cells: Seq<Mark>, mark: Mark) -> Seq<Mark>
    decreases empties(cells),
{
    let k = choose|k: int| is_optimal_choice(cells, mark, k);
    if !terminal(cells) && playable(cells, mark, k) && is_optimal_choice(cells, mark, k) {
        self_play(cells.update(k, mark), opponent(mark))
    } else {
        cells
    }
}

/// Among the first `n` cells, of which one at least is empty, there is a
/// first one whose placement is worth most.
proof fn lemma_leader_exists(cells: Seq<Mark>, mark: Mark, n: int) -> (k: int)
    requires
        cells.len() == 9,
        mark != Mark::Empty,
        0 <= n <= 9,
        exists|j: int| 0 <= j < n && cells[j] == Mark::Empty,
    ensures
        0 <= k < n,
        cells[k] == Mark::Empty,
        move_value(cells, mark, k) == best_reply(cells, mark, n),
        forall|j: int|
            0 <= j < n && cells[j] == Mark::Empty ==> #[trigger] move_value(cells, mark, j)
                <= move_value(cells, mark, k),
        forall|j: int|
            0 <= j < k && cells[j] == Mark::Empty ==> #[trigger] move_value(cells, mark, j)
                < move_value(cells, mark, k),
    decreases n,
{
    if exists|j: int| 0 <= j < n - 1 && cells[j] == Mark::Empty {
        let earlier = lemma_leader_exists(cells, mark, n - 1);
        if cells[n - 1] == Mark::Empty && move_value(cells, mark, n - 1) > move_value(
            cells,
            mark,
            earlier,
        ) {
            n - 1
        } else {
            earlier
        }
    } else {
        // The cell at `n - 1` is the only empty one so far.
        lemma_move_value_range(cells, mark, n - 1);
        lemma_best_reply_is_max(cells, mark, n - 1);
        n - 1
    }
}

/// On a board with an empty cell the engine has a placement to select.
pub proof fn lemma_optimal_choice_exists(cells: Seq<Mark>, mark: Mark) -> (k: int)
    requires
        cells.len() == 9,
        mark != Mark::Empty,
        !is_full(cells),
    ensures
        is_optimal_choice(cells, mark, k),
{
    lemma_leader_exists(cells, mark, 9)
}

/// From a position worth a draw, the engine playing both sides ends the
/// game in a draw: the board is full and nobody holds a line.
pub proof fn law_self_play_keeps_a_draw(cells: Seq<Mark>, mark: Mark)
    requires
        cells.len() == 9,
        mark != Mark::Empty,
        game_value(cells, mark) == DRAW,
    ensures
        is_full(self_play(cells, mark)),
        winner(self_play(cells, mark)) is None,
    decreases empties(cells),
{
    if !terminal(cells) {
        // The board is not full, so there is a choice for `choose` to name.
        let witness = lemma_optimal_choice_exists(cells, mark);
        let k = choose|k: int| is_optimal_choice(cells, mark, k);
        assert(is_optimal_choice(cells, mark, witness));
        law_optimal_choice_keeps_value(cells, mark, k);
        lemma_placement_fills(cells, mark, k);
        law_self_play_keeps_a_draw(cells.update(k, mark), opponent(mark));
    }
}

/// The position `reached` lies on the way of `self_play` from `cells`: it
/// is `cells` itself or comes up after some of the placements.
pub open spec fn on_the_way(cells: Seq<Mark>, mark: Mark, reached: Seq<Mark>) -> bool
    decreases empties(cells),
{
    let k = choose|k: int| is_optimal_choice(cells, mark, k);
    reached == cells || (!terminal(cells) && playable(cells, mark, k) && is_optimal_choice(
        cells,
        mark,
        k,
    ) && on_the_way(cells.update(k, mark), opponent(mark), reached))
}

/// One turn of `self_play` is one answer of the engine, placed on the
/// board: the game goes on from there, to the same end and through the
/// same positions.
pub proof fn law_self_play_follows_the_engine(cells: Seq<Mark>, mark: Mark, play_move: Move)
    requires
        cells.len() == 9,
        !terminal(cells),
        selects(cells, mark, Ok(play_move)),
    ensures
        self_play(cells, mark) == self_play(
            cells.update(play_move.index(), mark),
            opponent(mark),
        ),
        forall|reached: Seq<Mark>| #[trigger]
            on_the_way(cells.update(play_move.index(), mark), opponent(mark), reached)
                ==> on_the_way(cells, mark, reached),
{
    let k = choose|k: int| is_optimal_choice(cells, mark, k);
    law_optimal_choice_is_unique(cells, mark, k, play_move.index());
}

/// From a position worth a draw, no position on the way of `self_play`
/// shows a line.
pub proof fn law_self_play_completes_no_line(cells: Seq<Mark>, mark: Mark, reached: Seq<Mark>)
    requires
        cells.len() == 9,
        mark != Mark::Empty,
        game_value(cells, mark) == DRAW,
        on_the_way(cells, mark, reached),
    ensures
        winner(reached) is None,
    decreases empties(cells),
{
    if reached != cells {
        let k = choose|k: int| is_optimal_choice(cells, mark, k);
        law_optimal_choice_keeps_value(cells, mark, k);
        lemma_placement_fills(cells, mark, k);
        law_self_play_completes_no_line(cells.update(k, mark), opponent(mark), reached);
    }
}

/// The engine playing both sides from the empty board ends the game in a
/// draw, whichever player moves first: the board is full at the end, and
/// neither then nor at any point on the way does anybody hold a line.
pub proof fn law_self_play_from_the_empty_board_is_a_draw(mark: Mark)
    requires
        mark != Mark::Empty,
    ensures
        is_full(self_play(empty_cells(), mark)),
        winner(self_play(empty_cells(), mark)) is None,
        forall|reached: Seq<Mark>| #[trigger]
            on_the_way(empty_cells(), mark, reached) ==> winner(reached) is None,
{
    let start = empty_cells();
    lemma_empty_board_is_drawn(mark);
    law_self_play_keeps_a_draw(start, mark);
    assert forall|reached: Seq<Mark>| #[trigger] on_the_way(start, mark, reached) implies winner(
        reached,
    ) is None by {
        law_self_play_completes_no_line(start, mark, reached);
    }
}

} // verus!

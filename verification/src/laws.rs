//! Properties of the engine that hold on every board, stated over the
//! specification functions that the contracts of `board` and `search` use.

use vstd::prelude::*;
use crate::board::{
    GameError, Mark, Move, has_line, is_full, opponent, placement, terminal, winner,
};
use crate::search::selects;
use crate::value::{
    DRAW, LOSS, WIN, best_reply, bounded_value, game_value, is_optimal_choice,
    lemma_best_reply_is_max, lemma_bounded_value, lemma_game_value_range, lemma_move_value_range,
    move_value, playable,
};

verus! {

/// On a finished game the search reports a loss or a draw for the player
/// who would move next, never a win, whatever the cutoff: a loss exactly if
/// a line stands on the board.
pub proof fn law_finished_game_is_lost_or_drawn(cells: Seq<Mark>, mark: Mark, bound: int)
    requires
        terminal(cells),
    ensures
        bounded_value(cells, mark, bound) == game_value(cells, mark),
        bounded_value(cells, mark, bound) == LOSS || bounded_value(cells, mark, bound) == DRAW,
        bounded_value(cells, mark, bound) != WIN,
        bounded_value(cells, mark, bound) == LOSS <==> winner(cells) is Some,
{
}

/// With a cutoff above every score the search is exact.
pub proof fn law_unbounded_search_is_exact(cells: Seq<Mark>, mark: Mark, bound: int)
    requires
        cells.len() == 9,
        mark != Mark::Empty,
        bound > WIN,
    ensures
        bounded_value(cells, mark, bound) == game_value(cells, mark),
{
    lemma_bounded_value(cells, mark, bound);
    lemma_game_value_range(cells, mark);
}

/// A position has at most one optimal choice.
pub proof fn law_optimal_choice_is_unique(cells: Seq<Mark>, mark: Mark, j: int, k: int)
    requires
        is_optimal_choice(cells, mark, j),
        is_optimal_choice(cells, mark, k),
    ensures
        j == k,
{
    // The later of two choices would have to be worth more than the earlier
    // one, which no cell is.
    if j < k {
        assert(move_value(cells, mark, k) <= move_value(cells, mark, j));
    } else if k < j {
        assert(move_value(cells, mark, j) <= move_value(cells, mark, k));
    }
}

/// The engine is deterministic: a board and a mark admit one answer only.
pub proof fn law_selection_is_deterministic(
    cells: Seq<Mark>,
    mark: Mark,
    first: Result<Move, GameError>,
    second: Result<Move, GameError>,
)
    requires
        selects(cells, mark, first),
        selects(cells, mark, second),
    ensures
        first == second,
{
    if mark != Mark::Empty && !is_full(cells) {
        law_optimal_choice_is_unique(
            cells,
            mark,
            first.unwrap().index(),
            second.unwrap().index(),
        );
    }
}

/// The placement that the engine selects targets an empty cell of the
/// grid, and the validated placement of the same mark there succeeds.
pub proof fn law_selected_move_can_be_placed(cells: Seq<Mark>, mark: Mark, play_move: Move)
    requires
        selects(cells, mark, Ok(play_move)),
    ensures
        play_move.in_range(),
        cells[play_move.index()] == Mark::Empty,
        placement(cells, play_move, mark) == Ok::<Seq<Mark>, GameError>(
            cells.update(play_move.index(), mark),
        ),
{
}

/// On an unfinished game the selected placement is worth the value of the
/// position: the opponent is left with exactly the negated value.
pub proof fn law_optimal_choice_keeps_value(cells: Seq<Mark>, mark: Mark, k: int)
    requires
        cells.len() == 9,
        mark != Mark::Empty,
        !terminal(cells),
        is_optimal_choice(cells, mark, k),
    ensures
        move_value(cells, mark, k) == game_value(cells, mark),
        game_value(cells.update(k, mark), opponent(mark)) == -game_value(cells, mark),
{
    // The value of an unfinished game is the greatest value of a placement.
    // Some empty cell attains it, and none is worth more than `k`.
    lemma_best_reply_is_max(cells, mark, 9);
    lemma_move_value_range(cells, mark, k);
    let top = choose|j: int|
        0 <= j < 9 && cells[j] == Mark::Empty && #[trigger] move_value(cells, mark, j)
            == best_reply(cells, mark, 9);
    assert(move_value(cells, mark, top) <= move_value(cells, mark, k));
}

/// A player who follows the engine never falls behind: whatever the
/// opponent answers to the selected placement, the position that comes
/// back is worth at least as much as the one the player started from.
pub proof fn law_value_never_drops(cells: Seq<Mark>, mark: Mark, k: int, answer: int)
    requires
        cells.len() == 9,
        mark != Mark::Empty,
        !terminal(cells),
        is_optimal_choice(cells, mark, k),
        !terminal(cells.update(k, mark)),
        playable(cells.update(k, mark), opponent(mark), answer),
    ensures
        game_value(cells.update(k, mark).update(answer, opponent(mark)), mark) >= game_value(
            cells,
            mark,
        ),
{
    let child = cells.update(k, mark);
    law_optimal_choice_keeps_value(cells, mark, k);
    lemma_best_reply_is_max(child, opponent(mark), 9);
    assert(move_value(child, opponent(mark), answer) <= game_value(child, opponent(mark)));
}

/// A placement that completes a line of the player's own is worth a win.
pub proof fn law_completing_a_line_wins(cells: Seq<Mark>, mark: Mark, k: int)
    requires
        playable(cells, mark, k),
        has_line(cells.update(k, mark), mark),
    ensures
        move_value(cells, mark, k) == WIN,
{
}

/// If some placement completes a line for the player, the selected
/// placement is worth a win.
pub proof fn law_available_win_is_taken(cells: Seq<Mark>, mark: Mark, winning: int, k: int)
    requires
        playable(cells, mark, winning),
        has_line(cells.update(winning, mark), mark),
        is_optimal_choice(cells, mark, k),
    ensures
        move_value(cells, mark, k) == WIN,
        game_value(cells.update(k, mark), opponent(mark)) == LOSS,
{
    lemma_move_value_range(cells, mark, k);
    assert(move_value(cells, mark, winning) <= move_value(cells, mark, k));
}

/// Leaving an opponent's threat open loses: where the opponent could
/// complete a line at `threat`, a placement elsewhere that neither ends the
/// game nor fills that cell is worth a loss.
pub proof fn law_ignoring_a_threat_loses(cells: Seq<Mark>, mark: Mark, threat: int, k: int)
    requires
        playable(cells, mark, k),
        playable(cells, opponent(mark), threat),
        k != threat,
        has_line(cells.update(threat, opponent(mark)), opponent(mark)),
        winner(cells.update(k, mark)) is None,
    ensures
        move_value(cells, mark, k) == LOSS,
{
    // After the placement the game goes on, `threat` is still empty, and the
    // opponent wins by completing the line there.
    let other = opponent(mark);
    let child = cells.update(k, mark);
    assert(!terminal(child)) by {
        assert(child[threat] == Mark::Empty);
    }
    assert(move_value(child, other, threat) == WIN) by {
        assert(child.update(threat, other) =~= cells.update(threat, other).update(k, mark));
    }
    lemma_best_reply_is_max(child, other, 9);
    assert(move_value(child, other, threat) <= best_reply(child, other, 9));
    lemma_game_value_range(child, other);
}

/// A player who cannot complete a line, and whose opponent could complete
/// one at `threat`, is given that cell. Two kinds of position are left
/// out, because there every placement is worth the same and the first
/// empty cell is selected instead: those where filling `threat` loses as
/// well, and those where a line already stands on the board. In both the
/// law still holds if `threat` is itself the first empty cell.
pub proof fn law_single_threat_is_blocked(cells: Seq<Mark>, mark: Mark, threat: int, k: int)
    requires
        playable(cells, mark, threat),
        has_line(cells.update(threat, opponent(mark)), opponent(mark)),
        forall|j: int|
            0 <= j < 9 && cells[j] == Mark::Empty ==> !has_line(
                #[trigger] cells.update(j, mark),
                mark,
            ),
        is_optimal_choice(cells, mark, k),
        (winner(cells) is None && move_value(cells, mark, threat) > LOSS) || forall|j: int|
            0 <= j < threat ==> cells[j] != Mark::Empty,
    ensures
        k == threat,
{
    if k != threat {
        // Every placement is worth as little as `k` or as much as `threat`:
        // without a line on the board `k` loses, with one `threat` wins. So
        // `threat` is worth no less than `k`, and `k` can only have been
        // selected as the earlier of the two.
        lemma_move_value_range(cells, mark, threat);
        if winner(cells) is None {
            law_ignoring_a_threat_loses(cells, mark, threat, k);
        } else {
            assert(has_line(cells.update(threat, mark), opponent(mark)));
        }
        assert(move_value(cells, mark, k) <= move_value(cells, mark, threat));
        assert(k < threat);
    }
}

} // verus!

//! The value of a position does not depend on how the board is turned or
//! mirrored, nor on which of the two marks is which.

use vstd::prelude::*;
use crate::board::{Mark, has_line, is_full, opponent, terminal, winner};
use crate::value::{
    best_reply, empties, game_value, lemma_best_reply_is_max, lemma_best_reply_range,
    lemma_placement_fills, move_value,
};

verus! {

/// The mark itself, or the other player's if the marks are swapped.
pub open spec fn recolour(mark: Mark, swap: bool) -> Mark {
    if swap {
        opponent(mark)
    } else {
        mark
    }
}

/// The board whose cell `i` shows what cell `p[i]` of `cells` shows, with
/// the marks swapped or not.
pub open spec fn image(cells: Seq<Mark>, p: Seq<int>, swap: bool) -> Seq<Mark> {
    Seq::new(9, |i: int| recolour(cells[p[i]], swap))
}

/// `p` rearranges the nine cells, `q` puts them back, and lines stay lines.
pub open spec fn is_symmetry(p: Seq<int>, q: Seq<int>) -> bool {
    &&& forall|i: int| 0 <= i < 9 ==> 0 <= #[trigger] p[i] < 9 && q[p[i]] == i
    &&& forall|i: int| 0 <= i < 9 ==> 0 <= #[trigger] q[i] < 9 && p[q[i]] == i
    &&& forall|cells: Seq<Mark>, mark: Mark, swap: bool|
        has_line(#[trigger] image(cells, p, swap), #[trigger] recolour(mark, swap)) == has_line(
            cells,
            mark,
        )
}

/// A symmetry keeps the value of every position.
pub proof fn lemma_symmetry_keeps_value(
    cells: Seq<Mark>,
    mark: Mark,
    p: Seq<int>,
    q: Seq<int>,
    swap: bool,
)
    requires
        cells.len() == 9,
        mark != Mark::Empty,
        is_symmetry(p, q),
    ensures
        game_value(image(cells, p, swap), recolour(mark, swap)) == game_value(cells, mark),
    decreases empties(cells),
{
    let turned = image(cells, p, swap);
    let player = recolour(mark, swap);
    assert(winner(turned) is Some <==> winner(cells) is Some) by {
        assert(has_line(turned, recolour(Mark::PlayerA, swap)) == has_line(cells, Mark::PlayerA));
        assert(has_line(turned, recolour(Mark::PlayerB, swap)) == has_line(cells, Mark::PlayerB));
    }
    assert(is_full(turned) <==> is_full(cells)) by {
        if is_full(cells) {
            assert forall|i: int| 0 <= i < 9 implies turned[i] != Mark::Empty by {
                assert(cells[p[i]] != Mark::Empty);
            }
        }
        if is_full(turned) {
            assert forall|i: int| 0 <= i < 9 implies cells[i] != Mark::Empty by {
                assert(turned[q[i]] != Mark::Empty);
            }
        }
    }
    if !terminal(cells) {
        assert forall|j: int| 0 <= j < 9 && turned[j] == Mark::Empty implies #[trigger] move_value(
            turned,
            player,
            j,
        ) == move_value(cells, mark, p[j]) by {
            lemma_placement_fills(cells, mark, p[j]);
            assert(turned.update(j, player) =~= image(cells.update(p[j], mark), p, swap));
            lemma_symmetry_keeps_value(cells.update(p[j], mark), opponent(mark), p, q, swap);
        }
        lemma_best_reply_is_max(turned, player, 9);
        lemma_best_reply_is_max(cells, mark, 9);
        lemma_best_reply_range(turned, player, 9);
        lemma_best_reply_range(cells, mark, 9);
        let here = choose|i: int| 0 <= i < 9 && cells[i] == Mark::Empty;
        assert(turned[q[here]] == Mark::Empty);
        let top = choose|i: int|
            0 <= i < 9 && cells[i] == Mark::Empty && #[trigger] move_value(cells, mark, i)
                == best_reply(cells, mark, 9);
        assert(move_value(turned, player, q[top]) == move_value(cells, mark, top));
        let top_turned = choose|j: int|
            0 <= j < 9 && turned[j] == Mark::Empty && #[trigger] move_value(turned, player, j)
                == best_reply(turned, player, 9);
        assert(move_value(turned, player, top_turned) == move_value(cells, mark, p[top_turned]));
    }
}

/// The eight ways to lay the board on itself, as rearrangements of the
/// cells: 0 leaves it as it is, 1 to 3 turn it by quarters, and 4 to 7
/// mirror it left to right and then turn it by 0 to 3 quarters.
pub open spec fn arrangement(n: int) -> Seq<int> {
    if n == 1 {
        seq![6, 3, 0, 7, 4, 1, 8, 5, 2]
    } else if n == 2 {
        seq![8, 7, 6, 5, 4, 3, 2, 1, 0]
    } else if n == 3 {
        seq![2, 5, 8, 1, 4, 7, 0, 3, 6]
    } else if n == 4 {
        seq![2, 1, 0, 5, 4, 3, 8, 7, 6]
    } else if n == 5 {
        seq![8, 5, 2, 7, 4, 1, 6, 3, 0]
    } else if n == 6 {
        seq![6, 7, 8, 3, 4, 5, 0, 1, 2]
    } else if n == 7 {
        seq![0, 3, 6, 1, 4, 7, 2, 5, 8]
    } else {
        seq![0, 1, 2, 3, 4, 5, 6, 7, 8]
    }
}

/// The arrangement that undoes arrangement `n`: the quarter turns undo
/// each other, every other arrangement undoes itself.
pub open spec fn undoing(n: int) -> int {
    if n == 1 {
        3
    } else if n == 3 {
        1
    } else {
        n
    }
}

/// Each arrangement is a symmetry of the game.
pub proof fn lemma_arrangement_is_symmetry(n: int)
    ensures
        is_symmetry(arrangement(n), arrangement(undoing(n))),
{
    let p = arrangement(n);
    assert forall|cells: Seq<Mark>, mark: Mark, swap: bool|
        has_line(#[trigger] image(cells, p, swap), #[trigger] recolour(mark, swap)) == has_line(
            cells,
            mark,
        ) by {
        let turned = image(cells, p, swap);
        assert forall|i: int| 0 <= i < 9 implies (#[trigger] turned[i] == recolour(mark, swap)
            <==> cells[p[i]] == mark) by {}
    }
}

/// Turning or mirroring the board keeps the value of the position.
pub proof fn lemma_turned_board_same_value(cells: Seq<Mark>, mark: Mark, n: int)
    requires
        cells.len() == 9,
        mark != Mark::Empty,
    ensures
        game_value(image(cells, arrangement(n), false), mark) == game_value(cells, mark),
{
    lemma_arrangement_is_symmetry(n);
    lemma_symmetry_keeps_value(cells, mark, arrangement(n), arrangement(undoing(n)), false);
}

/// Swapping the marks, the player to move with them, keeps the value of
/// the position.
pub proof fn lemma_swapped_marks_same_value(cells: Seq<Mark>, mark: Mark)
    requires
        cells.len() == 9,
        mark != Mark::Empty,
    ensures
        game_value(image(cells, arrangement(0), true), opponent(mark)) == game_value(cells, mark),
{
    lemma_arrangement_is_symmetry(0);
    lemma_symmetry_keeps_value(cells, mark, arrangement(0), arrangement(0), true);
}

} // verus!

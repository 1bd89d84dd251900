//! The empty board is worth a draw.
//!
//! The proof walks the game tree once for each side. A position is *held*
//! when the player to move has a placement after which the opponent is
//! *capped*, and capped when every placement leaves the opponent holding.
//! Finished games and positions with a line to complete end the walk.
//! Positions that differ by a turn or a mirroring of the board are treated
//! once. Each position met on the way has a lemma of its own, named after
//! its cells in row-major order: `a` and `b` for the players' marks, `_`
//! for an empty cell.

use vstd::prelude::*;
use crate::board::Mark::{Empty as E, PlayerA as A, PlayerB as B};
use crate::board::{Mark, empty_cells, has_line, opponent, winner};
use crate::laws::law_completing_a_line_wins;
use crate::symmetry::{
    arrangement, image, lemma_swapped_marks_same_value, lemma_turned_board_same_value,
};
use crate::value::{
    DRAW, LOSS, WIN, game_value, lemma_best_reply_is_max, lemma_game_value_range, move_value,
    playable,
};

verus! {

/// The board with the given cells, in row-major order.
pub open spec fn grid(
    c0: Mark,
    c1: Mark,
    c2: Mark,
    c3: Mark,
    c4: Mark,
    c5: Mark,
    c6: Mark,
    c7: Mark,
    c8: Mark,
) -> Seq<Mark> {
    seq![c0, c1, c2, c3, c4, c5, c6, c7, c8]
}

/// A full board without a line is a draw.
proof fn lemma_finished_draw(cells: Seq<Mark>, mark: Mark)
    requires
        cells[0] != E,
        cells[1] != E,
        cells[2] != E,
        cells[3] != E,
        cells[4] != E,
        cells[5] != E,
        cells[6] != E,
        cells[7] != E,
        cells[8] != E,
        winner(cells) is None,
    ensures
        game_value(cells, mark) == DRAW,
{
}

/// A board with a line is lost for the player to move.
proof fn lemma_finished_loss(cells: Seq<Mark>, mark: Mark)
    requires
        winner(cells) is Some,
    ensures
        game_value(cells, mark) == LOSS,
{
}

/// A player who can complete a line wins.
proof fn lemma_win_in_one(cells: Seq<Mark>, mark: Mark, k: int)
    requires
        playable(cells, mark, k),
        winner(cells) is None,
        has_line(cells.update(k, mark), mark),
    ensures
        game_value(cells, mark) == WIN,
{
    law_completing_a_line_wins(cells, mark, k);
    lemma_best_reply_is_max(cells, mark, 9);
    assert(move_value(cells, mark, k) <= game_value(cells, mark));
    lemma_game_value_range(cells, mark);
}

/// A player holds a position by a placement that caps the opponent.
proof fn lemma_holds_by(cells: Seq<Mark>, mark: Mark, k: int)
    requires
        playable(cells, mark, k),
        winner(cells) is None,
        game_value(cells.update(k, mark), opponent(mark)) <= DRAW,
    ensures
        game_value(cells, mark) >= DRAW,
{
    lemma_best_reply_is_max(cells, mark, 9);
    assert(move_value(cells, mark, k) <= game_value(cells, mark));
}

/// A player is capped where every placement leaves the opponent holding.
proof fn lemma_capped(cells: Seq<Mark>, mark: Mark)
    requires
        cells.len() == 9,
        mark != E,
        winner(cells) is None,
        cells[0] == E ==> game_value(cells.update(0, mark), opponent(mark)) >= DRAW,
        cells[1] == E ==> game_value(cells.update(1, mark), opponent(mark)) >= DRAW,
        cells[2] == E ==> game_value(cells.update(2, mark), opponent(mark)) >= DRAW,
        cells[3] == E ==> game_value(cells.update(3, mark), opponent(mark)) >= DRAW,
        cells[4] == E ==> game_value(cells.update(4, mark), opponent(mark)) >= DRAW,
        cells[5] == E ==> game_value(cells.update(5, mark), opponent(mark)) >= DRAW,
        cells[6] == E ==> game_value(cells.update(6, mark), opponent(mark)) >= DRAW,
        cells[7] == E ==> game_value(cells.update(7, mark), opponent(mark)) >= DRAW,
        cells[8] == E ==> game_value(cells.update(8, mark), opponent(mark)) >= DRAW,
    ensures
        game_value(cells, mark) <= DRAW,
{
    lemma_best_reply_is_max(cells, mark, 9);
}

proof fn holds__________()
    ensures
        game_value(grid(E, E, E, E, E, E, E, E, E), A) >= DRAW,
{
    let cells = grid(E, E, E, E, E, E, E, E, E);
    assert(cells.update(4, A) =~= grid(E, E, E, E, A, E, E, E, E));
    capped_____a____();
    lemma_holds_by(cells, A, 4);
}

proof fn capped__________()
    ensures
        game_value(grid(E, E, E, E, E, E, E, E, E), A) <= DRAW,
{
    let cells = grid(E, E, E, E, E, E, E, E, E);
    assert(cells.update(0, A) =~= grid(A, E, E, E, E, E, E, E, E));
    holds_a________();
    assert(cells.update(1, A) =~= grid(E, A, E, E, E, E, E, E, E));
    holds__a_______();
    lemma_turned_board_same_value(cells.update(2, A), B, 3);
    assert(image(cells.update(2, A), arrangement(3), false) =~= grid(A, E, E, E, E, E, E, E, E));
    lemma_turned_board_same_value(cells.update(3, A), B, 1);
    assert(image(cells.update(3, A), arrangement(1), false) =~= grid(E, A, E, E, E, E, E, E, E));
    assert(cells.update(4, A) =~= grid(E, E, E, E, A, E, E, E, E));
    holds_____a____();
    lemma_turned_board_same_value(cells.update(5, A), B, 3);
    assert(image(cells.update(5, A), arrangement(3), false) =~= grid(E, A, E, E, E, E, E, E, E));
    lemma_turned_board_same_value(cells.update(6, A), B, 1);
    assert(image(cells.update(6, A), arrangement(1), false) =~= grid(A, E, E, E, E, E, E, E, E));
    lemma_turned_board_same_value(cells.update(7, A), B, 2);
    assert(image(cells.update(7, A), arrangement(2), false) =~= grid(E, A, E, E, E, E, E, E, E));
    lemma_turned_board_same_value(cells.update(8, A), B, 2);
    assert(image(cells.update(8, A), arrangement(2), false) =~= grid(A, E, E, E, E, E, E, E, E));
    lemma_capped(cells, A);
}

proof fn holds_a________()
    ensures
        game_value(grid(A, E, E, E, E, E, E, E, E), B) >= DRAW,
{
    let cells = grid(A, E, E, E, E, E, E, E, E);
    assert(cells.update(4, B) =~= grid(A, E, E, E, B, E, E, E, E));
    capped_a___b____();
    lemma_holds_by(cells, B, 4);
}

proof fn holds__a_______()
    ensures
        game_value(grid(E, A, E, E, E, E, E, E, E), B) >= DRAW,
{
    let cells = grid(E, A, E, E, E, E, E, E, E);
    assert(cells.update(4, B) =~= grid(E, A, E, E, B, E, E, E, E));
    capped__a__b____();
    lemma_holds_by(cells, B, 4);
}

proof fn holds_____a____()
    ensures
        game_value(grid(E, E, E, E, A, E, E, E, E), B) >= DRAW,
{
    let cells = grid(E, E, E, E, A, E, E, E, E);
    assert(cells.update(0, B) =~= grid(B, E, E, E, A, E, E, E, E));
    capped_b___a____();
    lemma_holds_by(cells, B, 0);
}

proof fn capped_____a____()
    ensures
        game_value(grid(E, E, E, E, A, E, E, E, E), B) <= DRAW,
{
    let cells = grid(E, E, E, E, A, E, E, E, E);
    assert(cells.update(0, B) =~= grid(B, E, E, E, A, E, E, E, E));
    holds_b___a____();
    assert(cells.update(1, B) =~= grid(E, B, E, E, A, E, E, E, E));
    holds__b__a____();
    lemma_turned_board_same_value(cells.update(2, B), A, 3);
    assert(image(cells.update(2, B), arrangement(3), false) =~= grid(B, E, E, E, A, E, E, E, E));
    lemma_turned_board_same_value(cells.update(3, B), A, 1);
    assert(image(cells.update(3, B), arrangement(1), false) =~= grid(E, B, E, E, A, E, E, E, E));
    lemma_turned_board_same_value(cells.update(5, B), A, 3);
    assert(image(cells.update(5, B), arrangement(3), false) =~= grid(E, B, E, E, A, E, E, E, E));
    lemma_turned_board_same_value(cells.update(6, B), A, 1);
    assert(image(cells.update(6, B), arrangement(1), false) =~= grid(B, E, E, E, A, E, E, E, E));
    lemma_turned_board_same_value(cells.update(7, B), A, 2);
    assert(image(cells.update(7, B), arrangement(2), false) =~= grid(E, B, E, E, A, E, E, E, E));
    lemma_turned_board_same_value(cells.update(8, B), A, 2);
    assert(image(cells.update(8, B), arrangement(2), false) =~= grid(B, E, E, E, A, E, E, E, E));
    lemma_capped(cells, B);
}

proof fn capped_a___b____()
    ensures
        game_value(grid(A, E, E, E, B, E, E, E, E), A) <= DRAW,
{
    let cells = grid(A, E, E, E, B, E, E, E, E);
    assert(cells.update(1, A) =~= grid(A, A, E, E, B, E, E, E, E));
    holds_aa__b____();
    assert(cells.update(2, A) =~= grid(A, E, A, E, B, E, E, E, E));
    holds_a_a_b____();
    lemma_turned_board_same_value(cells.update(3, A), B, 7);
    assert(image(cells.update(3, A), arrangement(7), false) =~= grid(A, A, E, E, B, E, E, E, E));
    assert(cells.update(5, A) =~= grid(A, E, E, E, B, A, E, E, E));
    holds_a___ba___();
    lemma_turned_board_same_value(cells.update(6, A), B, 1);
    assert(image(cells.update(6, A), arrangement(1), false) =~= grid(A, E, A, E, B, E, E, E, E));
    lemma_turned_board_same_value(cells.update(7, A), B, 7);
    assert(image(cells.update(7, A), arrangement(7), false) =~= grid(A, E, E, E, B, A, E, E, E));
    assert(cells.update(8, A) =~= grid(A, E, E, E, B, E, E, E, A));
    holds_a___b___a();
    lemma_capped(cells, A);
}

proof fn holds_b___a____()
    ensures
        game_value(grid(B, E, E, E, A, E, E, E, E), A) >= DRAW,
{
    let cells = grid(B, E, E, E, A, E, E, E, E);
    assert(cells.update(1, A) =~= grid(B, A, E, E, A, E, E, E, E));
    capped_ba__a____();
    lemma_holds_by(cells, A, 1);
}

proof fn capped_b___a____()
    ensures
        game_value(grid(B, E, E, E, A, E, E, E, E), A) <= DRAW,
{
    let cells = grid(B, E, E, E, A, E, E, E, E);
    assert(cells.update(1, A) =~= grid(B, A, E, E, A, E, E, E, E));
    holds_ba__a____();
    lemma_turned_board_same_value(cells.update(2, A), B, 4);
    assert(image(cells.update(2, A), arrangement(4), false) =~= grid(A, E, B, E, A, E, E, E, E));
    holds_a_b_a____();
    lemma_turned_board_same_value(cells.update(3, A), B, 7);
    assert(image(cells.update(3, A), arrangement(7), false) =~= grid(B, A, E, E, A, E, E, E, E));
    assert(cells.update(5, A) =~= grid(B, E, E, E, A, A, E, E, E));
    holds_b___aa___();
    lemma_turned_board_same_value(cells.update(6, A), B, 1);
    assert(image(cells.update(6, A), arrangement(1), false) =~= grid(A, E, B, E, A, E, E, E, E));
    lemma_turned_board_same_value(cells.update(7, A), B, 7);
    assert(image(cells.update(7, A), arrangement(7), false) =~= grid(B, E, E, E, A, A, E, E, E));
    lemma_turned_board_same_value(cells.update(8, A), B, 2);
    assert(image(cells.update(8, A), arrangement(2), false) =~= grid(A, E, E, E, A, E, E, E, B));
    holds_a___a___b();
    lemma_capped(cells, A);
}

proof fn capped__a__b____()
    ensures
        game_value(grid(E, A, E, E, B, E, E, E, E), A) <= DRAW,
{
    let cells = grid(E, A, E, E, B, E, E, E, E);
    assert(cells.update(0, A) =~= grid(A, A, E, E, B, E, E, E, E));
    holds_aa__b____();
    lemma_turned_board_same_value(cells.update(2, A), B, 4);
    assert(image(cells.update(2, A), arrangement(4), false) =~= grid(A, A, E, E, B, E, E, E, E));
    assert(cells.update(3, A) =~= grid(E, A, E, A, B, E, E, E, E));
    holds__a_ab____();
    lemma_turned_board_same_value(cells.update(5, A), B, 3);
    assert(image(cells.update(5, A), arrangement(3), false) =~= grid(E, A, E, A, B, E, E, E, E));
    lemma_turned_board_same_value(cells.update(6, A), B, 1);
    assert(image(cells.update(6, A), arrangement(1), false) =~= grid(A, E, E, E, B, A, E, E, E));
    holds_a___ba___();
    assert(cells.update(7, A) =~= grid(E, A, E, E, B, E, E, A, E));
    holds__a__b__a_();
    lemma_turned_board_same_value(cells.update(8, A), B, 5);
    assert(image(cells.update(8, A), arrangement(5), false) =~= grid(A, E, E, E, B, A, E, E, E));
    lemma_capped(cells, A);
}

proof fn holds__b__a____()
    ensures
        game_value(grid(E, B, E, E, A, E, E, E, E), A) >= DRAW,
{
    let cells = grid(E, B, E, E, A, E, E, E, E);
    assert(cells.update(0, A) =~= grid(A, B, E, E, A, E, E, E, E));
    capped_ab__a____();
    lemma_holds_by(cells, A, 0);
}

proof fn holds_aa__b____()
    ensures
        game_value(grid(A, A, E, E, B, E, E, E, E), B) >= DRAW,
{
    let cells = grid(A, A, E, E, B, E, E, E, E);
    assert(cells.update(2, B) =~= grid(A, A, B, E, B, E, E, E, E));
    capped_aab_b____();
    lemma_holds_by(cells, B, 2);
}

proof fn capped_ab__a____()
    ensures
        game_value(grid(A, B, E, E, A, E, E, E, E), B) <= DRAW,
{
    let cells = grid(A, B, E, E, A, E, E, E, E);
    lemma_win_in_one(cells.update(2, B), A, 8);
    lemma_win_in_one(cells.update(3, B), A, 8);
    lemma_win_in_one(cells.update(5, B), A, 8);
    lemma_win_in_one(cells.update(6, B), A, 8);
    lemma_win_in_one(cells.update(7, B), A, 8);
    assert(cells.update(8, B) =~= grid(A, B, E, E, A, E, E, E, B));
    holds_ab__a___b();
    lemma_capped(cells, B);
}

proof fn holds_a_a_b____()
    ensures
        game_value(grid(A, E, A, E, B, E, E, E, E), B) >= DRAW,
{
    let cells = grid(A, E, A, E, B, E, E, E, E);
    assert(cells.update(1, B) =~= grid(A, B, A, E, B, E, E, E, E));
    capped_aba_b____();
    lemma_holds_by(cells, B, 1);
}

proof fn holds_a_b_a____()
    ensures
        game_value(grid(A, E, B, E, A, E, E, E, E), B) >= DRAW,
{
    let cells = grid(A, E, B, E, A, E, E, E, E);
    assert(cells.update(8, B) =~= grid(A, E, B, E, A, E, E, E, B));
    capped_a_b_a___b();
    lemma_holds_by(cells, B, 8);
}

proof fn holds_a___a___b()
    ensures
        game_value(grid(A, E, E, E, A, E, E, E, B), B) >= DRAW,
{
    let cells = grid(A, E, E, E, A, E, E, E, B);
    assert(cells.update(2, B) =~= grid(A, E, B, E, A, E, E, E, B));
    capped_a_b_a___b();
    lemma_holds_by(cells, B, 2);
}

proof fn holds_a___ba___()
    ensures
        game_value(grid(A, E, E, E, B, A, E, E, E), B) >= DRAW,
{
    let cells = grid(A, E, E, E, B, A, E, E, E);
    assert(cells.update(1, B) =~= grid(A, B, E, E, B, A, E, E, E));
    capped_ab__ba___();
    lemma_holds_by(cells, B, 1);
}

proof fn holds_a___b___a()
    ensures
        game_value(grid(A, E, E, E, B, E, E, E, A), B) >= DRAW,
{
    let cells = grid(A, E, E, E, B, E, E, E, A);
    assert(cells.update(1, B) =~= grid(A, B, E, E, B, E, E, E, A));
    capped_ab__b___a();
    lemma_holds_by(cells, B, 1);
}

proof fn holds_ba__a____()
    ensures
        game_value(grid(B, A, E, E, A, E, E, E, E), B) >= DRAW,
{
    let cells = grid(B, A, E, E, A, E, E, E, E);
    assert(cells.update(7, B) =~= grid(B, A, E, E, A, E, E, B, E));
    capped_ba__a__b_();
    lemma_holds_by(cells, B, 7);
}

proof fn capped_ba__a____()
    ensures
        game_value(grid(B, A, E, E, A, E, E, E, E), B) <= DRAW,
{
    let cells = grid(B, A, E, E, A, E, E, E, E);
    lemma_win_in_one(cells.update(2, B), A, 7);
    lemma_win_in_one(cells.update(3, B), A, 7);
    lemma_win_in_one(cells.update(5, B), A, 7);
    lemma_win_in_one(cells.update(6, B), A, 7);
    assert(cells.update(7, B) =~= grid(B, A, E, E, A, E, E, B, E));
    holds_ba__a__b_();
    lemma_win_in_one(cells.update(8, B), A, 7);
    lemma_capped(cells, B);
}

proof fn holds_b___aa___()
    ensures
        game_value(grid(B, E, E, E, A, A, E, E, E), B) >= DRAW,
{
    let cells = grid(B, E, E, E, A, A, E, E, E);
    lemma_turned_board_same_value(cells.update(3, B), A, 7);
    assert(image(cells.update(3, B), arrangement(7), false) =~= grid(B, B, E, E, A, E, E, A, E));
    capped_bb__a__a_();
    lemma_holds_by(cells, B, 3);
}

proof fn holds__a_ab____()
    ensures
        game_value(grid(E, A, E, A, B, E, E, E, E), B) >= DRAW,
{
    let cells = grid(E, A, E, A, B, E, E, E, E);
    assert(cells.update(0, B) =~= grid(B, A, E, A, B, E, E, E, E));
    capped_ba_ab____();
    lemma_holds_by(cells, B, 0);
}

proof fn holds__a__b__a_()
    ensures
        game_value(grid(E, A, E, E, B, E, E, A, E), B) >= DRAW,
{
    let cells = grid(E, A, E, E, B, E, E, A, E);
    assert(cells.update(0, B) =~= grid(B, A, E, E, B, E, E, A, E));
    capped_ba__b__a_();
    lemma_holds_by(cells, B, 0);
}

proof fn capped_aab_b____()
    ensures
        game_value(grid(A, A, B, E, B, E, E, E, E), A) <= DRAW,
{
    let cells = grid(A, A, B, E, B, E, E, E, E);
    lemma_win_in_one(cells.update(3, A), B, 6);
    lemma_win_in_one(cells.update(5, A), B, 6);
    assert(cells.update(6, A) =~= grid(A, A, B, E, B, E, A, E, E));
    holds_aab_b_a__();
    lemma_win_in_one(cells.update(7, A), B, 6);
    lemma_win_in_one(cells.update(8, A), B, 6);
    lemma_capped(cells, A);
}

proof fn capped_aba_b____()
    ensures
        game_value(grid(A, B, A, E, B, E, E, E, E), A) <= DRAW,
{
    let cells = grid(A, B, A, E, B, E, E, E, E);
    lemma_win_in_one(cells.update(3, A), B, 7);
    lemma_win_in_one(cells.update(5, A), B, 7);
    lemma_win_in_one(cells.update(6, A), B, 7);
    assert(cells.update(7, A) =~= grid(A, B, A, E, B, E, E, A, E));
    holds_aba_b__a_();
    lemma_win_in_one(cells.update(8, A), B, 7);
    lemma_capped(cells, A);
}

proof fn holds_ab__a___b()
    ensures
        game_value(grid(A, B, E, E, A, E, E, E, B), A) >= DRAW,
{
    let cells = grid(A, B, E, E, A, E, E, E, B);
    lemma_turned_board_same_value(cells.update(3, A), B, 7);
    assert(image(cells.update(3, A), arrangement(7), false) =~= grid(A, A, E, B, A, E, E, E, B));
    capped_aa_ba___b();
    lemma_holds_by(cells, A, 3);
}

proof fn capped_ab__ba___()
    ensures
        game_value(grid(A, B, E, E, B, A, E, E, E), A) <= DRAW,
{
    let cells = grid(A, B, E, E, B, A, E, E, E);
    lemma_win_in_one(cells.update(2, A), B, 7);
    lemma_win_in_one(cells.update(3, A), B, 7);
    lemma_win_in_one(cells.update(6, A), B, 7);
    assert(cells.update(7, A) =~= grid(A, B, E, E, B, A, E, A, E));
    holds_ab__ba_a_();
    lemma_win_in_one(cells.update(8, A), B, 7);
    lemma_capped(cells, A);
}

proof fn capped_ab__b___a()
    ensures
        game_value(grid(A, B, E, E, B, E, E, E, A), A) <= DRAW,
{
    let cells = grid(A, B, E, E, B, E, E, E, A);
    lemma_win_in_one(cells.update(2, A), B, 7);
    lemma_win_in_one(cells.update(3, A), B, 7);
    lemma_win_in_one(cells.update(5, A), B, 7);
    lemma_win_in_one(cells.update(6, A), B, 7);
    lemma_turned_board_same_value(cells.update(7, A), B, 2);
    assert(image(cells.update(7, A), arrangement(2), false) =~= grid(A, A, E, E, B, E, E, B, A));
    holds_aa__b__ba();
    lemma_capped(cells, A);
}

proof fn capped_a_b_a___b()
    ensures
        game_value(grid(A, E, B, E, A, E, E, E, B), A) <= DRAW,
{
    let cells = grid(A, E, B, E, A, E, E, E, B);
    lemma_win_in_one(cells.update(1, A), B, 5);
    lemma_win_in_one(cells.update(3, A), B, 5);
    assert(cells.update(5, A) =~= grid(A, E, B, E, A, A, E, E, B));
    holds_a_b_aa__b();
    lemma_win_in_one(cells.update(6, A), B, 5);
    lemma_win_in_one(cells.update(7, A), B, 5);
    lemma_capped(cells, A);
}

proof fn capped_ba_ab____()
    ensures
        game_value(grid(B, A, E, A, B, E, E, E, E), A) <= DRAW,
{
    let cells = grid(B, A, E, A, B, E, E, E, E);
    lemma_win_in_one(cells.update(2, A), B, 8);
    lemma_win_in_one(cells.update(5, A), B, 8);
    lemma_win_in_one(cells.update(6, A), B, 8);
    lemma_win_in_one(cells.update(7, A), B, 8);
    lemma_turned_board_same_value(cells.update(8, A), B, 2);
    assert(image(cells.update(8, A), arrangement(2), false) =~= grid(A, E, E, E, B, A, E, A, B));
    holds_a___ba_ab();
    lemma_capped(cells, A);
}

proof fn holds_ba__a__b_()
    ensures
        game_value(grid(B, A, E, E, A, E, E, B, E), A) >= DRAW,
{
    let cells = grid(B, A, E, E, A, E, E, B, E);
    lemma_turned_board_same_value(cells.update(3, A), B, 7);
    assert(image(cells.update(3, A), arrangement(7), false) =~= grid(B, A, E, A, A, B, E, E, E));
    capped_ba_aab___();
    lemma_holds_by(cells, A, 3);
}

proof fn capped_ba__a__b_()
    ensures
        game_value(grid(B, A, E, E, A, E, E, B, E), A) <= DRAW,
{
    let cells = grid(B, A, E, E, A, E, E, B, E);
    lemma_turned_board_same_value(cells.update(2, A), B, 4);
    assert(image(cells.update(2, A), arrangement(4), false) =~= grid(A, A, B, E, A, E, E, B, E));
    holds_aab_a__b_();
    lemma_turned_board_same_value(cells.update(3, A), B, 7);
    assert(image(cells.update(3, A), arrangement(7), false) =~= grid(B, A, E, A, A, B, E, E, E));
    holds_ba_aab___();
    assert(cells.update(5, A) =~= grid(B, A, E, E, A, A, E, B, E));
    holds_ba__aa_b_();
    lemma_turned_board_same_value(cells.update(6, A), B, 6);
    assert(image(cells.update(6, A), arrangement(6), false) =~= grid(A, B, E, E, A, E, B, A, E));
    holds_ab__a_ba_();
    lemma_turned_board_same_value(cells.update(8, A), B, 2);
    assert(image(cells.update(8, A), arrangement(2), false) =~= grid(A, B, E, E, A, E, E, A, B));
    holds_ab__a__ab();
    lemma_capped(cells, A);
}

proof fn capped_ba__b__a_()
    ensures
        game_value(grid(B, A, E, E, B, E, E, A, E), A) <= DRAW,
{
    let cells = grid(B, A, E, E, B, E, E, A, E);
    lemma_win_in_one(cells.update(2, A), B, 8);
    lemma_win_in_one(cells.update(3, A), B, 8);
    lemma_win_in_one(cells.update(5, A), B, 8);
    lemma_win_in_one(cells.update(6, A), B, 8);
    lemma_turned_board_same_value(cells.update(8, A), B, 2);
    assert(image(cells.update(8, A), arrangement(2), false) =~= grid(A, A, E, E, B, E, E, A, B));
    holds_aa__b__ab();
    lemma_capped(cells, A);
}

proof fn capped_bb__a__a_()
    ensures
        game_value(grid(B, B, E, E, A, E, E, A, E), A) <= DRAW,
{
    let cells = grid(B, B, E, E, A, E, E, A, E);
    lemma_turned_board_same_value(cells.update(2, A), B, 4);
    assert(image(cells.update(2, A), arrangement(4), false) =~= grid(A, B, B, E, A, E, E, A, E));
    holds_abb_a__a_();
    lemma_win_in_one(cells.update(3, A), B, 2);
    lemma_win_in_one(cells.update(5, A), B, 2);
    lemma_win_in_one(cells.update(6, A), B, 2);
    lemma_win_in_one(cells.update(8, A), B, 2);
    lemma_capped(cells, A);
}

proof fn holds_aab_a__b_()
    ensures
        game_value(grid(A, A, B, E, A, E, E, B, E), B) >= DRAW,
{
    let cells = grid(A, A, B, E, A, E, E, B, E);
    assert(cells.update(8, B) =~= grid(A, A, B, E, A, E, E, B, B));
    capped_aab_a__bb();
    lemma_holds_by(cells, B, 8);
}

proof fn holds_aab_b_a__()
    ensures
        game_value(grid(A, A, B, E, B, E, A, E, E), B) >= DRAW,
{
    let cells = grid(A, A, B, E, B, E, A, E, E);
    assert(cells.update(3, B) =~= grid(A, A, B, B, B, E, A, E, E));
    capped_aabbb_a__();
    lemma_holds_by(cells, B, 3);
}

proof fn capped_aa_ba___b()
    ensures
        game_value(grid(A, A, E, B, A, E, E, E, B), B) <= DRAW,
{
    let cells = grid(A, A, E, B, A, E, E, E, B);
    lemma_win_in_one(cells.update(2, B), A, 7);
    lemma_win_in_one(cells.update(5, B), A, 2);
    lemma_win_in_one(cells.update(6, B), A, 2);
    lemma_win_in_one(cells.update(7, B), A, 2);
    lemma_capped(cells, B);
}

proof fn holds_aa__b__ab()
    ensures
        game_value(grid(A, A, E, E, B, E, E, A, B), B) >= DRAW,
{
    let cells = grid(A, A, E, E, B, E, E, A, B);
    assert(cells.update(2, B) =~= grid(A, A, B, E, B, E, E, A, B));
    capped_aab_b__ab();
    lemma_holds_by(cells, B, 2);
}

proof fn holds_aa__b__ba()
    ensures
        game_value(grid(A, A, E, E, B, E, E, B, A), B) >= DRAW,
{
    let cells = grid(A, A, E, E, B, E, E, B, A);
    assert(cells.update(2, B) =~= grid(A, A, B, E, B, E, E, B, A));
    capped_aab_b__ba();
    lemma_holds_by(cells, B, 2);
}

proof fn holds_aba_b__a_()
    ensures
        game_value(grid(A, B, A, E, B, E, E, A, E), B) >= DRAW,
{
    let cells = grid(A, B, A, E, B, E, E, A, E);
    assert(cells.update(3, B) =~= grid(A, B, A, B, B, E, E, A, E));
    capped_ababb__a_();
    lemma_holds_by(cells, B, 3);
}

proof fn holds_abb_a__a_()
    ensures
        game_value(grid(A, B, B, E, A, E, E, A, E), B) >= DRAW,
{
    let cells = grid(A, B, B, E, A, E, E, A, E);
    assert(cells.update(8, B) =~= grid(A, B, B, E, A, E, E, A, B));
    capped_abb_a__ab();
    lemma_holds_by(cells, B, 8);
}

proof fn holds_ab__a_ba_()
    ensures
        game_value(grid(A, B, E, E, A, E, B, A, E), B) >= DRAW,
{
    let cells = grid(A, B, E, E, A, E, B, A, E);
    assert(cells.update(8, B) =~= grid(A, B, E, E, A, E, B, A, B));
    capped_ab__a_bab();
    lemma_holds_by(cells, B, 8);
}

proof fn holds_ab__a__ab()
    ensures
        game_value(grid(A, B, E, E, A, E, E, A, B), B) >= DRAW,
{
    let cells = grid(A, B, E, E, A, E, E, A, B);
    assert(cells.update(2, B) =~= grid(A, B, B, E, A, E, E, A, B));
    capped_abb_a__ab();
    lemma_holds_by(cells, B, 2);
}

proof fn holds_ab__ba_a_()
    ensures
        game_value(grid(A, B, E, E, B, A, E, A, E), B) >= DRAW,
{
    let cells = grid(A, B, E, E, B, A, E, A, E);
    assert(cells.update(6, B) =~= grid(A, B, E, E, B, A, B, A, E));
    capped_ab__baba_();
    lemma_holds_by(cells, B, 6);
}

proof fn holds_a_b_aa__b()
    ensures
        game_value(grid(A, E, B, E, A, A, E, E, B), B) >= DRAW,
{
    let cells = grid(A, E, B, E, A, A, E, E, B);
    lemma_turned_board_same_value(cells.update(3, B), A, 7);
    assert(image(cells.update(3, B), arrangement(7), false) =~= grid(A, B, E, E, A, E, B, A, B));
    capped_ab__a_bab();
    lemma_holds_by(cells, B, 3);
}

proof fn holds_a___ba_ab()
    ensures
        game_value(grid(A, E, E, E, B, A, E, A, B), B) >= DRAW,
{
    let cells = grid(A, E, E, E, B, A, E, A, B);
    assert(cells.update(2, B) =~= grid(A, E, B, E, B, A, E, A, B));
    capped_a_b_ba_ab();
    lemma_holds_by(cells, B, 2);
}

proof fn holds_ba_aab___()
    ensures
        game_value(grid(B, A, E, A, A, B, E, E, E), B) >= DRAW,
{
    let cells = grid(B, A, E, A, A, B, E, E, E);
    assert(cells.update(7, B) =~= grid(B, A, E, A, A, B, E, B, E));
    capped_ba_aab_b_();
    lemma_holds_by(cells, B, 7);
}

proof fn capped_ba_aab___()
    ensures
        game_value(grid(B, A, E, A, A, B, E, E, E), B) <= DRAW,
{
    let cells = grid(B, A, E, A, A, B, E, E, E);
    lemma_win_in_one(cells.update(2, B), A, 7);
    lemma_win_in_one(cells.update(6, B), A, 7);
    assert(cells.update(7, B) =~= grid(B, A, E, A, A, B, E, B, E));
    holds_ba_aab_b_();
    lemma_win_in_one(cells.update(8, B), A, 7);
    lemma_capped(cells, B);
}

proof fn holds_ba__aa_b_()
    ensures
        game_value(grid(B, A, E, E, A, A, E, B, E), B) >= DRAW,
{
    let cells = grid(B, A, E, E, A, A, E, B, E);
    assert(cells.update(3, B) =~= grid(B, A, E, B, A, A, E, B, E));
    capped_ba_baa_b_();
    lemma_holds_by(cells, B, 3);
}

proof fn capped_aabbb_a__()
    ensures
        game_value(grid(A, A, B, B, B, E, A, E, E), A) <= DRAW,
{
    let cells = grid(A, A, B, B, B, E, A, E, E);
    assert(cells.update(5, A) =~= grid(A, A, B, B, B, A, A, E, E));
    holds_aabbbaa__();
    lemma_win_in_one(cells.update(7, A), B, 5);
    lemma_win_in_one(cells.update(8, A), B, 5);
    lemma_capped(cells, A);
}

proof fn capped_aab_a__bb()
    ensures
        game_value(grid(A, A, B, E, A, E, E, B, B), A) <= DRAW,
{
    let cells = grid(A, A, B, E, A, E, E, B, B);
    lemma_win_in_one(cells.update(3, A), B, 5);
    lemma_win_in_one(cells.update(5, A), B, 6);
    lemma_win_in_one(cells.update(6, A), B, 5);
    lemma_capped(cells, A);
}

proof fn capped_aab_b__ab()
    ensures
        game_value(grid(A, A, B, E, B, E, E, A, B), A) <= DRAW,
{
    let cells = grid(A, A, B, E, B, E, E, A, B);
    lemma_win_in_one(cells.update(3, A), B, 5);
    lemma_win_in_one(cells.update(5, A), B, 6);
    lemma_win_in_one(cells.update(6, A), B, 5);
    lemma_capped(cells, A);
}

proof fn capped_aab_b__ba()
    ensures
        game_value(grid(A, A, B, E, B, E, E, B, A), A) <= DRAW,
{
    let cells = grid(A, A, B, E, B, E, E, B, A);
    lemma_win_in_one(cells.update(3, A), B, 6);
    lemma_win_in_one(cells.update(5, A), B, 6);
    assert(cells.update(6, A) =~= grid(A, A, B, E, B, E, A, B, A));
    holds_aab_b_aba();
    lemma_capped(cells, A);
}

proof fn capped_ababb__a_()
    ensures
        game_value(grid(A, B, A, B, B, E, E, A, E), A) <= DRAW,
{
    let cells = grid(A, B, A, B, B, E, E, A, E);
    lemma_turned_board_same_value(cells.update(5, A), B, 3);
    assert(image(cells.update(5, A), arrangement(3), false) =~= grid(A, A, E, B, B, A, A, B, E));
    holds_aa_bbaab_();
    lemma_win_in_one(cells.update(6, A), B, 5);
    lemma_win_in_one(cells.update(8, A), B, 5);
    lemma_capped(cells, A);
}

proof fn capped_abb_a__ab()
    ensures
        game_value(grid(A, B, B, E, A, E, E, A, B), A) <= DRAW,
{
    let cells = grid(A, B, B, E, A, E, E, A, B);
    lemma_win_in_one(cells.update(3, A), B, 5);
    assert(cells.update(5, A) =~= grid(A, B, B, E, A, A, E, A, B));
    holds_abb_aa_ab();
    lemma_win_in_one(cells.update(6, A), B, 5);
    lemma_capped(cells, A);
}

proof fn capped_ab__a_bab()
    ensures
        game_value(grid(A, B, E, E, A, E, B, A, B), A) <= DRAW,
{
    let cells = grid(A, B, E, E, A, E, B, A, B);
    assert(cells.update(2, A) =~= grid(A, B, A, E, A, E, B, A, B));
    holds_aba_a_bab();
    lemma_turned_board_same_value(cells.update(3, A), B, 7);
    assert(image(cells.update(3, A), arrangement(7), false) =~= grid(A, A, B, B, A, A, E, E, B));
    holds_aabbaa__b();
    assert(cells.update(5, A) =~= grid(A, B, E, E, A, A, B, A, B));
    holds_ab__aabab();
    lemma_capped(cells, A);
}

proof fn capped_ab__baba_()
    ensures
        game_value(grid(A, B, E, E, B, A, B, A, E), A) <= DRAW,
{
    let cells = grid(A, B, E, E, B, A, B, A, E);
    lemma_turned_board_same_value(cells.update(2, A), B, 3);
    assert(image(cells.update(2, A), arrangement(3), false) =~= grid(A, A, E, B, B, A, A, E, B));
    holds_aa_bbaa_b();
    lemma_win_in_one(cells.update(3, A), B, 2);
    lemma_win_in_one(cells.update(8, A), B, 2);
    lemma_capped(cells, A);
}

proof fn capped_a_b_ba_ab()
    ensures
        game_value(grid(A, E, B, E, B, A, E, A, B), A) <= DRAW,
{
    let cells = grid(A, E, B, E, B, A, E, A, B);
    lemma_win_in_one(cells.update(1, A), B, 6);
    lemma_win_in_one(cells.update(3, A), B, 6);
    lemma_turned_board_same_value(cells.update(6, A), B, 6);
    assert(image(cells.update(6, A), arrangement(6), false) =~= grid(A, A, B, E, B, A, A, E, B));
    holds_aab_baa_b();
    lemma_capped(cells, A);
}

proof fn holds_ba_aab_b_()
    ensures
        game_value(grid(B, A, E, A, A, B, E, B, E), A) >= DRAW,
{
    let cells = grid(B, A, E, A, A, B, E, B, E);
    lemma_turned_board_same_value(cells.update(2, A), B, 4);
    assert(image(cells.update(2, A), arrangement(4), false) =~= grid(A, A, B, B, A, A, E, B, E));
    capped_aabbaa_b_();
    lemma_holds_by(cells, A, 2);
}

proof fn capped_ba_aab_b_()
    ensures
        game_value(grid(B, A, E, A, A, B, E, B, E), A) <= DRAW,
{
    let cells = grid(B, A, E, A, A, B, E, B, E);
    lemma_turned_board_same_value(cells.update(2, A), B, 4);
    assert(image(cells.update(2, A), arrangement(4), false) =~= grid(A, A, B, B, A, A, E, B, E));
    holds_aabbaa_b_();
    lemma_turned_board_same_value(cells.update(6, A), B, 1);
    assert(image(cells.update(6, A), arrangement(1), false) =~= grid(A, A, B, B, A, A, E, B, E));
    lemma_turned_board_same_value(cells.update(8, A), B, 2);
    assert(image(cells.update(8, A), arrangement(2), false) =~= grid(A, B, E, B, A, A, E, A, B));
    holds_ab_baa_ab();
    lemma_capped(cells, A);
}

proof fn capped_ba_baa_b_()
    ensures
        game_value(grid(B, A, E, B, A, A, E, B, E), A) <= DRAW,
{
    let cells = grid(B, A, E, B, A, A, E, B, E);
    lemma_win_in_one(cells.update(2, A), B, 6);
    lemma_turned_board_same_value(cells.update(6, A), B, 1);
    assert(image(cells.update(6, A), arrangement(1), false) =~= grid(A, B, B, B, A, A, E, A, E));
    holds_abbbaa_a_();
    lemma_win_in_one(cells.update(8, A), B, 6);
    lemma_capped(cells, A);
}

proof fn holds_aabbaa_b_()
    ensures
        game_value(grid(A, A, B, B, A, A, E, B, E), B) >= DRAW,
{
    let cells = grid(A, A, B, B, A, A, E, B, E);
    assert(cells.update(8, B) =~= grid(A, A, B, B, A, A, E, B, B));
    capped_aabbaa_bb();
    lemma_holds_by(cells, B, 8);
}

proof fn capped_aabbaa_b_()
    ensures
        game_value(grid(A, A, B, B, A, A, E, B, E), B) <= DRAW,
{
    let cells = grid(A, A, B, B, A, A, E, B, E);
    lemma_win_in_one(cells.update(6, B), A, 8);
    assert(cells.update(8, B) =~= grid(A, A, B, B, A, A, E, B, B));
    holds_aabbaa_bb();
    lemma_capped(cells, B);
}

proof fn holds_aabbaa__b()
    ensures
        game_value(grid(A, A, B, B, A, A, E, E, B), B) >= DRAW,
{
    let cells = grid(A, A, B, B, A, A, E, E, B);
    assert(cells.update(7, B) =~= grid(A, A, B, B, A, A, E, B, B));
    capped_aabbaa_bb();
    lemma_holds_by(cells, B, 7);
}

proof fn holds_aabbbaa__()
    ensures
        game_value(grid(A, A, B, B, B, A, A, E, E), B) >= DRAW,
{
    let cells = grid(A, A, B, B, B, A, A, E, E);
    assert(cells.update(7, B) =~= grid(A, A, B, B, B, A, A, B, E));
    capped_aabbbaab_();
    lemma_holds_by(cells, B, 7);
}

proof fn holds_aab_baa_b()
    ensures
        game_value(grid(A, A, B, E, B, A, A, E, B), B) >= DRAW,
{
    let cells = grid(A, A, B, E, B, A, A, E, B);
    assert(cells.update(3, B) =~= grid(A, A, B, B, B, A, A, E, B));
    capped_aabbbaa_b();
    lemma_holds_by(cells, B, 3);
}

proof fn holds_aab_b_aba()
    ensures
        game_value(grid(A, A, B, E, B, E, A, B, A), B) >= DRAW,
{
    let cells = grid(A, A, B, E, B, E, A, B, A);
    assert(cells.update(3, B) =~= grid(A, A, B, B, B, E, A, B, A));
    capped_aabbb_aba();
    lemma_holds_by(cells, B, 3);
}

proof fn holds_aa_bbaab_()
    ensures
        game_value(grid(A, A, E, B, B, A, A, B, E), B) >= DRAW,
{
    let cells = grid(A, A, E, B, B, A, A, B, E);
    assert(cells.update(2, B) =~= grid(A, A, B, B, B, A, A, B, E));
    capped_aabbbaab_();
    lemma_holds_by(cells, B, 2);
}

proof fn holds_aa_bbaa_b()
    ensures
        game_value(grid(A, A, E, B, B, A, A, E, B), B) >= DRAW,
{
    let cells = grid(A, A, E, B, B, A, A, E, B);
    assert(cells.update(2, B) =~= grid(A, A, B, B, B, A, A, E, B));
    capped_aabbbaa_b();
    lemma_holds_by(cells, B, 2);
}

proof fn holds_aba_a_bab()
    ensures
        game_value(grid(A, B, A, E, A, E, B, A, B), B) >= DRAW,
{
    let cells = grid(A, B, A, E, A, E, B, A, B);
    assert(cells.update(3, B) =~= grid(A, B, A, B, A, E, B, A, B));
    capped_ababa_bab();
    lemma_holds_by(cells, B, 3);
}

proof fn holds_abbbaa_a_()
    ensures
        game_value(grid(A, B, B, B, A, A, E, A, E), B) >= DRAW,
{
    let cells = grid(A, B, B, B, A, A, E, A, E);
    assert(cells.update(8, B) =~= grid(A, B, B, B, A, A, E, A, B));
    capped_abbbaa_ab();
    lemma_holds_by(cells, B, 8);
}

proof fn holds_abb_aa_ab()
    ensures
        game_value(grid(A, B, B, E, A, A, E, A, B), B) >= DRAW,
{
    let cells = grid(A, B, B, E, A, A, E, A, B);
    assert(cells.update(3, B) =~= grid(A, B, B, B, A, A, E, A, B));
    capped_abbbaa_ab();
    lemma_holds_by(cells, B, 3);
}

proof fn holds_ab_baa_ab()
    ensures
        game_value(grid(A, B, E, B, A, A, E, A, B), B) >= DRAW,
{
    let cells = grid(A, B, E, B, A, A, E, A, B);
    assert(cells.update(2, B) =~= grid(A, B, B, B, A, A, E, A, B));
    capped_abbbaa_ab();
    lemma_holds_by(cells, B, 2);
}

proof fn holds_ab__aabab()
    ensures
        game_value(grid(A, B, E, E, A, A, B, A, B), B) >= DRAW,
{
    let cells = grid(A, B, E, E, A, A, B, A, B);
    lemma_turned_board_same_value(cells.update(3, B), A, 7);
    assert(image(cells.update(3, B), arrangement(7), false) =~= grid(A, B, B, B, A, A, E, A, B));
    capped_abbbaa_ab();
    lemma_holds_by(cells, B, 3);
}

proof fn holds_aabbaa_bb()
    ensures
        game_value(grid(A, A, B, B, A, A, E, B, B), A) >= DRAW,
{
    let cells = grid(A, A, B, B, A, A, E, B, B);
    lemma_finished_draw(cells.update(6, A), B);
    lemma_holds_by(cells, A, 6);
}

proof fn capped_aabbaa_bb()
    ensures
        game_value(grid(A, A, B, B, A, A, E, B, B), A) <= DRAW,
{
    let cells = grid(A, A, B, B, A, A, E, B, B);
    lemma_finished_draw(cells.update(6, A), B);
    lemma_capped(cells, A);
}

proof fn capped_aabbbaab_()
    ensures
        game_value(grid(A, A, B, B, B, A, A, B, E), A) <= DRAW,
{
    let cells = grid(A, A, B, B, B, A, A, B, E);
    lemma_finished_draw(cells.update(8, A), B);
    lemma_capped(cells, A);
}

proof fn capped_aabbbaa_b()
    ensures
        game_value(grid(A, A, B, B, B, A, A, E, B), A) <= DRAW,
{
    let cells = grid(A, A, B, B, B, A, A, E, B);
    lemma_finished_draw(cells.update(7, A), B);
    lemma_capped(cells, A);
}

proof fn capped_aabbb_aba()
    ensures
        game_value(grid(A, A, B, B, B, E, A, B, A), A) <= DRAW,
{
    let cells = grid(A, A, B, B, B, E, A, B, A);
    lemma_finished_draw(cells.update(5, A), B);
    lemma_capped(cells, A);
}

proof fn capped_ababa_bab()
    ensures
        game_value(grid(A, B, A, B, A, E, B, A, B), A) <= DRAW,
{
    let cells = grid(A, B, A, B, A, E, B, A, B);
    lemma_finished_draw(cells.update(5, A), B);
    lemma_capped(cells, A);
}

proof fn capped_abbbaa_ab()
    ensures
        game_value(grid(A, B, B, B, A, A, E, A, B), A) <= DRAW,
{
    let cells = grid(A, B, B, B, A, A, E, A, B);
    lemma_finished_draw(cells.update(6, A), B);
    lemma_capped(cells, A);
}

/// With perfect play by both sides the game is a draw, whoever moves
/// first.
pub proof fn lemma_empty_board_is_drawn(mark: Mark)
    requires
        mark != E,
    ensures
        game_value(empty_cells(), mark) == DRAW,
{
    let start = empty_cells();
    holds__________();
    capped__________();
    assert(start =~= grid(E, E, E, E, E, E, E, E, E));
    if mark == B {
        lemma_swapped_marks_same_value(start, A);
        assert(image(start, arrangement(0), true) =~= start);
    }
}

} // verus!

use tictactoe::board::{
    apply_move, grid_char_to_grid_mark, create_board, Board, GameError, Mark, Move,
};
use tictactoe::search::{evaluate, find_optimal_move, find_optimal_move_from_symbols};
use tictactoe::value::{DRAW, LOSS, UNSCORED, WIN};

fn grid_of(rows: [&str; 3]) -> Vec<Vec<char>> {
    rows.iter().map(|row| row.chars().collect()).collect()
}

fn board_of(rows: [&str; 3]) -> Board {
    grid_char_to_grid_mark(&grid_of(rows)).expect("recognised symbols")
}

fn at(row: usize, col: usize) -> Move {
    Move { row, col }
}

#[test]
fn score_constants() {
    assert_eq!(WIN, 10);
    assert_eq!(DRAW, 0);
    assert_eq!(LOSS, -10);
    assert_eq!(UNSCORED, -200);
}

#[test]
fn finished_game_with_a_line_is_a_loss_for_the_mover() {
    let mut board = board_of(["XXX", "OO.", "..."]);
    assert_eq!(evaluate(&mut board, Mark::PlayerB, 200), Ok(-10));
    assert_eq!(evaluate(&mut board, Mark::PlayerA, 200), Ok(-10));
    assert_eq!(evaluate(&mut board, Mark::PlayerB, -200), Ok(-10));
}

#[test]
fn finished_game_without_a_line_is_a_draw() {
    let mut board = board_of(["XOX", "XOO", "OXX"]);
    assert_eq!(evaluate(&mut board, Mark::PlayerA, 200), Ok(0));
    assert_eq!(evaluate(&mut board, Mark::PlayerB, 200), Ok(0));
    assert_eq!(evaluate(&mut board, Mark::PlayerB, -200), Ok(0));
}

#[test]
fn empty_board_is_a_draw() {
    let mut board = create_board();
    assert_eq!(evaluate(&mut board, Mark::PlayerA, 200), Ok(0));
    assert_eq!(evaluate(&mut board, Mark::PlayerB, 200), Ok(0));
}

#[test]
fn immediate_win_is_worth_ten() {
    let mut board = board_of(["XX.", "OO.", "..."]);
    assert_eq!(evaluate(&mut board, Mark::PlayerA, 200), Ok(10));
    assert_eq!(evaluate(&mut board, Mark::PlayerB, 200), Ok(10));
}

#[test]
fn lost_position_is_worth_minus_ten() {
    let mut board = board_of(["XO.", "X..", "..."]);
    assert_eq!(evaluate(&mut board, Mark::PlayerB, 200), Ok(-10));
    let mut board = board_of(["OO.", "X..", "X.."]);
    assert_eq!(evaluate(&mut board, Mark::PlayerA, 200), Ok(-10));
}

#[test]
fn held_position_is_worth_zero() {
    let mut board = board_of(["X..", ".O.", "..X"]);
    assert_eq!(evaluate(&mut board, Mark::PlayerB, 200), Ok(0));
    let mut board = board_of(["X.O", ".O.", "..."]);
    assert_eq!(evaluate(&mut board, Mark::PlayerA, 200), Ok(0));
}

#[test]
fn cutoff_below_every_score_stops_before_the_first_placement() {
    let mut board = create_board();
    assert_eq!(evaluate(&mut board, Mark::PlayerA, -200), Ok(-200));
    assert_eq!(evaluate(&mut board, Mark::PlayerA, i32::MIN), Ok(-200));
}

#[test]
fn cutoff_stops_the_scan_at_the_first_score_that_reaches_it() {
    // The first empty cell loses for PlayerB, a later one wins.
    let mut board = board_of(["...", ".XO", "XXO"]);
    assert_eq!(evaluate(&mut board, Mark::PlayerB, -10), Ok(-10));
    assert_eq!(evaluate(&mut board, Mark::PlayerB, 0), Ok(10));
    assert_eq!(evaluate(&mut board, Mark::PlayerB, 200), Ok(10));
    assert_eq!(evaluate(&mut board, Mark::PlayerB, i32::MAX), Ok(10));
}

#[test]
fn score_below_the_cutoff_is_exact() {
    let mut board = create_board();
    assert_eq!(evaluate(&mut board, Mark::PlayerA, 10), Ok(0));
    assert_eq!(evaluate(&mut board, Mark::PlayerA, 1), Ok(0));
    assert_eq!(evaluate(&mut board, Mark::PlayerA, 0), Ok(0));
    assert_eq!(evaluate(&mut board, Mark::PlayerA, -10), Ok(0));
}

#[test]
fn evaluate_refuses_empty_mark() {
    let mut board = create_board();
    assert_eq!(evaluate(&mut board, Mark::Empty, 200), Err(GameError::InvalidMark));
    let mut finished = board_of(["XXX", "OO.", "..."]);
    assert_eq!(evaluate(&mut finished, Mark::Empty, 200), Err(GameError::InvalidMark));
}

#[test]
fn evaluate_restores_the_board() {
    let mut board = board_of(["X..", ".O.", "..."]);
    let before = board;
    assert_eq!(evaluate(&mut board, Mark::PlayerA, 200), Ok(0));
    assert_eq!(board, before);
    assert_eq!(evaluate(&mut board, Mark::PlayerA, 0), Ok(0));
    assert_eq!(board, before);
}

#[test]
fn first_corner_on_the_empty_board() {
    let mut board = create_board();
    assert_eq!(find_optimal_move(&mut board, Mark::PlayerA), Ok(at(0, 0)));
    assert_eq!(find_optimal_move(&mut board, Mark::PlayerB), Ok(at(0, 0)));
    assert_eq!(board, create_board());
}

#[test]
fn win_is_preferred_to_block() {
    let mut board = board_of(["XX.", "OO.", "..."]);
    assert_eq!(find_optimal_move(&mut board, Mark::PlayerA), Ok(at(0, 2)));
    assert_eq!(board, board_of(["XX.", "OO.", "..."]));
}

#[test]
fn winning_cell_later_in_the_scan_is_found() {
    let mut board = board_of(["...", ".XO", "X.O"]);
    assert_eq!(find_optimal_move(&mut board, Mark::PlayerA), Ok(at(0, 2)));
    let mut board = board_of(["O.X", "..X", "XOO"]);
    assert_eq!(find_optimal_move(&mut board, Mark::PlayerB), Ok(at(1, 1)));
}

#[test]
fn earlier_forced_win_is_preferred_to_later_immediate_win() {
    // (0,2) wins by force and comes before the line-completing (1,2).
    let mut board = board_of(["XX.", "OO.", "..."]);
    assert_eq!(find_optimal_move(&mut board, Mark::PlayerB), Ok(at(0, 2)));
}

#[test]
fn single_threat_is_blocked() {
    let mut board = board_of(["X.O", ".O.", "..."]);
    assert_eq!(find_optimal_move(&mut board, Mark::PlayerA), Ok(at(2, 0)));
    let mut board = board_of(["X..", ".O.", "..X"]);
    assert_eq!(evaluate(&mut board, Mark::PlayerB, 200), Ok(0));
    let mut board = board_of(["XX.", ".O.", "..."]);
    assert_eq!(find_optimal_move(&mut board, Mark::PlayerB), Ok(at(0, 2)));
    let mut board = board_of(["O..", "XX.", "..O"]);
    assert_eq!(find_optimal_move(&mut board, Mark::PlayerB), Ok(at(1, 2)));
}

#[test]
fn first_empty_cell_when_every_placement_loses() {
    // Blocking at (2,0) loses as well, so no cell is better than the first.
    let mut board = board_of(["XO.", "X..", "..."]);
    assert_eq!(find_optimal_move(&mut board, Mark::PlayerB), Ok(at(0, 2)));
}

#[test]
fn only_empty_cell_is_selected() {
    let mut board = board_of(["XOX", "XOO", "OX."]);
    assert_eq!(find_optimal_move(&mut board, Mark::PlayerA), Ok(at(2, 2)));
    assert_eq!(find_optimal_move(&mut board, Mark::PlayerB), Ok(at(2, 2)));
}

#[test]
fn full_board_has_no_legal_move() {
    let mut board = board_of(["XOX", "XOO", "OXX"]);
    assert_eq!(find_optimal_move(&mut board, Mark::PlayerA), Err(GameError::NoLegalMove));
    let mut won = board_of(["XXX", "OOX", "OXO"]);
    assert_eq!(find_optimal_move(&mut won, Mark::PlayerB), Err(GameError::NoLegalMove));
}

#[test]
fn empty_mark_cannot_move() {
    let mut board = create_board();
    assert_eq!(find_optimal_move(&mut board, Mark::Empty), Err(GameError::InvalidMark));
    let mut full = board_of(["XOX", "XOO", "OXX"]);
    assert_eq!(find_optimal_move(&mut full, Mark::Empty), Err(GameError::InvalidMark));
}

#[test]
fn same_input_same_move() {
    for rows in [["...", "...", "..."], ["X..", ".O.", "..."], ["XO.", "X..", "..."]] {
        for mark in [Mark::PlayerA, Mark::PlayerB] {
            let mut first = board_of(rows);
            let mut second = board_of(rows);
            let chosen = find_optimal_move(&mut first, mark);
            assert_eq!(chosen, find_optimal_move(&mut second, mark));
            assert_eq!(chosen, find_optimal_move(&mut first, mark));
        }
    }
}

#[test]
fn selected_move_can_be_placed() {
    let mut board = board_of(["X..", ".O.", "..."]);
    let chosen = find_optimal_move(&mut board, Mark::PlayerA).unwrap();
    assert_eq!(apply_move(&mut board, chosen, Mark::PlayerA), Ok(()));
}

#[test]
fn symbols_in_move_out() {
    assert_eq!(find_optimal_move_from_symbols(&grid_of(["XX.", "OO.", "..."]), 'X'), Ok(at(0, 2)));
    assert_eq!(find_optimal_move_from_symbols(&grid_of(["...", "...", "..."]), 'O'), Ok(at(0, 0)));
    assert_eq!(find_optimal_move_from_symbols(&grid_of(["X.O", ".O.", "..."]), 'X'), Ok(at(2, 0)));
}

#[test]
fn unknown_symbol_in_the_grid_is_refused() {
    assert_eq!(
        find_optimal_move_from_symbols(&grid_of(["XX.", "O0.", "..."]), 'X'),
        Err(GameError::InvalidSymbol)
    );
    assert_eq!(
        find_optimal_move_from_symbols(&grid_of(["XX.", "OO.", ".. "]), '.'),
        Err(GameError::InvalidSymbol)
    );
}

#[test]
fn unknown_symbol_as_mark_is_refused() {
    assert_eq!(
        find_optimal_move_from_symbols(&grid_of(["XX.", "OO.", "..."]), 'x'),
        Err(GameError::InvalidSymbol)
    );
    assert_eq!(
        find_optimal_move_from_symbols(&grid_of(["XOX", "XOO", "OXX"]), '?'),
        Err(GameError::InvalidSymbol)
    );
}

#[test]
fn empty_symbol_as_mark_is_refused() {
    assert_eq!(
        find_optimal_move_from_symbols(&grid_of(["XX.", "OO.", "..."]), '.'),
        Err(GameError::InvalidMark)
    );
}

#[test]
fn full_grid_has_no_legal_move() {
    assert_eq!(
        find_optimal_move_from_symbols(&grid_of(["XOX", "XOO", "OXX"]), 'X'),
        Err(GameError::NoLegalMove)
    );
}

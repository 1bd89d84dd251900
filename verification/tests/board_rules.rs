use tictactoe::board::{
    apply_move, board_is_full, check_winner, create_board, get_cell, get_char_of_mark,
    get_mark_of_char, grid_char_to_grid_mark, is_terminal, is_valid_move, opposite_mark, set_cell,
    Board, GameError, Mark, Move,
};

fn board_from(rows: [&str; 3]) -> Board {
    let grid: Vec<Vec<char>> = rows.iter().map(|row| row.chars().collect()).collect();
    grid_char_to_grid_mark(&grid).expect("recognised symbols")
}

fn at(row: usize, col: usize) -> Move {
    Move { row, col }
}

#[test]
fn symbols_of_the_three_states() {
    assert_eq!(get_char_of_mark(Mark::Empty), '.');
    assert_eq!(get_char_of_mark(Mark::PlayerA), 'X');
    assert_eq!(get_char_of_mark(Mark::PlayerB), 'O');
}

#[test]
fn states_of_the_three_symbols() {
    assert_eq!(get_mark_of_char('.'), Ok(Mark::Empty));
    assert_eq!(get_mark_of_char('X'), Ok(Mark::PlayerA));
    assert_eq!(get_mark_of_char('O'), Ok(Mark::PlayerB));
}

#[test]
fn unknown_symbols_are_refused() {
    for symbol in ['x', 'o', ' ', '0', '_', '-', '\0', 'é'] {
        assert_eq!(get_mark_of_char(symbol), Err(GameError::InvalidSymbol));
    }
}

#[test]
fn symbol_round_trip() {
    for mark in [Mark::Empty, Mark::PlayerA, Mark::PlayerB] {
        assert_eq!(get_mark_of_char(get_char_of_mark(mark)), Ok(mark));
    }
}

#[test]
fn new_board_is_empty() {
    let board = create_board();
    assert_eq!(board.cells, [Mark::Empty; 9]);
    for row in 0..3 {
        for col in 0..3 {
            assert_eq!(get_cell(&board, at(row, col)), Mark::Empty);
        }
    }
    assert!(!board_is_full(&board));
    assert!(!is_terminal(&board));
    assert_eq!(check_winner(&board), None);
}

#[test]
fn cells_are_stored_row_major() {
    let mut board = create_board();
    set_cell(&mut board, at(1, 2), Mark::PlayerB);
    set_cell(&mut board, at(2, 0), Mark::PlayerA);
    let mut expected = [Mark::Empty; 9];
    expected[5] = Mark::PlayerB;
    expected[6] = Mark::PlayerA;
    assert_eq!(board.cells, expected);
    assert_eq!(get_cell(&board, at(1, 2)), Mark::PlayerB);
    assert_eq!(get_cell(&board, at(2, 0)), Mark::PlayerA);
    assert_eq!(get_cell(&board, at(0, 2)), Mark::Empty);
}

#[test]
fn set_cell_overwrites_and_clears() {
    let mut board = create_board();
    set_cell(&mut board, at(1, 1), Mark::PlayerA);
    set_cell(&mut board, at(1, 1), Mark::PlayerB);
    assert_eq!(get_cell(&board, at(1, 1)), Mark::PlayerB);
    set_cell(&mut board, at(1, 1), Mark::Empty);
    assert_eq!(board, create_board());
}

#[test]
fn valid_move_on_empty_cell() {
    let board = board_from(["X..", "...", "..O"]);
    assert_eq!(is_valid_move(&board, at(0, 1)), Ok(true));
    assert_eq!(is_valid_move(&board, at(2, 1)), Ok(true));
}

#[test]
fn occupied_cell_is_not_a_valid_move() {
    let board = board_from(["X..", "...", "..O"]);
    assert_eq!(is_valid_move(&board, at(0, 0)), Ok(false));
    assert_eq!(is_valid_move(&board, at(2, 2)), Ok(false));
}

#[test]
fn out_of_range_is_an_error_not_occupied() {
    let board = create_board();
    assert_eq!(is_valid_move(&board, at(3, 0)), Err(GameError::IllegalMove));
    assert_eq!(is_valid_move(&board, at(0, 3)), Err(GameError::IllegalMove));
    assert_eq!(is_valid_move(&board, at(usize::MAX, usize::MAX)), Err(GameError::IllegalMove));
}

#[test]
fn apply_move_places_the_mark() {
    let mut board = create_board();
    assert_eq!(apply_move(&mut board, at(2, 1), Mark::PlayerA), Ok(()));
    assert_eq!(board, board_from(["...", "...", ".X."]));
    assert_eq!(apply_move(&mut board, at(0, 0), Mark::PlayerB), Ok(()));
    assert_eq!(board, board_from(["O..", "...", ".X."]));
}

#[test]
fn apply_move_refuses_occupied_cell() {
    let mut board = board_from(["O..", "...", ".X."]);
    let before = board;
    assert_eq!(apply_move(&mut board, at(0, 0), Mark::PlayerA), Err(GameError::IllegalMove));
    assert_eq!(apply_move(&mut board, at(2, 1), Mark::PlayerA), Err(GameError::IllegalMove));
    assert_eq!(board, before);
}

#[test]
fn apply_move_refuses_out_of_range() {
    let mut board = create_board();
    assert_eq!(apply_move(&mut board, at(3, 3), Mark::PlayerA), Err(GameError::IllegalMove));
    assert_eq!(apply_move(&mut board, at(0, 9), Mark::PlayerB), Err(GameError::IllegalMove));
    assert_eq!(board, create_board());
}

#[test]
fn apply_move_refuses_empty_mark_on_an_empty_cell() {
    let mut board = create_board();
    assert_eq!(apply_move(&mut board, at(1, 1), Mark::Empty), Err(GameError::InvalidMark));
    assert_eq!(apply_move(&mut board, at(2, 0), Mark::Empty), Err(GameError::InvalidMark));
    assert_eq!(board, create_board());
}

#[test]
fn occupied_cell_is_illegal_whatever_the_mark() {
    let mut board = create_board();
    assert_eq!(apply_move(&mut board, at(0, 0), Mark::PlayerA), Ok(()));
    let before = board;
    for mark in [Mark::Empty, Mark::PlayerA, Mark::PlayerB] {
        assert_eq!(apply_move(&mut board, at(0, 0), mark), Err(GameError::IllegalMove));
        assert_eq!(board, before);
    }
}

#[test]
fn out_of_range_is_illegal_whatever_the_mark() {
    let mut board = board_from(["X..", ".O.", "..."]);
    let before = board;
    for mark in [Mark::Empty, Mark::PlayerA, Mark::PlayerB] {
        assert_eq!(apply_move(&mut board, at(7, 7), mark), Err(GameError::IllegalMove));
        assert_eq!(apply_move(&mut board, at(3, 0), mark), Err(GameError::IllegalMove));
        assert_eq!(apply_move(&mut board, at(0, 3), mark), Err(GameError::IllegalMove));
        assert_eq!(board, before);
    }
}

#[test]
fn winner_on_each_row() {
    assert_eq!(check_winner(&board_from(["XXX", "OO.", "..."])), Some(Mark::PlayerA));
    assert_eq!(check_winner(&board_from(["XX.", "OOO", "X.."])), Some(Mark::PlayerB));
    assert_eq!(check_winner(&board_from(["OO.", "..O", "XXX"])), Some(Mark::PlayerA));
}

#[test]
fn winner_on_each_column() {
    assert_eq!(check_winner(&board_from(["OX.", "OX.", "O.X"])), Some(Mark::PlayerB));
    assert_eq!(check_winner(&board_from(["OX.", "OX.", ".XO"])), Some(Mark::PlayerA));
    assert_eq!(check_winner(&board_from(["X.O", "X.O", "..O"])), Some(Mark::PlayerB));
}

#[test]
fn winner_on_each_diagonal() {
    assert_eq!(check_winner(&board_from(["XO.", "OX.", "..X"])), Some(Mark::PlayerA));
    assert_eq!(check_winner(&board_from(["X.O", "XO.", "O.."])), Some(Mark::PlayerB));
}

#[test]
fn no_winner_without_a_line() {
    assert_eq!(check_winner(&board_from(["XOX", "XOO", "OXX"])), None);
    assert_eq!(check_winner(&board_from(["XX.", "OO.", "..."])), None);
    assert_eq!(check_winner(&board_from(["...", "...", "..."])), None);
}

#[test]
fn three_empty_cells_are_no_line() {
    assert_eq!(check_winner(&board_from(["...", "XOX", "OXO"])), None);
}

#[test]
fn player_a_is_named_when_both_hold_a_line() {
    assert_eq!(check_winner(&board_from(["XXX", "OOO", "..."])), Some(Mark::PlayerA));
    assert_eq!(check_winner(&board_from(["OOO", "XXX", "..."])), Some(Mark::PlayerA));
}

#[test]
fn terminal_with_a_winner_and_empty_cells() {
    assert!(is_terminal(&board_from(["XXX", "OO.", "..."])));
}

#[test]
fn terminal_when_full_without_winner() {
    let board = board_from(["XOX", "XOO", "OXX"]);
    assert!(board_is_full(&board));
    assert!(is_terminal(&board));
}

#[test]
fn not_terminal_with_one_empty_cell() {
    let board = board_from(["XOX", "XOO", "OX."]);
    assert!(!board_is_full(&board));
    assert!(!is_terminal(&board));
}

#[test]
fn opposite_of_each_player() {
    assert_eq!(opposite_mark(Mark::PlayerA), Ok(Mark::PlayerB));
    assert_eq!(opposite_mark(Mark::PlayerB), Ok(Mark::PlayerA));
}

#[test]
fn empty_has_no_opposite() {
    assert_eq!(opposite_mark(Mark::Empty), Err(GameError::InvalidMark));
}

#[test]
fn grid_is_read_cell_by_cell() {
    let grid = vec![vec!['X', 'O', '.'], vec!['.', 'X', 'O'], vec!['O', '.', 'X']];
    let board = grid_char_to_grid_mark(&grid).unwrap();
    let a = Mark::PlayerA;
    let b = Mark::PlayerB;
    let e = Mark::Empty;
    assert_eq!(board.cells, [a, b, e, e, a, b, b, e, a]);
}

#[test]
fn grid_with_unknown_symbol_is_refused() {
    for position in 0..9 {
        let mut grid = vec![vec!['.'; 3]; 3];
        grid[position / 3][position % 3] = '?';
        assert_eq!(grid_char_to_grid_mark(&grid), Err(GameError::InvalidSymbol));
    }
}

#[test]
fn blank_is_not_taken_for_an_empty_cell() {
    let grid = vec![vec!['X', ' ', '.'], vec!['.', '.', '.'], vec!['.', '.', '.']];
    assert_eq!(grid_char_to_grid_mark(&grid), Err(GameError::InvalidSymbol));
}

#[test]
fn symbols_beyond_the_board_are_not_read() {
    let grid = vec![
        vec!['X', '.', '.', '?'],
        vec!['.', 'O', '.', '?'],
        vec!['.', '.', '.', '?'],
        vec!['?', '?', '?', '?'],
    ];
    assert_eq!(grid_char_to_grid_mark(&grid), Ok(board_from(["X..", ".O.", "..."])));
}

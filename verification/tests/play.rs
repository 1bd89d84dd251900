use tictactoe::board::{
    apply_move, check_winner, create_board, get_cell, is_terminal, opposite_mark, Board, Mark,
    Move,
};
use tictactoe::search::{evaluate, find_optimal_move};

// Every position that alternating placements reach from the empty board,
// PlayerA moving first, each paired with the player to move.
fn reachable_positions() -> Vec<(Board, Mark)> {
    let mut seen = std::collections::HashSet::new();
    let mut found = Vec::new();
    let mut pending = vec![(create_board(), Mark::PlayerA)];
    while let Some((board, mark)) = pending.pop() {
        if !seen.insert(board.cells.map(|cell| cell as u8)) {
            continue;
        }
        found.push((board, mark));
        if is_terminal(&board) {
            continue;
        }
        for row in 0..3 {
            for col in 0..3 {
                let mut next = board;
                if apply_move(&mut next, Move { row, col }, mark).is_ok() {
                    pending.push((next, opposite_mark(mark).unwrap()));
                }
            }
        }
    }
    found
}

#[test]
fn reachable_position_count() {
    assert_eq!(reachable_positions().len(), 5478);
}

#[test]
fn finished_games_are_lost_or_drawn_for_the_mover() {
    let mut finished = 0;
    for (board, mark) in reachable_positions() {
        if !is_terminal(&board) {
            continue;
        }
        finished += 1;
        let mut scratch = board;
        let expected = if check_winner(&board).is_some() { -10 } else { 0 };
        for bound in [-200, -10, 0, 10, 200] {
            assert_eq!(evaluate(&mut scratch, mark, bound), Ok(expected));
        }
        assert_eq!(scratch, board);
    }
    assert_eq!(finished, 958);
}

#[test]
fn selected_move_is_an_empty_cell_that_can_be_placed() {
    for (board, mark) in reachable_positions() {
        if is_terminal(&board) {
            continue;
        }
        let mut scratch = board;
        let chosen = find_optimal_move(&mut scratch, mark).unwrap();
        assert_eq!(scratch, board);
        assert!(chosen.row < 3 && chosen.col < 3);
        assert_eq!(get_cell(&board, chosen), Mark::Empty);
        assert_eq!(apply_move(&mut scratch, chosen, mark), Ok(()));
        assert_eq!(get_cell(&scratch, chosen), mark);
    }
}

#[test]
fn selected_move_keeps_the_value_of_the_position() {
    for (board, mark) in reachable_positions() {
        if is_terminal(&board) {
            continue;
        }
        let mut scratch = board;
        let value = evaluate(&mut scratch, mark, 200).unwrap();
        assert!(value == -10 || value == 0 || value == 10);
        let chosen = find_optimal_move(&mut scratch, mark).unwrap();
        apply_move(&mut scratch, chosen, mark).unwrap();
        let reply = evaluate(&mut scratch, opposite_mark(mark).unwrap(), 200).unwrap();
        assert_eq!(reply, -value);
    }
}

#[test]
fn score_under_a_cutoff_never_exceeds_the_value() {
    for (board, mark) in reachable_positions() {
        let mut scratch = board;
        let value = evaluate(&mut scratch, mark, 200).unwrap();
        for bound in [-10, 0, 10] {
            let score = evaluate(&mut scratch, mark, bound).unwrap();
            assert!(score <= value);
            assert!(score == value || score >= bound);
        }
    }
}

#[test]
fn available_win_is_taken() {
    for (board, mark) in reachable_positions() {
        if is_terminal(&board) {
            continue;
        }
        let mut can_win = false;
        for row in 0..3 {
            for col in 0..3 {
                let mut next = board;
                if apply_move(&mut next, Move { row, col }, mark).is_ok() {
                    can_win = can_win || check_winner(&next) == Some(mark);
                }
            }
        }
        if can_win {
            let mut scratch = board;
            let chosen = find_optimal_move(&mut scratch, mark).unwrap();
            apply_move(&mut scratch, chosen, mark).unwrap();
            assert_eq!(evaluate(&mut scratch, opposite_mark(mark).unwrap(), 200), Ok(-10));
        }
    }
}

#[test]
fn threat_is_blocked_unless_blocking_loses_too() {
    for (board, mark) in reachable_positions() {
        if is_terminal(&board) {
            continue;
        }
        let other = opposite_mark(mark).unwrap();
        let mut can_win = false;
        let mut threats = Vec::new();
        for row in 0..3 {
            for col in 0..3 {
                let mut mine = board;
                if apply_move(&mut mine, Move { row, col }, mark).is_ok() {
                    can_win = can_win || check_winner(&mine) == Some(mark);
                }
                let mut theirs = board;
                if apply_move(&mut theirs, Move { row, col }, other).is_ok()
                    && check_winner(&theirs) == Some(other)
                {
                    threats.push(Move { row, col });
                }
            }
        }
        if can_win || threats.len() != 1 {
            continue;
        }
        let mut blocked = board;
        apply_move(&mut blocked, threats[0], mark).unwrap();
        if evaluate(&mut blocked, other, 200) == Ok(10) {
            continue;
        }
        let mut scratch = board;
        assert_eq!(find_optimal_move(&mut scratch, mark), Ok(threats[0]));
    }
}

#[test]
fn perfect_play_against_itself_is_a_draw() {
    let mut board = create_board();
    let mut mark = Mark::PlayerA;
    let mut played = Vec::new();
    while !is_terminal(&board) {
        let chosen = find_optimal_move(&mut board, mark).unwrap();
        assert_eq!(apply_move(&mut board, chosen, mark), Ok(()));
        played.push((chosen.row, chosen.col));
        mark = opposite_mark(mark).unwrap();
    }
    assert_eq!(check_winner(&board), None);
    assert_eq!(
        played,
        vec![(0, 0), (1, 1), (0, 1), (0, 2), (2, 0), (1, 0), (1, 2), (2, 1), (2, 2)]
    );
}

#[test]
fn perfect_play_is_a_draw_whoever_moves_first() {
    for first in [Mark::PlayerA, Mark::PlayerB] {
        let mut board = create_board();
        let mut mark = first;
        let mut turns = 0;
        while !is_terminal(&board) {
            assert_eq!(check_winner(&board), None);
            let chosen = find_optimal_move(&mut board, mark).unwrap();
            assert_eq!(apply_move(&mut board, chosen, mark), Ok(()));
            mark = opposite_mark(mark).unwrap();
            turns += 1;
        }
        assert_eq!(turns, 9);
        assert_eq!(check_winner(&board), None);
        assert!(board.cells.iter().all(|cell| *cell != Mark::Empty));
    }
}

#[test]
fn perfect_play_never_loses_to_any_opponent() {
    // The engine plays `mark`; the opponent tries every placement.
    for engine in [Mark::PlayerA, Mark::PlayerB] {
        let mut pending = vec![(create_board(), Mark::PlayerA)];
        while let Some((board, mark)) = pending.pop() {
            if is_terminal(&board) {
                assert_ne!(check_winner(&board), Some(opposite_mark(engine).unwrap()));
                continue;
            }
            let next_mark = opposite_mark(mark).unwrap();
            if mark == engine {
                let mut next = board;
                let chosen = find_optimal_move(&mut next, mark).unwrap();
                apply_move(&mut next, chosen, mark).unwrap();
                pending.push((next, next_mark));
            } else {
                for row in 0..3 {
                    for col in 0..3 {
                        let mut next = board;
                        if apply_move(&mut next, Move { row, col }, mark).is_ok() {
                            pending.push((next, next_mark));
                        }
                    }
                }
            }
        }
    }
}

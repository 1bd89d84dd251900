//! The board: cell states, coordinates, and the rules that only look at a
//! single position.
//!
//! A board is viewed as a sequence of nine cell states in row-major order;
//! every specification in the crate is phrased over that sequence.

use vstd::prelude::*;

verus! {

/// Number of rows, and of columns.
pub const SIDE: usize = 3;

/// The state of one cell.
#[derive(Clone, Copy, Debug, PartialEq, Eq, Structural)]
pub enum Mark {
    Empty,
    PlayerA,
    PlayerB,
}

/// The ways a request can be refused.
#[derive(Clone, Copy, Debug, PartialEq, Eq, Structural)]
pub enum GameError {
    /// A symbol that stands for none of the three cell states.
    InvalidSymbol,
    /// A placement on an occupied cell or outside the grid.
    IllegalMove,
    /// `Mark::Empty` given where a player is needed.
    InvalidMark,
    /// A move was asked for on a board without an empty cell.
    NoLegalMove,
}

/// A cell, addressed by row and column, both counted from zero.
#[derive(Clone, Copy, Debug, PartialEq, Eq, Structural)]
pub struct Move {
    pub row: usize,
    pub col: usize,
}

impl Move {
    /// Both coordinates lie on the grid.
    pub open spec fn in_range(self) -> bool {
        self.row < 3 && self.col < 3
    }

    /// Position of the cell in row-major order.
    pub open spec fn index(self) -> int {
        3 * self.row + self.col
    }
}

/// The 3×3 grid, stored in row-major order.
#[derive(Clone, Copy, Debug, PartialEq, Eq)]
pub struct Board {
    pub cells: [Mark; 9],
}

impl View for Board {
    type V = Seq<Mark>;

    open spec fn view(&self) -> Seq<Mark> {
        self.cells@
    }
}

/// The symbol that stands for a cell state.
pub open spec fn symbol_of(mark: Mark) -> char {
    match mark {
        Mark::Empty => '.',
        Mark::PlayerA => 'X',
        Mark::PlayerB => 'O',
    }
}

/// The cell state a symbol stands for, if any.
pub open spec fn mark_of_symbol(symbol: char) -> Option<Mark> {
    if symbol == '.' {
        Some(Mark::Empty)
    } else if symbol == 'X' {
        Some(Mark::PlayerA)
    } else if symbol == 'O' {
        Some(Mark::PlayerB)
    } else {
        None
    }
}

/// Writes a cell state as its symbol. Reading the symbol back gives the
/// same state.
pub fn get_char_of_mark(mark: Mark) -> (symbol: char)
    ensures
        symbol == symbol_of(mark),
        mark_of_symbol(symbol) == Some(mark),
{
    match mark {
        Mark::Empty => '.',
        Mark::PlayerA => 'X',
        Mark::PlayerB => 'O',
    }
}

/// Reads a symbol as a cell state. Any symbol other than the three
/// recognised ones is refused with `InvalidSymbol`.
pub fn get_mark_of_char(symbol: char) -> (result: Result<Mark, GameError>)
    ensures
        match mark_of_symbol(symbol) {
            Some(mark) => result == Ok::<Mark, GameError>(mark),
            None => result == Err::<Mark, GameError>(GameError::InvalidSymbol),
        },
{
    match symbol {
        '.' => Ok(Mark::Empty),
        'X' => Ok(Mark::PlayerA),
        'O' => Ok(Mark::PlayerB),
        _ => Err(GameError::InvalidSymbol),
    }
}

/// Nine empty cells.
pub open spec fn empty_cells() -> Seq<Mark> {
    Seq::new(9, |i: int| Mark::Empty)
}

/// A board with every cell empty.
pub fn create_board() -> (board: Board)
    ensures
        board@ == empty_cells(),
{
    let board = Board { cells: [Mark::Empty; 9] };
    assert(board@ =~= empty_cells());
    board
}

/// Writes `mark` into a cell whatever the cell holds; writing `Mark::Empty`
/// takes a placement back. Nothing is validated: the coordinates must lie
/// on the grid.
pub fn set_cell(board: &mut Board, play_move: Move, mark: Mark)
    requires
        play_move.in_range(),
    ensures
        final(board)@ == old(board)@.update(play_move.index(), mark),
{
    let idx: usize = play_move.row * SIDE + play_move.col;
    board.cells[idx] = mark;
}

/// The player who moves after `mark`. `Mark::Empty` has no opponent and is
/// mapped to itself.
pub open spec fn opponent(mark: Mark) -> Mark {
    match mark {
        Mark::Empty => Mark::Empty,
        Mark::PlayerA => Mark::PlayerB,
        Mark::PlayerB => Mark::PlayerA,
    }
}

/// Cells `a`, `b` and `c` all hold `mark`.
pub open spec fn three(cells: Seq<Mark>, mark: Mark, a: int, b: int, c: int) -> bool {
    cells[a] == mark && cells[b] == mark && cells[c] == mark
}

/// Row `i` is filled with `mark`.
pub open spec fn row_full(cells: Seq<Mark>, mark: Mark, i: int) -> bool {
    three(cells, mark, 3 * i, 3 * i + 1, 3 * i + 2)
}

/// Column `i` is filled with `mark`.
pub open spec fn col_full(cells: Seq<Mark>, mark: Mark, i: int) -> bool {
    three(cells, mark, i, i + 3, i + 6)
}

/// One of the eight lines is filled with `mark`.
pub open spec fn has_line(cells: Seq<Mark>, mark: Mark) -> bool {
    ||| row_full(cells, mark, 0)
    ||| row_full(cells, mark, 1)
    ||| row_full(cells, mark, 2)
    ||| col_full(cells, mark, 0)
    ||| col_full(cells, mark, 1)
    ||| col_full(cells, mark, 2)
    ||| three(cells, mark, 0, 4, 8)
    ||| three(cells, mark, 2, 4, 6)
}

/// The player who holds a line. Should both hold one, which no sequence of
/// alternating placements produces, `PlayerA` is named.
pub open spec fn winner(cells: Seq<Mark>) -> Option<Mark> {
    if has_line(cells, Mark::PlayerA) {
        Some(Mark::PlayerA)
    } else if has_line(cells, Mark::PlayerB) {
        Some(Mark::PlayerB)
    } else {
        None
    }
}

/// No cell is empty.
pub open spec fn is_full(cells: Seq<Mark>) -> bool {
    forall|i: int| 0 <= i < 9 ==> cells[i] != Mark::Empty
}

/// The game is over: somebody holds a line, or no cell is left.
pub open spec fn terminal(cells: Seq<Mark>) -> bool {
    winner(cells) is Some || is_full(cells)
}

/// What a validated placement of `mark` at `play_move` does: the error it
/// is refused with, or the cells after it. The cell is looked at first, so
/// a cell that cannot be played is an `IllegalMove` whatever the mark.
pub open spec fn placement(cells: Seq<Mark>, play_move: Move, mark: Mark) -> Result<
    Seq<Mark>,
    GameError,
> {
    if !play_move.in_range() || cells[play_move.index()] != Mark::Empty {
        Err(GameError::IllegalMove)
    } else if mark == Mark::Empty {
        Err(GameError::InvalidMark)
    } else {
        Ok(cells.update(play_move.index(), mark))
    }
}

/// Reads the cell at `play_move`; the coordinates must lie on the grid.
pub fn get_cell(board: &Board, play_move: Move) -> (mark: Mark)
    requires
        play_move.in_range(),
    ensures
        mark == board@[play_move.index()],
{
    board.cells[play_move.row * SIDE + play_move.col]
}

/// Whether a mark may be placed at `play_move`: `Ok(true)` on an empty
/// cell, `Ok(false)` on an occupied one. Coordinates outside the grid are
/// no answer to that question and are refused with `IllegalMove`.
pub fn is_valid_move(board: &Board, play_move: Move) -> (result: Result<bool, GameError>)
    ensures
        !play_move.in_range() ==> result == Err::<bool, GameError>(GameError::IllegalMove),
        play_move.in_range() ==> result == Ok::<bool, GameError>(
            board@[play_move.index()] == Mark::Empty,
        ),
{
    if play_move.row >= SIDE || play_move.col >= SIDE {
        return Err(GameError::IllegalMove);
    }
    match get_cell(board, play_move) {
        Mark::PlayerA | Mark::PlayerB => Ok(false),
        Mark::Empty => Ok(true),
    }
}

/// Places `mark` at `play_move` after validating both. An occupied cell or
/// coordinates outside the grid are refused with `IllegalMove`, whatever
/// the mark; on an empty cell of the grid `Mark::Empty` is refused with
/// `InvalidMark`. A refused placement leaves the board as it was.
pub fn apply_move(board: &mut Board, play_move: Move, mark: Mark) -> (result: Result<
    (),
    GameError,
>)
    ensures
        match placement(old(board)@, play_move, mark) {
            Ok(cells) => result is Ok && final(board)@ == cells,
            Err(error) => result == Err::<(), GameError>(error) && final(board)@ == old(board)@,
        },
{
    match is_valid_move(board, play_move) {
        Ok(true) => {},
        _ => {
            return Err(GameError::IllegalMove);
        },
    }
    if mark == Mark::Empty {
        return Err(GameError::InvalidMark);
    }
    set_cell(board, play_move, mark);
    Ok(())
}

/// Looks for a line filled with `mark`.
fn holds_line(board: &Board, mark: Mark) -> (found: bool)
    ensures
        found == has_line(board@, mark),
{
    let mut i: usize = 0;
    while i < SIDE
        invariant
            i <= 3,
            forall|j: int| 0 <= j < i ==> !#[trigger] row_full(board@, mark, j),
            forall|j: int| 0 <= j < i ==> !#[trigger] col_full(board@, mark, j),
        decreases 3 - i,
    {
        if board.cells[3 * i] == mark && board.cells[3 * i + 1] == mark && board.cells[3 * i + 2]
            == mark {
            return true;
        }
        if board.cells[i] == mark && board.cells[i + 3] == mark && board.cells[i + 6] == mark {
            return true;
        }
        i += 1;
    }
    if board.cells[0] == mark && board.cells[4] == mark && board.cells[8] == mark {
        return true;
    }
    if board.cells[2] == mark && board.cells[4] == mark && board.cells[6] == mark {
        return true;
    }
    false
}

/// The player who holds a line, if any; `PlayerA` is looked for first.
pub fn check_winner(board: &Board) -> (result: Option<Mark>)
    ensures
        result == winner(board@),
{
    if holds_line(board, Mark::PlayerA) {
        Some(Mark::PlayerA)
    } else if holds_line(board, Mark::PlayerB) {
        Some(Mark::PlayerB)
    } else {
        None
    }
}

/// Whether the board has no empty cell.
pub fn board_is_full(board: &Board) -> (full: bool)
    ensures
        full == is_full(board@),
{
    let mut i: usize = 0;
    while i < 9
        invariant
            i <= 9,
            forall|j: int| 0 <= j < i ==> board@[j] != Mark::Empty,
        decreases 9 - i,
    {
        if board.cells[i] == Mark::Empty {
            return false;
        }
        i += 1;
    }
    true
}

/// Whether the game is over on this board.
pub fn is_terminal(board: &Board) -> (over: bool)
    ensures
        over == terminal(board@),
{
    if check_winner(board).is_some() {
        return true;
    }
    board_is_full(board)
}

/// The other player. `Mark::Empty` is no player and is refused with
/// `InvalidMark`.
pub fn opposite_mark(mark: Mark) -> (result: Result<Mark, GameError>)
    ensures
        mark == Mark::Empty ==> result == Err::<Mark, GameError>(GameError::InvalidMark),
        mark != Mark::Empty ==> result == Ok::<Mark, GameError>(opponent(mark)),
{
    match mark {
        Mark::PlayerB => Ok(Mark::PlayerA),
        Mark::PlayerA => Ok(Mark::PlayerB),
        Mark::Empty => Err(GameError::InvalidMark),
    }
}

/// The grid has at least three rows of at least three symbols each.
pub open spec fn grid_covers_board(grid: Seq<Seq<char>>) -> bool {
    grid.len() >= 3 && forall|r: int| 0 <= r < 3 ==> (#[trigger] grid[r]).len() >= 3
}

/// The symbol that a grid gives for the cell at row-major position `i`.
pub open spec fn grid_symbol(grid: Seq<Seq<char>>, i: int) -> char {
    grid[i / 3][i % 3]
}

/// Each of the nine cells is given by a recognised symbol.
pub open spec fn grid_readable(grid: Seq<Seq<char>>) -> bool {
    forall|i: int| 0 <= i < 9 ==> mark_of_symbol(#[trigger] grid_symbol(grid, i)) is Some
}

/// The cells that a readable grid describes.
pub open spec fn grid_cells(grid: Seq<Seq<char>>) -> Seq<Mark> {
    Seq::new(9, |i: int| mark_of_symbol(grid_symbol(grid, i)).unwrap())
}

/// Reads a board from rows of symbols. Only the first three symbols of the
/// first three rows are looked at, and all nine must be present. A symbol
/// among them that stands for no cell state is refused with
/// `InvalidSymbol`; none is ever taken for an empty cell.
pub fn grid_char_to_grid_mark(grid: &Vec<Vec<char>>) -> (result: Result<Board, GameError>)
    requires
        grid_covers_board(grid.deep_view()),
    ensures
        grid_readable(grid.deep_view()) ==> result is Ok && result.unwrap()@ == grid_cells(
            grid.deep_view(),
        ),
        !grid_readable(grid.deep_view()) ==> result == Err::<Board, GameError>(
            GameError::InvalidSymbol,
        ),
{
    let ghost symbols = grid.deep_view();
    let mut board = create_board();
    let mut r: usize = 0;
    while r < SIDE
        invariant
            r <= 3,
            symbols == grid.deep_view(),
            grid_covers_board(symbols),
            forall|i: int|
                0 <= i < 3 * r ==> mark_of_symbol(#[trigger] grid_symbol(symbols, i)) == Some(
                    board@[i],
                ),
        decreases 3 - r,
    {
        let mut c: usize = 0;
        while c < SIDE
            invariant
                r < 3,
                c <= 3,
                symbols == grid.deep_view(),
                grid_covers_board(symbols),
                forall|i: int|
                    0 <= i < 3 * r + c ==> mark_of_symbol(#[trigger] grid_symbol(symbols, i))
                        == Some(board@[i]),
            decreases 3 - c,
        {
            assert(grid_symbol(symbols, 3 * r + c) == grid[r as int][c as int]);
            match get_mark_of_char(grid[r][c]) {
                Ok(mark) => {
                    set_cell(&mut board, Move { row: r, col: c }, mark);
                },
                Err(error) => {
                    return Err(error);
                },
            }
            c += 1;
        }
        r += 1;
    }
    assert(board@ =~= grid_cells(symbols));
    Ok(board)
}

} // verus!

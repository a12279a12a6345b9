//! Tic-tac-toe against the computer: who has won, what the computer plays,
//! and what a key does to a position.
use vstd::prelude::*;

verus! {

/// A tic-tac-toe position: `board[row][col]` holds 1 for the player, -1 for
/// the computer and 0 for a free cell; `cursor` is `[col, row]`.
#[derive(Clone, Copy, Debug)]
pub struct GameState {
    pub board: [[i8; 3]; 3],
    pub cursor: [i8; 2],
}

/// The mark of the player.
pub const PLAYER: i8 = 1;

/// The mark of the computer.
pub const COMPUTER: i8 = -1;

/// The place of the `k`-th cell of a line among the nine cells read row by
/// row. The lines are numbered in the order in which a win is looked for: the
/// three rows from the top, the three columns from the left, the diagonal
/// from the top left, the diagonal from the top right.
pub open spec fn line_cell(line: int, k: int) -> int {
    if line < 3 {
        3 * line + k
    } else if line < 6 {
        3 * k + (line - 3)
    } else if line == 6 {
        4 * k
    } else {
        2 * k + 2
    }
}

/// The sum of the three marks on a line.
pub open spec fn line_sum(cells: Seq<int>, line: int) -> int {
    cells[line_cell(line, 0)] + cells[line_cell(line, 1)] + cells[line_cell(line, 2)]
}

/// Who holds all three cells of a line: 1, -1, or 0 for nobody.
pub open spec fn line_owner(cells: Seq<int>, line: int) -> int {
    if line_sum(cells, line) == 3 {
        1
    } else if line_sum(cells, line) == -3 {
        -1
    } else {
        0
    }
}

/// The owner of the first line from `line` on that has one, or 0.
pub open spec fn winner_from(cells: Seq<int>, line: int) -> int
    decreases 8 - line,
{
    if line >= 8 {
        0
    } else if line_owner(cells, line) != 0 {
        line_owner(cells, line)
    } else {
        winner_from(cells, line + 1)
    }
}

/// Who has won: the owner of the first complete line, or 0.
pub open spec fn winner(cells: Seq<int>) -> int {
    winner_from(cells, 0)
}

/// Whether every cell holds one of the three marks.
pub open spec fn marks_ok(cells: Seq<int>) -> bool {
    &&& cells.len() == 9
    &&& forall|i: int| 0 <= i < 9 ==> -1 <= #[trigger] cells[i] <= 1
}

/// Whether no cell is free.
pub open spec fn full(cells: Seq<int>) -> bool {
    forall|i: int| 0 <= i < 9 ==> #[trigger] cells[i] != 0
}

impl GameState {
    /// The nine cells read row by row.
    pub open spec fn cells(&self) -> Seq<int> {
        Seq::new(9, |i: int| self.board[i / 3][i % 3] as int)
    }

    /// Whether the position is one of the game: every cell holds a mark or is
    /// free, and the cursor is on the board.
    pub open spec fn wf(&self) -> bool {
        &&& marks_ok(self.cells())
        &&& 0 <= self.cursor[0] < 3
        &&& 0 <= self.cursor[1] < 3
    }
}

/// Whether no move is left: no cell is free.
pub fn game_over(state: &GameState) -> (over: bool)
    ensures
        over == full(state.cells()),
{
    let mut row_idx: usize = 0;
    while row_idx < 3
        invariant
            row_idx <= 3,
            forall|i: int| 0 <= i < 3 * row_idx ==> #[trigger] state.cells()[i] != 0,
        decreases 3 - row_idx,
    {
        let mut cell_idx: usize = 0;
        while cell_idx < 3
            invariant
                row_idx < 3,
                cell_idx <= 3,
                forall|i: int| 0 <= i < 3 * row_idx + cell_idx ==> #[trigger] state.cells()[i] != 0,
            decreases 3 - cell_idx,
        {
            if state.board[row_idx][cell_idx] == 0 {
                assert(state.cells()[3 * row_idx + cell_idx] == 0);
                return false;
            }
            assert(state.cells()[3 * row_idx + cell_idx] != 0);
            cell_idx = cell_idx + 1;
        }
        row_idx = row_idx + 1;
    }
    true
}

/// Whether a move on the cell `proposed = [col, row]` is allowed: the cell is free.
pub fn valid_turn(state: &GameState, proposed: [i8; 2]) -> (r: bool)
    requires
        0 <= proposed[0] < 3,
        0 <= proposed[1] < 3,
    ensures
        r == (state.cells()[3 * proposed[1] + proposed[0]] == 0),
{
    let row: usize = proposed[1] as usize;
    let col: usize = proposed[0] as usize;
    state.board[row][col] == 0
}

/// Who has won: 1 for the player, -1 for the computer, 0 for nobody yet. Where
/// both hold a line, the first line counts, rows before columns before
/// diagonals.
pub fn check_win(state: &GameState) -> (won: i8)
    requires
        marks_ok(state.cells()),
    ensures
        won == winner(state.cells()),
{
    let ghost cells = state.cells();
    // check rows
    let mut row_idx: usize = 0;
    while row_idx < 3
        invariant
            row_idx <= 3,
            cells == state.cells(),
            marks_ok(cells),
            winner(cells) == winner_from(cells, row_idx as int),
        decreases 3 - row_idx,
    {
        let mut win_state: i8 = 0;
        let mut cell_idx: usize = 0;
        while cell_idx < 3
            invariant
                row_idx < 3,
                cell_idx <= 3,
                cells == state.cells(),
                marks_ok(cells),
                -(cell_idx as int) <= win_state <= cell_idx,
                win_state == (if cell_idx == 0 {
                    0
                } else if cell_idx == 1 {
                    cells[line_cell(row_idx as int, 0)]
                } else if cell_idx == 2 {
                    cells[line_cell(row_idx as int, 0)] + cells[line_cell(row_idx as int, 1)]
                } else {
                    line_sum(cells, row_idx as int)
                }),
            decreases 3 - cell_idx,
        {
            assert(cells[3 * row_idx + cell_idx] == state.board[row_idx as int][cell_idx as int]);
            win_state = win_state + state.board[row_idx][cell_idx];
            cell_idx = cell_idx + 1;
        }
        if win_state == 3 {
            return 1;
        }
        if win_state == -3 {
            return -1;
        }
        row_idx = row_idx + 1;
    }
    // check cols
    let mut cell_idx: usize = 0;
    while cell_idx < 3
        invariant
            cell_idx <= 3,
            cells == state.cells(),
            marks_ok(cells),
            winner(cells) == winner_from(cells, 3 + cell_idx as int),
        decreases 3 - cell_idx,
    {
        let mut win_state: i8 = 0;
        let mut row_idx: usize = 0;
        while row_idx < 3
            invariant
                cell_idx < 3,
                row_idx <= 3,
                cells == state.cells(),
                marks_ok(cells),
                -(row_idx as int) <= win_state <= row_idx,
                win_state == (if row_idx == 0 {
                    0
                } else if row_idx == 1 {
                    cells[line_cell(3 + cell_idx as int, 0)]
                } else if row_idx == 2 {
                    cells[line_cell(3 + cell_idx as int, 0)] + cells[line_cell(
                        3 + cell_idx as int,
                        1,
                    )]
                } else {
                    line_sum(cells, 3 + cell_idx as int)
                }),
            decreases 3 - row_idx,
        {
            assert(cells[3 * row_idx + cell_idx] == state.board[row_idx as int][cell_idx as int]);
            win_state = win_state + state.board[row_idx][cell_idx];
            row_idx = row_idx + 1;
        }
        if win_state == 3 {
            return 1;
        }
        if win_state == -3 {
            return -1;
        }
        cell_idx = cell_idx + 1;
    }
    // check diagonals
    let mut win_state: i8 = 0;
    let mut diag_idx: usize = 0;
    while diag_idx < 3
        invariant
            diag_idx <= 3,
            cells == state.cells(),
            marks_ok(cells),
            winner(cells) == winner_from(cells, 6),
            -(diag_idx as int) <= win_state <= diag_idx,
            win_state == (if diag_idx == 0 {
                0
            } else if diag_idx == 1 {
                cells[line_cell(6, 0)]
            } else if diag_idx == 2 {
                cells[line_cell(6, 0)] + cells[line_cell(6, 1)]
            } else {
                line_sum(cells, 6)
            }),
            diag_idx == 3 ==> line_owner(cells, 6) == 0,
        decreases 3 - diag_idx,
    {
        assert(cells[3 * diag_idx + diag_idx] == state.board[diag_idx as int][diag_idx as int]);
        win_state = win_state + state.board[diag_idx][diag_idx];
        if win_state == 3 {
            return 1;
        }
        if win_state == -3 {
            return -1;
        }
        diag_idx = diag_idx + 1;
    }
    let mut win_state: i8 = 0;
    let mut diag_idx: usize = 0;
    while diag_idx < 3
        invariant
            diag_idx <= 3,
            cells == state.cells(),
            marks_ok(cells),
            winner(cells) == winner_from(cells, 7),
            -(diag_idx as int) <= win_state <= diag_idx,
            win_state == (if diag_idx == 0 {
                0
            } else if diag_idx == 1 {
                cells[line_cell(7, 0)]
            } else if diag_idx == 2 {
                cells[line_cell(7, 0)] + cells[line_cell(7, 1)]
            } else {
                line_sum(cells, 7)
            }),
            diag_idx == 3 ==> line_owner(cells, 7) == 0,
        decreases 3 - diag_idx,
    {
        assert(cells[3 * diag_idx + (2 - diag_idx)] == state.board[diag_idx as int][2
            - diag_idx as int]);
        win_state = win_state + state.board[diag_idx][2 - diag_idx];
        if win_state == 3 {
            return 1;
        }
        if win_state == -3 {
            return -1;
        }
        diag_idx = diag_idx + 1;
    }
    assert(winner_from(cells, 7) == winner_from(cells, 8));
    0
}

/// Whether `mark` on the free cell `at` completes a line for `mark`.
pub open spec fn wins_at(cells: Seq<int>, at: int, mark: int) -> bool {
    cells[at] == 0 && winner(cells.update(at, mark)) == mark
}

/// The first cell from `from` on, read row by row, on which `mark` wins; 9
/// where there is none.
pub open spec fn first_win(cells: Seq<int>, mark: int, from: int) -> int
    decreases 9 - from,
{
    if from >= 9 {
        9
    } else if wins_at(cells, from, mark) {
        from
    } else {
        first_win(cells, mark, from + 1)
    }
}

/// The first free cell from `from` on, read row by row; 9 where there is none.
pub open spec fn first_free(cells: Seq<int>, from: int) -> int
    decreases 9 - from,
{
    if from >= 9 {
        9
    } else if cells[from] == 0 {
        from
    } else {
        first_free(cells, from + 1)
    }
}

/// The cell that the computer takes, 9 where the board is full. It takes the
/// first cell on which it wins; failing that the first on which the player
/// would win; failing that the centre; failing that the first free cell.
pub open spec fn ai_choice(cells: Seq<int>) -> int {
    if first_win(cells, -1, 0) < 9 {
        first_win(cells, -1, 0)
    } else if first_win(cells, 1, 0) < 9 {
        first_win(cells, 1, 0)
    } else if cells[4] == 0 {
        4
    } else {
        first_free(cells, 0)
    }
}

/// The position with `mark` in the cell of `row` and `col`.
fn with_mark(state: &GameState, row: usize, col: usize, mark: i8) -> (next: GameState)
    requires
        row < 3,
        col < 3,
    ensures
        next.cursor == state.cursor,
        next.cells() == state.cells().update(3 * row + col, mark as int),
{
    let mut next = *state;
    next.board[row][col] = mark;
    assert(next.cells() =~= state.cells().update(3 * row + col, mark as int));
    next
}

/// The first cell, read row by row, on which `mark` wins, as row and column.
fn winning_cell(state: &GameState, mark: i8) -> (found: Option<(usize, usize)>)
    requires
        marks_ok(state.cells()),
        mark == 1 || mark == -1,
    ensures
        match found {
            Some((row, col)) => row < 3 && col < 3 && 3 * row + col == first_win(
                state.cells(),
                mark as int,
                0,
            ),
            None => first_win(state.cells(), mark as int, 0) == 9,
        },
{
    let ghost cells = state.cells();
    let mut row_idx: usize = 0;
    while row_idx < 3
        invariant
            row_idx <= 3,
            cells == state.cells(),
            marks_ok(cells),
            mark == 1 || mark == -1,
            first_win(cells, mark as int, 0) == first_win(cells, mark as int, 3 * row_idx),
        decreases 3 - row_idx,
    {
        let mut cell_idx: usize = 0;
        while cell_idx < 3
            invariant
                row_idx < 3,
                cell_idx <= 3,
                cells == state.cells(),
                marks_ok(cells),
                mark == 1 || mark == -1,
                first_win(cells, mark as int, 0) == first_win(
                    cells,
                    mark as int,
                    3 * row_idx + cell_idx,
                ),
            decreases 3 - cell_idx,
        {
            if valid_turn(state, [cell_idx as i8, row_idx as i8]) {
                let proposed_state = with_mark(state, row_idx, cell_idx, mark);
                if check_win(&proposed_state) == mark {
                    return Some((row_idx, cell_idx));
                }
            }
            cell_idx = cell_idx + 1;
        }
        row_idx = row_idx + 1;
    }
    None
}

/// The computer's move: the position with its mark on the cell of
/// `ai_choice`, or the position as it is where the board is full.
pub fn ai_turn(state: &GameState) -> (next: GameState)
    requires
        marks_ok(state.cells()),
    ensures
        next.cursor == state.cursor,
        next.cells() == (if ai_choice(state.cells()) < 9 {
            state.cells().update(ai_choice(state.cells()), -1)
        } else {
            state.cells()
        }),
        marks_ok(next.cells()),
{
    // Check for AI win
    if let Some((row, col)) = winning_cell(state, COMPUTER) {
        return with_mark(state, row, col, COMPUTER);
    }
    // Check for player win
    if let Some((row, col)) = winning_cell(state, PLAYER) {
        return with_mark(state, row, col, COMPUTER);
    }
    // Check central
    if valid_turn(state, [1, 1]) {
        return with_mark(state, 1, 1, COMPUTER);
    }
    // Just go first free
    let ghost cells = state.cells();
    assert(ai_choice(cells) == first_free(cells, 0));
    let mut row_idx: usize = 0;
    while row_idx < 3
        invariant
            row_idx <= 3,
            cells == state.cells(),
            marks_ok(cells),
            ai_choice(cells) == first_free(cells, 0),
            first_free(cells, 0) == first_free(cells, 3 * row_idx),
        decreases 3 - row_idx,
    {
        let mut cell_idx: usize = 0;
        while cell_idx < 3
            invariant
                row_idx < 3,
                cell_idx <= 3,
                cells == state.cells(),
                marks_ok(cells),
                ai_choice(cells) == first_free(cells, 0),
                first_free(cells, 0) == first_free(cells, 3 * row_idx + cell_idx),
            decreases 3 - cell_idx,
        {
            if valid_turn(state, [cell_idx as i8, row_idx as i8]) {
                return with_mark(state, row_idx, cell_idx, COMPUTER);
            }
            cell_idx = cell_idx + 1;
        }
        row_idx = row_idx + 1;
    }
    *state
}

/// The winner is one of the two marks, or nobody.
pub proof fn lemma_winner_is_mark(cells: Seq<int>)
    ensures
        winner(cells) == 1 || winner(cells) == -1 || winner(cells) == 0,
{
    lemma_winner_from_is_mark(cells, 0);
}

proof fn lemma_winner_from_is_mark(cells: Seq<int>, line: int)
    ensures
        winner_from(cells, line) == 1 || winner_from(cells, line) == -1 || winner_from(cells, line)
            == 0,
    decreases 8 - line,
{
    if line < 8 {
        lemma_winner_from_is_mark(cells, line + 1);
    }
}

/// `first_win` returns the least winning cell from `from` on, or 9.
pub proof fn lemma_first_win_is_least(cells: Seq<int>, mark: int, from: int)
    requires
        0 <= from <= 9,
    ensures
        from <= first_win(cells, mark, from) <= 9,
        first_win(cells, mark, from) < 9 ==> wins_at(cells, first_win(cells, mark, from), mark),
        forall|at: int|
            from <= at < first_win(cells, mark, from) ==> !#[trigger] wins_at(cells, at, mark),
    decreases 9 - from,
{
    if from < 9 && !wins_at(cells, from, mark) {
        lemma_first_win_is_least(cells, mark, from + 1);
    }
}

/// `first_free` returns the least free cell from `from` on, or 9.
pub proof fn lemma_first_free_is_least(cells: Seq<int>, from: int)
    requires
        0 <= from <= 9,
    ensures
        from <= first_free(cells, from) <= 9,
        first_free(cells, from) < 9 ==> cells[first_free(cells, from)] == 0,
        forall|at: int| from <= at < first_free(cells, from) ==> #[trigger] cells[at] != 0,
    decreases 9 - from,
{
    if from < 9 && cells[from] != 0 {
        lemma_first_free_is_least(cells, from + 1);
    }
}

/// The computer moves whenever a cell is free, and only onto a free cell.
pub proof fn lemma_ai_moves_onto_free_cell(cells: Seq<int>)
    requires
        cells.len() == 9,
    ensures
        0 <= ai_choice(cells) <= 9,
        ai_choice(cells) == 9 <==> full(cells),
        ai_choice(cells) < 9 ==> cells[ai_choice(cells)] == 0,
{
    lemma_first_win_is_least(cells, -1, 0);
    lemma_first_win_is_least(cells, 1, 0);
    lemma_first_free_is_least(cells, 0);
    if full(cells) {
        if first_win(cells, -1, 0) < 9 {
            assert(cells[first_win(cells, -1, 0)] != 0);
        }
        if first_win(cells, 1, 0) < 9 {
            assert(cells[first_win(cells, 1, 0)] != 0);
        }
        assert(cells[4] != 0);
        if first_free(cells, 0) < 9 {
            assert(cells[first_free(cells, 0)] != 0);
        }
    }
}

/// Where the computer can win with one move, it does.
pub proof fn lemma_ai_takes_win(cells: Seq<int>, at: int)
    requires
        0 <= at < 9,
        wins_at(cells, at, -1),
    ensures
        ai_choice(cells) < 9,
        winner(cells.update(ai_choice(cells), -1)) == -1,
{
    lemma_first_win_is_least(cells, -1, 0);
}

/// Where the computer cannot win with one move and the player could, the
/// computer takes a cell on which the player would have won.
pub proof fn lemma_ai_blocks(cells: Seq<int>, at: int)
    requires
        forall|c: int| 0 <= c < 9 ==> !#[trigger] wins_at(cells, c, -1),
        0 <= at < 9,
        wins_at(cells, at, 1),
    ensures
        ai_choice(cells) < 9,
        wins_at(cells, ai_choice(cells), 1),
{
    lemma_first_win_is_least(cells, -1, 0);
    lemma_first_win_is_least(cells, 1, 0);
}

/// What the player can ask for with one key.
#[derive(Clone, Copy, Debug, PartialEq, Eq)]
pub enum Key {
    Quit,
    Left,
    Right,
    Up,
    Down,
    Place,
    Other,
}

/// How the game stands.
#[derive(Clone, Copy, Debug, PartialEq, Eq)]
pub enum Outcome {
    Running,
    PlayerWins,
    ComputerWins,
    Draw,
}

/// `v` moved by `by`, kept on the board.
pub open spec fn clamped(v: int, by: int) -> int {
    if v + by < 0 {
        0
    } else if v + by > 2 {
        2
    } else {
        v + by
    }
}

/// The position after the player's key, and whether the computer is to reply.
/// An arrow moves the cursor by one cell and stops at the edge. `Place` puts
/// the player's mark under the cursor where that cell is free; the computer
/// replies where this neither wins nor fills the board. Every other key
/// leaves the position as it is.
pub fn apply_key(state: &GameState, key: Key) -> (step: (GameState, bool))
    requires
        state.wf(),
    ensures
        step.0.wf(),
        match key {
            Key::Left => step.0.cells() == state.cells() && step.0.cursor[0] == clamped(
                state.cursor[0] as int,
                -1,
            ) && step.0.cursor[1] == state.cursor[1] && !step.1,
            Key::Right => step.0.cells() == state.cells() && step.0.cursor[0] == clamped(
                state.cursor[0] as int,
                1,
            ) && step.0.cursor[1] == state.cursor[1] && !step.1,
            Key::Up => step.0.cells() == state.cells() && step.0.cursor[1] == clamped(
                state.cursor[1] as int,
                -1,
            ) && step.0.cursor[0] == state.cursor[0] && !step.1,
            Key::Down => step.0.cells() == state.cells() && step.0.cursor[1] == clamped(
                state.cursor[1] as int,
                1,
            ) && step.0.cursor[0] == state.cursor[0] && !step.1,
            Key::Place => {
                let at = 3 * state.cursor[1] + state.cursor[0];
                &&& step.0.cursor == state.cursor
                &&& step.0.cells() == (if state.cells()[at] == 0 {
                    state.cells().update(at, 1)
                } else {
                    state.cells()
                })
                &&& step.1 == (state.cells()[at] == 0 && winner(step.0.cells()) == 0 && !full(
                    step.0.cells(),
                ))
            },
            Key::Quit | Key::Other => step.0 == *state && !step.1,
        },
{
    let mut next = *state;
    match key {
        Key::Left => {
            let moved: i8 = if state.cursor[0] - 1 > 0 {
                state.cursor[0] - 1
            } else {
                0
            };
            next.cursor = [moved, state.cursor[1]];
        },
        Key::Right => {
            let moved: i8 = if state.cursor[0] + 1 < 2 {
                state.cursor[0] + 1
            } else {
                2
            };
            next.cursor = [moved, state.cursor[1]];
        },
        Key::Up => {
            let moved: i8 = if state.cursor[1] - 1 > 0 {
                state.cursor[1] - 1
            } else {
                0
            };
            next.cursor = [state.cursor[0], moved];
        },
        Key::Down => {
            let moved: i8 = if state.cursor[1] + 1 < 2 {
                state.cursor[1] + 1
            } else {
                2
            };
            next.cursor = [state.cursor[0], moved];
        },
        Key::Place => {
            if valid_turn(state, state.cursor) {
                next = with_mark(state, state.cursor[1] as usize, state.cursor[0] as usize, PLAYER);
                let reply = check_win(&next) == 0 && !game_over(&next);
                return (next, reply);
            }
        },
        Key::Quit | Key::Other => {},
    }
    assert(next.cells() =~= state.cells());
    (next, false)
}

/// How the game stands in `state`: won by the one who holds the first
/// complete line, drawn where the board is full and nobody has won, running
/// otherwise.
pub fn outcome(state: &GameState) -> (o: Outcome)
    requires
        marks_ok(state.cells()),
    ensures
        o == (if winner(state.cells()) == 1 {
            Outcome::PlayerWins
        } else if winner(state.cells()) != 0 {
            Outcome::ComputerWins
        } else if full(state.cells()) {
            Outcome::Draw
        } else {
            Outcome::Running
        }),
{
    let win_state = check_win(state);
    if win_state != 0 {
        if win_state == 1 {
            Outcome::PlayerWins
        } else {
            Outcome::ComputerWins
        }
    } else if game_over(state) {
        Outcome::Draw
    } else {
        Outcome::Running
    }
}

} // verus!

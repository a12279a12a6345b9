//! The board of the game as bytes for a terminal.
use vstd::prelude::*;
use crate::ascii::{
    BAR, BRACKET, CR, DASH, DIGIT_0, DIGIT_2, DIGIT_3, DIGIT_8, ESC, GREATER, LESS, LF,
    LOWER_M, SEMICOLON, SPACE, UPPER_H, UPPER_K, UPPER_O, UPPER_X,
};
use crate::game::GameState;

verus! {

/// The digits of `n` in base ten, as bytes.
pub open spec fn decimal(n: nat) -> Seq<u8>
    decreases n,
{
    if n < 10 {
        seq![(DIGIT_0 + n) as u8]
    } else {
        decimal(n / 10) + seq![(DIGIT_0 + n % 10) as u8]
    }
}

/// The two bytes that introduce a control sequence: escape and `[`.
pub open spec fn csi() -> Seq<u8> {
    seq![ESC, BRACKET]
}

/// The control sequence that sets the foreground colour.
pub open spec fn fg_rgb_code(r: u8, g: u8, b: u8) -> Seq<u8> {
    csi()
        + seq![DIGIT_3, DIGIT_8, SEMICOLON, DIGIT_2, SEMICOLON]
        + decimal(r as nat)
        + seq![SEMICOLON]
        + decimal(g as nat)
        + seq![SEMICOLON] + decimal(b as nat) + seq![LOWER_M]
}

/// The control sequence that moves the cursor to column `x` of line `y`,
/// both counted from 1.
pub open spec fn goto_code(x: u16, y: u16) -> Seq<u8> {
    csi() + decimal(y as nat) + seq![SEMICOLON] + decimal(x as nat) + seq![UPPER_H]
}

/// The control sequence that clears the current line.
pub open spec fn clear_line_code() -> Seq<u8> {
    csi() + seq![DIGIT_2, UPPER_K]
}

/// What `termion` writes for `color::Fg(color::Rgb(r, g, b))`: the escape
/// sequence `38;2;r;g;b` with the three numbers in decimal, ended by `m`.
#[verifier::external_body]
fn fg_rgb(r: u8, g: u8, b: u8) -> (code: Vec<u8>)
    ensures
        code@ == fg_rgb_code(r, g, b),
{
    format!("{}", termion::color::Fg(termion::color::Rgb(r, g, b))).into_bytes()
}

/// What `termion` writes for `cursor::Goto(x, y)`: the escape sequence with
/// the line, a semicolon and the column in decimal, ended by `H`. `termion`
/// refuses the position (0, 0) in builds that check debug assertions.
#[verifier::external_body]
fn goto(x: u16, y: u16) -> (code: Vec<u8>)
    requires
        x != 0 || y != 0,
    ensures
        code@ == goto_code(x, y),
{
    format!("{}", termion::cursor::Goto(x, y)).into_bytes()
}

/// What `termion` writes for `clear::CurrentLine`: the escape sequence `2K`.
#[verifier::external_body]
fn clear_current_line() -> (code: Vec<u8>)
    ensures
        code@ == clear_line_code(),
{
    format!("{}", termion::clear::CurrentLine).into_bytes()
}

fn push_all(out: &mut Vec<u8>, bytes: &Vec<u8>)
    ensures
        final(out)@ == old(out)@ + bytes@,
{
    let mut i: usize = 0;
    while i < bytes.len()
        invariant
            i <= bytes.len(),
            out@ == old(out)@ + bytes@.take(i as int),
        decreases bytes.len() - i,
    {
        out.push(bytes[i]);
        i = i + 1;
    }
    assert(bytes@.take(i as int) == bytes@);
}

/// The colour of the frame and of the cursor marks.
pub open spec fn ui_code() -> Seq<u8> {
    fg_rgb_code(255, 255, 255)
}

/// The colour of the player's mark.
pub open spec fn player_code() -> Seq<u8> {
    fg_rgb_code(91, 206, 250)
}

/// The colour of the computer's mark.
pub open spec fn computer_code() -> Seq<u8> {
    fg_rgb_code(245, 169, 184)
}

/// `acc` followed by one cell: three bytes wide on the screen, with `>` and
/// `<` around it where the cursor is on it, an `X` for the player and an `O`
/// for the computer. A cell that holds no mark of the game shows nothing.
pub open spec fn cell_onto(acc: Seq<u8>, mark: int, selected: bool) -> Seq<u8> {
    let left = if selected {
        GREATER
    } else {
        SPACE
    };
    let right = if selected {
        LESS
    } else {
        SPACE
    };
    if mark == 0 {
        acc.push(left).push(SPACE).push(right)
    } else if mark == 1 {
        (((acc + ui_code()).push(left) + player_code()).push(UPPER_X) + ui_code()).push(right)
    } else if mark == -1 {
        (((acc + ui_code()).push(left) + computer_code()).push(UPPER_O) + ui_code()).push(right)
    } else {
        acc
    }
}

/// `acc` followed by the cell in column `col` of row `row`, and by the bar
/// after it where another cell follows.
pub open spec fn cell_and_bar_onto(
    acc: Seq<u8>,
    cells: Seq<int>,
    cursor_col: int,
    cursor_row: int,
    row: int,
    col: int,
) -> Seq<u8> {
    let with = cell_onto(acc, cells[3 * row + col], col == cursor_col && row == cursor_row);
    if col < 2 {
        (with + ui_code()).push(BAR)
    } else {
        with
    }
}

/// `acc` followed by `n` dashes.
pub open spec fn rule_onto(acc: Seq<u8>, n: nat) -> Seq<u8>
    decreases n,
{
    if n == 0 {
        acc
    } else {
        rule_onto(acc, (n - 1) as nat).push(DASH)
    }
}

/// `acc` followed by one row of the board, with a rule of eleven dashes
/// below it where another row follows.
pub open spec fn row_onto(
    acc: Seq<u8>,
    cells: Seq<int>,
    cursor_col: int,
    cursor_row: int,
    row: int,
) -> Seq<u8> {
    let first = cell_and_bar_onto(acc.push(CR), cells, cursor_col, cursor_row, row, 0);
    let second = cell_and_bar_onto(first, cells, cursor_col, cursor_row, row, 1);
    let third = cell_and_bar_onto(second, cells, cursor_col, cursor_row, row, 2);
    let ruled = if row < 2 {
        rule_onto(third.push(LF).push(CR) + ui_code(), 11)
    } else {
        third
    };
    ruled.push(LF).push(CR)
}

/// The whole picture of a position: the current line cleared, the cursor
/// sent to the top left, then the three rows.
pub open spec fn field_text(cells: Seq<int>, cursor_col: int, cursor_row: int) -> Seq<u8> {
    let top = clear_line_code().push(LF) + goto_code(1, 1);
    let first = row_onto(top, cells, cursor_col, cursor_row, 0);
    let second = row_onto(first, cells, cursor_col, cursor_row, 1);
    row_onto(second, cells, cursor_col, cursor_row, 2)
}

fn push_cell(
    out: &mut Vec<u8>,
    mark: i8,
    selected: bool,
    color_ui: &Vec<u8>,
    color_player1: &Vec<u8>,
    color_player2: &Vec<u8>,
)
    requires
        color_ui@ == ui_code(),
        color_player1@ == player_code(),
        color_player2@ == computer_code(),
    ensures
        final(out)@ == cell_onto(old(out)@, mark as int, selected),
{
    let sel_left: u8 = if selected {
        GREATER
    } else {
        SPACE
    };
    let sel_right: u8 = if selected {
        LESS
    } else {
        SPACE
    };
    if mark == 0 {
        out.push(sel_left);
        out.push(SPACE);
        out.push(sel_right);
    } else if mark == 1 {
        push_all(out, color_ui);
        out.push(sel_left);
        push_all(out, color_player1);
        out.push(UPPER_X);
        push_all(out, color_ui);
        out.push(sel_right);
    } else if mark == -1 {
        push_all(out, color_ui);
        out.push(sel_left);
        push_all(out, color_player2);
        out.push(UPPER_O);
        push_all(out, color_ui);
        out.push(sel_right);
    }
}

fn push_row(
    out: &mut Vec<u8>,
    state: &GameState,
    row_idx: usize,
    color_ui: &Vec<u8>,
    color_player1: &Vec<u8>,
    color_player2: &Vec<u8>,
)
    requires
        row_idx < 3,
        color_ui@ == ui_code(),
        color_player1@ == player_code(),
        color_player2@ == computer_code(),
    ensures
        final(out)@ == row_onto(
            old(out)@,
            state.cells(),
            state.cursor[0] as int,
            state.cursor[1] as int,
            row_idx as int,
        ),
{
    let ghost cells = state.cells();
    let ghost cc = state.cursor[0] as int;
    let ghost cr = state.cursor[1] as int;
    out.push(CR);
    let ghost start = out@;
    let mut cell_idx: usize = 0;
    while cell_idx < 3
        invariant
            cell_idx <= 3,
            row_idx < 3,
            cells == state.cells(),
            cc == state.cursor[0] as int,
            cr == state.cursor[1] as int,
            color_ui@ == ui_code(),
            color_player1@ == player_code(),
            color_player2@ == computer_code(),
            cell_idx == 0 ==> out@ == start,
            cell_idx == 1 ==> out@ == cell_and_bar_onto(start, cells, cc, cr, row_idx as int, 0),
            cell_idx == 2 ==> out@ == cell_and_bar_onto(
                cell_and_bar_onto(start, cells, cc, cr, row_idx as int, 0),
                cells,
                cc,
                cr,
                row_idx as int,
                1,
            ),
            cell_idx == 3 ==> out@ == cell_and_bar_onto(
                cell_and_bar_onto(
                    cell_and_bar_onto(start, cells, cc, cr, row_idx as int, 0),
                    cells,
                    cc,
                    cr,
                    row_idx as int,
                    1,
                ),
                cells,
                cc,
                cr,
                row_idx as int,
                2,
            ),
        decreases 3 - cell_idx,
    {
        let selected = cell_idx as i8 == state.cursor[0] && row_idx as i8 == state.cursor[1];
        let cell = state.board[row_idx][cell_idx];
        assert(cells[3 * row_idx + cell_idx] == cell as int);
        push_cell(out, cell, selected, color_ui, color_player1, color_player2);
        if cell_idx < 2 {
            push_all(out, color_ui);
            out.push(BAR);
        }
        cell_idx = cell_idx + 1;
    }
    if row_idx < 2 {
        out.push(LF);
        out.push(CR);
        push_all(out, color_ui);
        let ghost base = out@;
        let mut i: usize = 0;
        while i < 11
            invariant
                i <= 11,
                out@ == rule_onto(base, i as nat),
            decreases 11 - i,
        {
            out.push(DASH);
            i = i + 1;
        }
    }
    out.push(LF);
    out.push(CR);
}

/// Draws a position for the terminal: the bytes to write, with the colour
/// and cursor sequences that `termion` gives.
pub fn render_field(state: &GameState) -> (text: Vec<u8>)
    ensures
        text@ == field_text(state.cells(), state.cursor[0] as int, state.cursor[1] as int),
{
    let color_ui = fg_rgb(255, 255, 255);
    let color_player1 = fg_rgb(91, 206, 250);
    let color_player2 = fg_rgb(245, 169, 184);
    let mut out: Vec<u8> = clear_current_line();
    out.push(LF);
    let home = goto(1, 1);
    push_all(&mut out, &home);
    let mut row_idx: usize = 0;
    while row_idx < 3
        invariant
            row_idx <= 3,
            color_ui@ == ui_code(),
            color_player1@ == player_code(),
            color_player2@ == computer_code(),
            row_idx == 0 ==> out@ == clear_line_code().push(LF) + goto_code(1, 1),
            row_idx == 1 ==> out@ == row_onto(
                clear_line_code().push(LF) + goto_code(1, 1),
                state.cells(),
                state.cursor[0] as int,
                state.cursor[1] as int,
                0,
            ),
            row_idx == 2 ==> out@ == row_onto(
                row_onto(
                    clear_line_code().push(LF) + goto_code(1, 1),
                    state.cells(),
                    state.cursor[0] as int,
                    state.cursor[1] as int,
                    0,
                ),
                state.cells(),
                state.cursor[0] as int,
                state.cursor[1] as int,
                1,
            ),
            row_idx == 3 ==> out@ == field_text(
                state.cells(),
                state.cursor[0] as int,
                state.cursor[1] as int,
            ),
        decreases 3 - row_idx,
    {
        push_row(&mut out, state, row_idx, &color_ui, &color_player1, &color_player2);
        row_idx = row_idx + 1;
    }
    out
}

} // verus!

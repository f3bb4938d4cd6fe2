//! The board laid out for display: a line of slot numbers above the six
//! rows of the board, each entry with its text and its alignment.

use vstd::prelude::*;
use crate::board::Board;
use crate::cell::Cell;
use crate::grid::at;

verus! {

/// Where the text of an entry stands within its column.
#[derive(Clone, Copy, PartialEq, Eq, Structural, Debug)]
pub enum Alignment {
    Left,
    Center,
    Right,
}

/// One entry of the table.
#[derive(Clone, Copy, PartialEq, Eq, Structural, Debug)]
pub struct TableEntry {
    pub text: char,
    pub alignment: Alignment,
}

/// The character that shows a cell: `X`, `O`, or a blank for an empty cell.
pub open spec fn symbol_of(cell: Cell) -> char {
    match cell {
        Cell::Empty => ' ',
        Cell::PlayerX => 'X',
        Cell::PlayerO => 'O',
    }
}

/// The number of the slot above column `col`, as a digit: columns count from
/// 0, slots from 1.
pub open spec fn slot_label(col: int) -> char {
    if col == 0 {
        '1'
    } else if col == 1 {
        '2'
    } else if col == 2 {
        '3'
    } else if col == 3 {
        '4'
    } else if col == 4 {
        '5'
    } else if col == 5 {
        '6'
    } else {
        '7'
    }
}

/// How the cells of column `col` are aligned: the three columns on the left
/// to the left, the middle column in the centre, the three on the right to
/// the right.
pub open spec fn column_alignment(col: int) -> Alignment {
    if col < 3 {
        Alignment::Left
    } else if col == 3 {
        Alignment::Center
    } else {
        Alignment::Right
    }
}

/// The entry in `line` and `col` of the table. Line 0 holds the slot
/// numbers, centred; line `n` from 1 to 6 holds row `n - 1` of the board.
pub open spec fn table_entry(cells: Seq<Cell>, line: int, col: int) -> TableEntry {
    if line == 0 {
        TableEntry { text: slot_label(col), alignment: Alignment::Center }
    } else {
        TableEntry { text: symbol_of(at(cells, line - 1, col)), alignment: column_alignment(col) }
    }
}

/// The table of a board: seven lines of seven entries.
pub open spec fn table_of(cells: Seq<Cell>) -> Seq<Seq<TableEntry>> {
    Seq::new(7, |line: int| Seq::new(7, |col: int| table_entry(cells, line, col)))
}

/// The lines of a table as sequences of entries.
pub open spec fn lines_of(lines: Seq<Vec<TableEntry>>) -> Seq<Seq<TableEntry>> {
    lines.map_values(|line: Vec<TableEntry>| line@)
}

impl Cell {
    /// The character that shows this cell.
    pub fn symbol(self) -> (text: char)
        ensures
            text == symbol_of(self),
    {
        match self {
            Cell::Empty => ' ',
            Cell::PlayerX => 'X',
            Cell::PlayerO => 'O',
        }
    }
}

/// The digit that numbers the slot above column `col`.
fn label(col: usize) -> (text: char)
    requires
        col < 7,
    ensures
        text == slot_label(col as int),
{
    if col == 0 {
        '1'
    } else if col == 1 {
        '2'
    } else if col == 2 {
        '3'
    } else if col == 3 {
        '4'
    } else if col == 4 {
        '5'
    } else if col == 5 {
        '6'
    } else {
        '7'
    }
}

/// How the cells of column `col` are aligned.
fn alignment(col: usize) -> (alignment: Alignment)
    ensures
        alignment == column_alignment(col as int),
{
    if col < 3 {
        Alignment::Left
    } else if col == 3 {
        Alignment::Center
    } else {
        Alignment::Right
    }
}

impl Board {
    /// One line of the table: the slot numbers for line 0, a row of the
    /// board for the lines 1 to 6.
    fn table_line(&self, line: usize) -> (entries: Vec<TableEntry>)
        requires
            line < 7,
        ensures
            entries.len() == 7,
            forall|col: int|
                0 <= col < 7 ==> #[trigger] entries[col] == table_entry(self@, line as int, col),
    {
        let mut entries: Vec<TableEntry> = Vec::new();
        let mut col: usize = 0;
        while col < 7
            invariant
                line < 7,
                col <= 7,
                entries.len() == col,
                forall|c: int|
                    0 <= c < col ==> #[trigger] entries[c] == table_entry(self@, line as int, c),
            decreases 7 - col,
        {
            let entry = if line == 0 {
                TableEntry { text: label(col), alignment: Alignment::Center }
            } else {
                TableEntry { text: self.cell(line - 1, col).symbol(), alignment: alignment(col) }
            };
            entries.push(entry);
            col += 1;
        }
        entries
    }

    /// The board as a table of seven lines with seven entries each: the slot
    /// numbers 1 to 7, centred, and below them the rows of the board from
    /// the top, every cell shown by its symbol and aligned as its column is.
    pub fn table(&self) -> (lines: Vec<Vec<TableEntry>>)
        ensures
            lines_of(lines@) == table_of(self@),
            lines.len() == 7,
            forall|line: int| 0 <= line < 7 ==> (#[trigger] lines[line]).len() == 7,
            forall|line: int, col: int|
                0 <= line < 7 && 0 <= col < 7 ==> #[trigger] lines[line][col] == table_entry(
                    self@,
                    line,
                    col,
                ),
    {
        let mut lines: Vec<Vec<TableEntry>> = Vec::new();
        let mut line: usize = 0;
        while line < 7
            invariant
                line <= 7,
                lines.len() == line,
                forall|l: int| 0 <= l < line ==> (#[trigger] lines[l]).len() == 7,
                forall|l: int, col: int|
                    0 <= l < line && 0 <= col < 7 ==> #[trigger] lines[l][col] == table_entry(
                        self@,
                        l,
                        col,
                    ),
            decreases 7 - line,
        {
            let entries = self.table_line(line);
            lines.push(entries);
            line += 1;
        }
        proof {
            assert forall|l: int| 0 <= l < 7 implies #[trigger] lines_of(lines@)[l] == table_of(
                self@,
            )[l] by {
                assert(lines[l]@ =~= table_of(self@)[l]);
            }
            assert(lines_of(lines@) =~= table_of(self@));
        }
        lines
    }
}

} // verus!

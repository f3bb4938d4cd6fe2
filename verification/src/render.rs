//! Text for the terminal: the board drawn as a table, and messages written
//! in large letters.

use vstd::prelude::*;
use figlet_rs::FIGfont;
use term_table::row::Row;
use term_table::table_cell::TableCell;
use term_table::{TableBuilder, TableStyle};
use crate::board::Board;
use crate::cell::Side;
use crate::table::{Alignment, TableEntry, lines_of, table_entry, table_of};
use crate::terminal::Outcome;

verus! {

/// The text that term_table draws for a table of these lines, in its
/// extended style and with every entry one column wide.
pub uninterp spec fn drawn_table(lines: Seq<Seq<TableEntry>>) -> Seq<char>;

/// What figlet makes of a message in its standard font: the message in
/// large letters, or nothing.
pub uninterp spec fn large_letters(message: Seq<char>) -> Option<Seq<char>>;

/// The text of every entry is a blank, a digit or a letter of a side.
pub open spec fn plain_entries(lines: Seq<Seq<TableEntry>>) -> bool {
    forall|line: int, col: int|
        0 <= line < lines.len() && 0 <= col < lines[line].len() ==> {
            let text = (#[trigger] lines[line][col]).text;
            text == ' ' || text == 'X' || text == 'O' || ('1' <= text && text <= '7')
        }
}

/// Draws a table of seven lines and seven columns.
///
/// Builds the table with term_table's `TableBuilder`, one `Row` for each
/// line and one `TableCell` of span 1 for each entry, and calls `render` on
/// it. What comes back is taken on trust to depend on the entries alone.
#[verifier::external_body]
pub(crate) fn draw_table(lines: &Vec<Vec<TableEntry>>) -> (text: String)
    requires
        lines.len() == 7,
        forall|line: int| 0 <= line < 7 ==> (#[trigger] lines[line]).len() == 7,
        plain_entries(lines_of(lines@)),
    ensures
        text@ == drawn_table(lines_of(lines@)),
{
    let cell = |entry: &TableEntry| {
        TableCell::builder(entry.text).alignment(match entry.alignment {
                Alignment::Left => term_table::table_cell::Alignment::Left,
                Alignment::Center => term_table::table_cell::Alignment::Center,
                Alignment::Right => term_table::table_cell::Alignment::Right,
            }).build()
    };
    let rows = lines.iter().map(|line| Row::new(line.iter().map(cell))).collect();
    TableBuilder::new().style(TableStyle::extended()).rows(rows).build().render()
}

/// Writes a message in large letters.
///
/// Loads figlet's standard font with `FIGfont::standard`, calls `convert`
/// on the message and formats the figure. What comes back is taken on trust
/// to depend on the message alone.
#[verifier::external_body]
pub(crate) fn write_large(message: &str) -> (art: Option<String>)
    ensures
        art is Some <==> large_letters(message@) is Some,
        art is Some ==> art.unwrap()@ == large_letters(message@).unwrap(),
{
    FIGfont::standard().ok()?.convert(message).map(|figure| figure.to_string())
}

/// The message that announces how a game ended; none while it is on.
pub open spec fn announcement_of(outcome: Outcome) -> Option<Seq<char>> {
    match outcome {
        Outcome::InProgress => None,
        Outcome::Draw => Some("It's a Draw!"@),
        Outcome::Win(Side::X) => Some("X Wins"@),
        Outcome::Win(Side::O) => Some("You Suck"@),
    }
}

/// The message that announces how a game ended; none while it is on.
pub fn announcement(outcome: Outcome) -> (message: Option<&'static str>)
    ensures
        message is Some <==> announcement_of(outcome) is Some,
        message is Some ==> message.unwrap()@ == announcement_of(outcome).unwrap(),
{
    match outcome {
        Outcome::InProgress => None,
        Outcome::Draw => Some("It's a Draw!"),
        Outcome::Win(Side::X) => Some("X Wins"),
        Outcome::Win(Side::O) => Some("You Suck"),
    }
}

/// The name of the game in large letters.
pub fn title() -> (art: Option<String>)
    ensures
        art is Some <==> large_letters("Connect  Four"@) is Some,
        art is Some ==> art.unwrap()@ == large_letters("Connect  Four"@).unwrap(),
{
    write_large("Connect  Four")
}

/// The announcement of how a game ended, in large letters; nothing while
/// the game is on.
pub fn banner(outcome: Outcome) -> (art: Option<String>)
    ensures
        match announcement_of(outcome) {
            Some(message) => {
                &&& art is Some <==> large_letters(message) is Some
                &&& art is Some ==> art.unwrap()@ == large_letters(message).unwrap()
            },
            None => art is None,
        },
{
    match announcement(outcome) {
        Some(message) => write_large(message),
        None => None,
    }
}

impl Board {
    /// The board drawn as a table: the slot numbers above the six rows.
    pub fn draw(&self) -> (text: String)
        ensures
            text@ == drawn_table(table_of(self@)),
    {
        let lines = self.table();
        proof {
            assert forall|line: int, col: int|
                0 <= line < 7 && 0 <= col < 7 implies #[trigger] table_of(self@)[line][col]
                == table_entry(self@, line, col) by {}
        }
        draw_table(&lines)
    }
}

} // verus!

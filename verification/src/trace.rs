//! The table as text, for looking at it while it is being filled.

use vstd::prelude::*;
use crate::edit::{Action, Edit};
use crate::number::{decimal, pad_number, right_aligned};
use crate::table::Cell;

verus! {

/// The letter that stands for an operation in a dump of the table.
pub open spec fn letter(op: Edit) -> char {
    match op {
        Edit::Add(_, _) => 'A',
        Edit::Remove(_, _) => 'R',
        Edit::Substitute(_, _, _) => 'S',
        Edit::Ignore(_, _) => 'I',
    }
}

/// The text of one cell, eight characters wide: the cost set to the right in
/// three characters and the operation's letter in brackets, or a dash for a
/// cell that is still empty, and a blank after either.
pub open spec fn dumped_cell(cell: Cell) -> Seq<char> {
    match cell {
        Some(filled) => right_aligned(decimal(filled.0 as nat), 3) + seq![
            ' ',
            '(',
            letter(filled.1@),
            ')',
            ' ',
        ],
        None => right_aligned(seq!['-'], 7) + seq![' '],
    }
}

/// The text of the first `count` cells of a row.
pub open spec fn dumped_cells(row: Seq<Cell>, count: nat) -> Seq<char>
    decreases count,
{
    if count == 0 {
        Seq::empty()
    } else {
        dumped_cells(row, (count - 1) as nat) + dumped_cell(row[count - 1])
    }
}

/// The text of a row: its cells and the end of the line.
pub open spec fn dumped_row(row: Seq<Cell>) -> Seq<char> {
    dumped_cells(row, row.len()) + seq!['\n']
}

/// The text of the first `count` rows of a table.
pub open spec fn dumped_rows(table: Seq<Vec<Cell>>, count: nat) -> Seq<char>
    decreases count,
{
    if count == 0 {
        Seq::empty()
    } else {
        dumped_rows(table, (count - 1) as nat) + dumped_row(table[count - 1]@)
    }
}

/// The text of a table: its rows, and an empty line after them.
pub open spec fn dumped(table: Seq<Vec<Cell>>) -> Seq<char> {
    dumped_rows(table, table.len()) + seq!['\n']
}

/// The letter of `action` as a text.
fn letter_text(action: &Action) -> (text: &'static str)
    ensures
        text@ == seq![letter(action@)],
{
    proof {
        reveal_strlit("A");
        reveal_strlit("R");
        reveal_strlit("S");
        reveal_strlit("I");
    }
    let text = match action {
        Action::Add(_, _) => "A",
        Action::Remove(_, _) => "R",
        Action::Substitute(_, _, _) => "S",
        Action::Ignore(_, _) => "I",
    };
    assert(text@ =~= seq![letter(action@)]);
    text
}

/// The table as text, one line for each row and an empty line at the end, for
/// a table with at least one row.
pub fn dump(actions: &[Vec<Cell>]) -> (text: String)
    requires
        actions@.len() > 0,
    ensures
        text@ == dumped(actions@),
{
    let mut text = String::new();
    let mut i: usize = 0;
    while i < actions.len()
        invariant
            i <= actions@.len(),
            text@ == dumped_rows(actions@, i as nat),
        decreases actions@.len() - i,
    {
        let row = &actions[i];
        let ghost before = text@;
        let mut j: usize = 0;
        while j < row.len()
            invariant
                j <= row@.len(),
                text@ == before + dumped_cells(row@, j as nat),
            decreases row@.len() - j,
        {
            proof {
                reveal_strlit(" (");
                reveal_strlit(") ");
                reveal_strlit("      - ");
            }
            let ghost so_far = text@;
            match &row[j] {
                Some(filled) => {
                    text.append(pad_number(filled.0, 3).as_str());
                    text.append(" (");
                    text.append(letter_text(&filled.1));
                    text.append(") ");
                },
                None => {
                    text.append("      - ");
                },
            }
            assert(text@ =~= so_far + dumped_cell(row@[j as int]));
            j += 1;
            assert(text@ =~= before + dumped_cells(row@, j as nat));
        }
        proof {
            reveal_strlit("\n");
        }
        text.append("\n");
        i += 1;
        assert(text@ =~= dumped_rows(actions@, i as nat));
    }
    proof {
        reveal_strlit("\n");
    }
    text.append("\n");
    text
}

} // verus!

//! The script as coloured text, one line for each operation.

use vstd::prelude::*;
use crate::edit::{Action, Edit};
use crate::number::{decimal, pad_number, right_aligned};

verus! {

/// The colours in which the lines of a script are shown.
#[derive(Clone, Copy, Debug, PartialEq, Eq)]
pub enum Tint {
    Red,
    Green,
    Yellow,
}

/// The escape sequence that switches the terminal to a colour.
pub open spec fn escape_start(tint: Tint) -> Seq<char> {
    match tint {
        Tint::Red => seq!['\x1b', '[', '3', '1', 'm'],
        Tint::Green => seq!['\x1b', '[', '3', '2', 'm'],
        Tint::Yellow => seq!['\x1b', '[', '3', '3', 'm'],
    }
}

/// The escape sequence that switches every colour and style off again.
pub open spec fn escape_end() -> Seq<char> {
    seq!['\x1b', '[', '0', 'm']
}

/// `text` between the escape sequences that show it in a colour.
pub open spec fn painted(tint: Tint, text: Seq<char>) -> Seq<char> {
    escape_start(tint) + text + escape_end()
}

/// The line that shows one operation: its position set to the right in
/// `width` characters, a mark for the kind of operation, a bar, and the text.
/// An inserted line is green under the mark `+`, a removed one red under `-`;
/// a substitution shows the old line in red and the new one in green under a
/// yellow `~`; a kept line has no mark and no colour.
pub open spec fn rendered(op: Edit, width: nat) -> Seq<char> {
    let number = right_aligned(decimal(op.position()), width);
    match op {
        Edit::Add(_, text) => number + seq![' '] + painted(Tint::Green, seq!['+']) + seq![
            '|',
            ' ',
        ] + painted(Tint::Green, text),
        Edit::Remove(_, text) => number + seq![' '] + painted(Tint::Red, seq!['-']) + seq![
            '|',
            ' ',
        ] + painted(Tint::Red, text),
        Edit::Substitute(_, old_text, new_text) => number + seq![' '] + painted(
            Tint::Yellow,
            seq!['~'],
        ) + seq!['|', ' '] + painted(Tint::Red, old_text) + seq![' ', '\u{21c6}', ' ', ' ']
            + painted(Tint::Green, new_text),
        Edit::Ignore(_, text) => number + seq![' ', ' ', '|', ' '] + text,
    }
}

/// Calls `ansi_term::Colour::paint` on `text` with the colour that `tint`
/// names, and turns the painted string into a `String` through its `Display`.
/// For a style that is a foreground colour and nothing else, that writes the
/// escape `ESC [ 3x m` with the colour's digit (1 red, 2 green, 3 yellow), the
/// text unchanged, and the reset `ESC [ 0 m`.
#[verifier::external_body]
fn paint(tint: Tint, text: &str) -> (out: String)
    ensures
        out@ == painted(tint, text@),
{
    let colour = match tint {
        Tint::Red => ansi_term::Colour::Red,
        Tint::Green => ansi_term::Colour::Green,
        Tint::Yellow => ansi_term::Colour::Yellow,
    };
    colour.paint(text).to_string()
}

/// The line of text that shows `action`, with its position in a field of
/// `width` characters.
pub fn render_action(action: &Action, width: usize) -> (line: String)
    ensures
        line@ == rendered(action@, width as nat),
{
    proof {
        reveal_strlit(" ");
        reveal_strlit("| ");
        reveal_strlit("  | ");
        reveal_strlit("+");
        reveal_strlit("-");
        reveal_strlit("~");
        reveal_strlit(" \u{21c6}  ");
    }
    match action {
        Action::Add(pos, text) => {
            let mut line = pad_number(*pos, width);
            line.append(" ");
            line.append(paint(Tint::Green, "+").as_str());
            line.append("| ");
            line.append(paint(Tint::Green, text.as_str()).as_str());
            assert(line@ =~= rendered(action@, width as nat));
            line
        },
        Action::Remove(pos, text) => {
            let mut line = pad_number(*pos, width);
            line.append(" ");
            line.append(paint(Tint::Red, "-").as_str());
            line.append("| ");
            line.append(paint(Tint::Red, text.as_str()).as_str());
            assert(line@ =~= rendered(action@, width as nat));
            line
        },
        Action::Substitute(pos, old_text, new_text) => {
            let mut line = pad_number(*pos, width);
            line.append(" ");
            line.append(paint(Tint::Yellow, "~").as_str());
            line.append("| ");
            line.append(paint(Tint::Red, old_text.as_str()).as_str());
            line.append(" \u{21c6}  ");
            line.append(paint(Tint::Green, new_text.as_str()).as_str());
            assert(line@ =~= rendered(action@, width as nat));
            line
        },
        Action::Ignore(pos, text) => {
            let mut line = pad_number(*pos, width);
            line.append("  | ");
            line.append(text.as_str());
            assert(line@ =~= rendered(action@, width as nat));
            line
        },
    }
}

/// The lines of text that show a script, one for each operation and in the
/// script's order, every position in a field of `width` characters.
pub fn render_actions(actions: &[Action], width: usize) -> (lines: Vec<String>)
    ensures
        lines@.len() == actions@.len(),
        forall|k: int|
            0 <= k < lines@.len() ==> (#[trigger] lines@[k])@ == rendered(
                actions@[k]@,
                width as nat,
            ),
{
    let mut lines: Vec<String> = Vec::new();
    let mut k: usize = 0;
    while k < actions.len()
        invariant
            k <= actions@.len(),
            lines@.len() == k,
            forall|m: int|
                0 <= m < k ==> (#[trigger] lines@[m])@ == rendered(actions@[m]@, width as nat),
        decreases actions@.len() - k,
    {
        lines.push(render_action(&actions[k], width));
        k += 1;
    }
    lines
}

} // verus!

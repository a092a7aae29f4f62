//! The four edit operations, as executable values and as mathematical ones.

use vstd::prelude::*;

verus! {

/// The mathematical value of an [`Action`]: the position as a natural number
/// and every line as a sequence of characters.
pub enum Edit {
    /// Insert a line of the second sequence.
    Add(nat, Seq<char>),
    /// Delete a line of the first sequence.
    Remove(nat, Seq<char>),
    /// Replace a line of the first sequence (named first) by one of the second.
    Substitute(nat, Seq<char>, Seq<char>),
    /// Keep a line that both sequences share.
    Ignore(nat, Seq<char>),
}

impl Edit {
    /// What the operation adds to the cost of a script: keeping a line is free,
    /// every other operation costs one.
    pub open spec fn cost(self) -> nat {
        match self {
            Edit::Ignore(_, _) => 0,
            _ => 1,
        }
    }

    /// How many lines of the first sequence the operation uses up.
    pub open spec fn consumed(self) -> nat {
        match self {
            Edit::Add(_, _) => 0,
            _ => 1,
        }
    }

    /// The position that the operation carries.
    pub open spec fn position(self) -> nat {
        match self {
            Edit::Add(pos, _) => pos,
            Edit::Remove(pos, _) => pos,
            Edit::Substitute(pos, _, _) => pos,
            Edit::Ignore(pos, _) => pos,
        }
    }
}

/// One operation of an edit script. The number is the table coordinate at which
/// the operation was chosen: the column for `Add`, `Substitute` and `Ignore`,
/// the row for `Remove`.
#[derive(Debug, PartialEq, Eq)]
pub enum Action {
    Add(usize, String),
    Remove(usize, String),
    Substitute(usize, String, String),
    Ignore(usize, String),
}

impl View for Action {
    type V = Edit;

    open spec fn view(&self) -> Edit {
        match *self {
            Action::Add(pos, text) => Edit::Add(pos as nat, text@),
            Action::Remove(pos, text) => Edit::Remove(pos as nat, text@),
            Action::Substitute(pos, old_text, new_text) => Edit::Substitute(
                pos as nat,
                old_text@,
                new_text@,
            ),
            Action::Ignore(pos, text) => Edit::Ignore(pos as nat, text@),
        }
    }
}

impl DeepView for Action {
    type V = Edit;

    open spec fn deep_view(&self) -> Edit {
        self@
    }
}

impl Clone for Action {
    fn clone(&self) -> (copy: Self)
        ensures
            copy == *self,
    {
        match self {
            Action::Add(pos, text) => Action::Add(*pos, text.clone()),
            Action::Remove(pos, text) => Action::Remove(*pos, text.clone()),
            Action::Substitute(pos, old_text, new_text) => Action::Substitute(
                *pos,
                old_text.clone(),
                new_text.clone(),
            ),
            Action::Ignore(pos, text) => Action::Ignore(*pos, text.clone()),
        }
    }
}

} // verus!

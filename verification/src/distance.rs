//! The edit-distance recurrence as a mathematical model: the cost of every
//! cell of the table, the operation chosen there, and the script that the
//! chosen operations spell out.

use vstd::prelude::*;
use crate::edit::Edit;

verus! {

/// The least of three costs.
pub open spec fn least(x: nat, y: nat, z: nat) -> nat {
    if x <= y && x <= z {
        x
    } else if y <= z {
        y
    } else {
        z
    }
}

/// The cost at cell `(i, j)`: what it takes to turn the first `i` lines of `a`
/// into the first `j` lines of `b`.
pub open spec fn distance(a: Seq<Seq<char>>, b: Seq<Seq<char>>, i: nat, j: nat) -> nat
    decreases i + j,
{
    if i == 0 {
        j
    } else if j == 0 {
        i
    } else if a[i - 1] == b[j - 1] {
        distance(a, b, (i - 1) as nat, (j - 1) as nat)
    } else {
        1 + least(
            distance(a, b, (i - 1) as nat, j),
            distance(a, b, i, (j - 1) as nat),
            distance(a, b, (i - 1) as nat, (j - 1) as nat),
        )
    }
}

/// The operation recorded at cell `(i, j)`. Where the lines differ and several
/// operations reach the least cost, removal wins over insertion, and insertion
/// over substitution.
pub open spec fn step(a: Seq<Seq<char>>, b: Seq<Seq<char>>, i: nat, j: nat) -> Edit {
    if i == 0 && j == 0 {
        Edit::Ignore(0, Seq::empty())
    } else if i == 0 {
        Edit::Add(j, b[j - 1])
    } else if j == 0 {
        Edit::Remove(i, a[i - 1])
    } else if a[i - 1] == b[j - 1] {
        Edit::Ignore(j, a[i - 1])
    } else {
        let by_remove = distance(a, b, (i - 1) as nat, j);
        let by_add = distance(a, b, i, (j - 1) as nat);
        let by_substitute = distance(a, b, (i - 1) as nat, (j - 1) as nat);
        if by_remove <= by_add && by_remove <= by_substitute {
            Edit::Remove(i, a[i - 1])
        } else if by_add <= by_substitute {
            Edit::Add(j, b[j - 1])
        } else {
            Edit::Substitute(j, a[i - 1], b[j - 1])
        }
    }
}

/// The operations on the way from the origin to cell `(i, j)`, first applied
/// first: the script for the first `i` lines of `a` and the first `j` of `b`.
pub open spec fn trail(a: Seq<Seq<char>>, b: Seq<Seq<char>>, i: nat, j: nat) -> Seq<Edit>
    decreases i + j,
{
    if i == 0 && j == 0 {
        Seq::empty()
    } else if i == 0 {
        trail(a, b, i, (j - 1) as nat).push(step(a, b, i, j))
    } else if j == 0 {
        trail(a, b, (i - 1) as nat, j).push(step(a, b, i, j))
    } else {
        match step(a, b, i, j) {
            Edit::Add(_, _) => trail(a, b, i, (j - 1) as nat).push(step(a, b, i, j)),
            Edit::Remove(_, _) => trail(a, b, (i - 1) as nat, j).push(step(a, b, i, j)),
            _ => trail(a, b, (i - 1) as nat, (j - 1) as nat).push(step(a, b, i, j)),
        }
    }
}

/// The edit script that turns `a` into `b`.
pub open spec fn edit_script(a: Seq<Seq<char>>, b: Seq<Seq<char>>) -> Seq<Edit> {
    trail(a, b, a.len(), b.len())
}

/// No cell costs more than the longer of its two prefixes.
pub proof fn lemma_distance_bound(a: Seq<Seq<char>>, b: Seq<Seq<char>>, i: nat, j: nat)
    ensures
        distance(a, b, i, j) <= i || distance(a, b, i, j) <= j,
        i == 0 ==> distance(a, b, i, j) == j,
        j == 0 ==> distance(a, b, i, j) == i,
    decreases i + j,
{
    if i > 0 && j > 0 {
        lemma_distance_bound(a, b, (i - 1) as nat, (j - 1) as nat);
    }
}

} // verus!

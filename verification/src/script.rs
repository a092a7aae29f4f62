//! The script reconstructor: walks a table back from its last cell to the
//! origin, and the diff as a whole.

use vstd::prelude::*;
use crate::apply::{apply, changes};
use crate::distance::{edit_script, step, trail};
use crate::edit::{Action, Edit};
use crate::laws::{lemma_distance_is_levenshtein, lemma_round_trip, lemma_script_cost};
use crate::levenshtein::levenshtein;
use crate::table::{build_table, cell_holds, snapshot, solved, Cell};

verus! {

/// The number of columns of a table: the length of its first row.
pub open spec fn width(table: Seq<Vec<Cell>>) -> nat {
    if table.len() == 0 {
        0
    } else {
        table[0]@.len()
    }
}

/// The operation in row `row`, column `col`, both counted from one.
pub open spec fn operation_at(table: Seq<Vec<Cell>>, row: nat, col: nat) -> Action
    recommends
        1 <= row <= table.len(),
        1 <= col <= table[row - 1]@.len(),
        table[row - 1]@[col - 1] is Some,
{
    table[row - 1]@[col - 1].unwrap().1
}

/// Every cell that the walk back from row `rows`, column `cols` (counted from
/// one) comes to is inside the table and filled.
pub open spec fn walkable(table: Seq<Vec<Cell>>, rows: nat, cols: nat) -> bool
    decreases rows + cols,
{
    if rows == 0 || cols == 0 {
        true
    } else {
        &&& rows <= table.len()
        &&& cols <= table[rows - 1]@.len()
        &&& table[rows - 1]@[cols - 1] is Some
        &&& match operation_at(table, rows, cols) {
            Action::Add(_, _) => walkable(table, rows, (cols - 1) as nat),
            Action::Remove(_, _) => walkable(table, (rows - 1) as nat, cols),
            _ => walkable(table, (rows - 1) as nat, (cols - 1) as nat),
        }
    }
}

/// The operations that the walk back from row `rows`, column `cols` (counted
/// from one) reads, in the order in which it reads them. An insertion leads
/// one column to the left, a removal one row up, the other two operations
/// both; the walk ends when it leaves the table at the top or on the left.
pub open spec fn walked(table: Seq<Vec<Cell>>, rows: nat, cols: nat) -> Seq<Action>
    decreases rows + cols,
{
    if rows == 0 || cols == 0 {
        Seq::empty()
    } else {
        let here = operation_at(table, rows, cols);
        match here {
            Action::Add(_, _) => seq![here] + walked(table, rows, (cols - 1) as nat),
            Action::Remove(_, _) => seq![here] + walked(table, (rows - 1) as nat, cols),
            _ => seq![here] + walked(table, (rows - 1) as nat, (cols - 1) as nat),
        }
    }
}

/// Walks the table back from its last cell and returns the operations met on
/// the way, the last one of the script first and the origin's marker last.
pub fn backtrack_actions(actions: &[Vec<Cell>]) -> (result: Vec<&Action>)
    requires
        walkable(actions@, actions@.len(), width(actions@)),
    ensures
        result@.len() == walked(actions@, actions@.len(), width(actions@)).len(),
        forall|k: int|
            0 <= k < result@.len() ==> *#[trigger] result@[k] == walked(
                actions@,
                actions@.len(),
                width(actions@),
            )[k],
{
    let mut result: Vec<&Action> = Vec::new();
    let mut n1: usize = actions.len();
    let mut n2: usize = if actions.len() > 0 {
        actions[0].len()
    } else {
        0
    };
    let ghost whole = walked(actions@, actions@.len(), width(actions@));
    while n1 > 0 && n2 > 0
        invariant
            walkable(actions@, n1 as nat, n2 as nat),
            whole.len() == result@.len() + walked(actions@, n1 as nat, n2 as nat).len(),
            forall|k: int| 0 <= k < result@.len() ==> *#[trigger] result@[k] == whole[k],
            forall|k: int|
                0 <= k < walked(actions@, n1 as nat, n2 as nat).len() ==> whole[result@.len() + k]
                    == #[trigger] walked(actions@, n1 as nat, n2 as nat)[k],
        decreases n1 + n2,
    {
        let ghost rest = walked(actions@, n1 as nat, n2 as nat);
        let action: &Action = &actions[n1 - 1][n2 - 1].as_ref().unwrap().1;
        assert(*action == operation_at(actions@, n1 as nat, n2 as nat));
        assert(rest.len() > 0 && rest[0] == *action);
        result.push(action);
        match action {
            Action::Add(_, _) => {
                n2 -= 1;
            },
            Action::Remove(_, _) => {
                n1 -= 1;
            },
            Action::Substitute(_, _, _) | Action::Ignore(_, _) => {
                n1 -= 1;
                n2 -= 1;
            },
        }
        assert(rest =~= seq![*action] + walked(actions@, n1 as nat, n2 as nat));
        assert forall|k: int|
            0 <= k < walked(actions@, n1 as nat, n2 as nat).len() implies whole[result@.len() + k]
            == #[trigger] walked(actions@, n1 as nat, n2 as nat)[k] by {
            assert(rest[k + 1] == walked(actions@, n1 as nat, n2 as nat)[k]);
        }
    }
    result
}

/// On the finished table for `a` and `b` the walk back from cell `(i, j)` can
/// be made. It reads the script for the two prefixes, last operation first,
/// and then the marker at the origin.
pub proof fn lemma_walk_of_solved(
    table: Seq<Vec<Cell>>,
    a: Seq<Seq<char>>,
    b: Seq<Seq<char>>,
    i: nat,
    j: nat,
)
    requires
        solved(table, a, b),
        i <= a.len(),
        j <= b.len(),
    ensures
        walkable(table, i + 1, j + 1),
        walked(table, i + 1, j + 1).len() == trail(a, b, i, j).len() + 1,
        forall|k: int|
            0 <= k < trail(a, b, i, j).len() ==> (#[trigger] walked(table, i + 1, j + 1)[k])@
                == trail(a, b, i, j)[trail(a, b, i, j).len() - 1 - k],
        walked(table, i + 1, j + 1).last()@ == step(a, b, 0, 0),
    decreases i + j,
{
    assert(cell_holds(table, a, b, i as int, j as int));
    let here = operation_at(table, i + 1, j + 1);
    assert(here@ == step(a, b, i, j));
    let (up, left): (nat, nat) = match here {
        Action::Add(_, _) => (i, (j - 1) as nat),
        Action::Remove(_, _) => ((i - 1) as nat, j),
        _ => ((i - 1) as nat, (j - 1) as nat),
    };
    if i == 0 && j == 0 {
        assert(walkable(table, 0, 0));
        assert(walked(table, 0, 0) =~= Seq::<Action>::empty());
        assert(walked(table, 1, 1) =~= seq![here]);
    } else {
        lemma_walk_of_solved(table, a, b, up, left);
        let before = walked(table, up + 1, left + 1);
        let whole = walked(table, i + 1, j + 1);
        assert(whole =~= seq![here] + before);
        assert(trail(a, b, i, j) =~= trail(a, b, up, left).push(step(a, b, i, j)));
        assert forall|k: int| 0 <= k < trail(a, b, i, j).len() implies (#[trigger] whole[k])@
            == trail(a, b, i, j)[trail(a, b, i, j).len() - 1 - k] by {
            if k > 0 {
                assert(whole[k] == before[k - 1]);
            }
        }
        assert(whole.last() == before.last());
    }
}

/// The walk back over the whole of the finished table for `a` and `b` can be
/// made. It reads the diff of `a` and `b`, last operation first, and then the
/// marker at the origin.
pub proof fn lemma_walk_of_whole_table(table: Seq<Vec<Cell>>, a: Seq<Seq<char>>, b: Seq<Seq<char>>)
    requires
        solved(table, a, b),
    ensures
        walkable(table, table.len(), width(table)),
        walked(table, table.len(), width(table)).len() == edit_script(a, b).len() + 1,
        forall|k: int|
            0 <= k < edit_script(a, b).len() ==> (#[trigger] walked(
                table,
                table.len(),
                width(table),
            )[k])@ == edit_script(a, b)[edit_script(a, b).len() - 1 - k],
        walked(table, table.len(), width(table)).last()@ == Edit::Ignore(0, Seq::empty()),
{
    lemma_walk_of_solved(table, a, b, a.len(), b.len());
    assert(width(table) == b.len() + 1);
}

/// The diff of `s1` and `s2`: the script of operations that turns the first
/// sequence into the second, in the order in which they apply. `hook` is shown
/// the table after every cell written but the origin; what it does has no
/// bearing on the script.
pub fn lev_traced<F: Fn(&[Vec<Cell>])>(s1: &[String], s2: &[String], hook: F) -> (script: Vec<
    Action,
>)
    requires
        forall|t: &[Vec<Cell>], i: int, j: int|
            (i > 0 || j > 0) && snapshot(t@, s1.deep_view(), s2.deep_view(), i, j)
                ==> hook.requires((t,)),
    ensures
        script.deep_view() == edit_script(s1.deep_view(), s2.deep_view()),
        apply(script.deep_view(), s1.deep_view()) == s2.deep_view(),
        changes(script.deep_view()) == levenshtein(s1.deep_view(), s2.deep_view()),
        script@.len() <= s1@.len() + s2@.len(),
{
    let ghost a = s1.deep_view();
    let ghost b = s2.deep_view();
    let table = build_table(s1, s2, hook);
    proof {
        lemma_walk_of_whole_table(table@, a, b);
    }
    let back = backtrack_actions(table.as_slice());
    let ghost whole = walked(table@, table@.len(), width(table@));
    let ghost goal = edit_script(a, b);
    let mut script: Vec<Action> = Vec::new();
    let mut k: usize = back.len() - 1;
    while k > 0
        invariant
            k < back@.len(),
            back@.len() == whole.len(),
            whole.len() == goal.len() + 1,
            forall|m: int| 0 <= m < back@.len() ==> *#[trigger] back@[m] == whole[m],
            forall|m: int| 0 <= m < goal.len() ==> (#[trigger] whole[m])@ == goal[goal.len() - 1 - m],
            script@.len() == goal.len() - k,
            forall|m: int| 0 <= m < script@.len() ==> (#[trigger] script@[m])@ == goal[m],
        decreases k,
    {
        k -= 1;
        let action: Action = back[k].clone();
        assert(action == whole[k as int]);
        script.push(action);
    }
    proof {
        assert(script.deep_view() =~= goal);
        lemma_round_trip(a, b);
        lemma_script_cost(a, b);
        lemma_distance_is_levenshtein(a, b);
    }
    script
}

/// The diff of `s1` and `s2`: the script of operations that turns the first
/// sequence into the second, in the order in which they apply.
pub fn lev(s1: &[String], s2: &[String]) -> (script: Vec<Action>)
    ensures
        script.deep_view() == edit_script(s1.deep_view(), s2.deep_view()),
        apply(script.deep_view(), s1.deep_view()) == s2.deep_view(),
        changes(script.deep_view()) == levenshtein(s1.deep_view(), s2.deep_view()),
        script@.len() <= s1@.len() + s2@.len(),
{
    lev_traced(s1, s2, |_table: &[Vec<Cell>]| {})
}

} // verus!

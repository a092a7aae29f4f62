//! What holds of every diff: the script of a sequence with itself, with no
//! lines at all, its cost, and that it turns the first sequence into the
//! second at the least cost that any script can.

use vstd::prelude::*;
use crate::apply::{apply, changes, consumed, lemma_consumed_concat, lemma_push, output, turns};
use crate::distance::{distance, edit_script, step, trail};
use crate::edit::Edit;
use crate::levenshtein::{
    lemma_levenshtein_is_least, lemma_levenshtein_is_reached, levenshtein,
};

verus! {

/// Between a sequence and itself the table's diagonal holds only kept lines.
proof fn lemma_trail_of_equal(s: Seq<Seq<char>>, i: nat)
    requires
        i <= s.len(),
    ensures
        distance(s, s, i, i) == 0,
        trail(s, s, i, i) == Seq::new(i, |k: int| Edit::Ignore((k + 1) as nat, s[k])),
    decreases i,
{
    if i > 0 {
        lemma_trail_of_equal(s, (i - 1) as nat);
    }
    assert(trail(s, s, i, i) =~= Seq::new(i, |k: int| Edit::Ignore((k + 1) as nat, s[k])));
}

/// The diff of a sequence with itself keeps every line: one `Ignore` for each,
/// in the order of the lines, each with the line's number counted from one.
pub proof fn lemma_identity(s: Seq<Seq<char>>)
    ensures
        edit_script(s, s) == Seq::new(s.len(), |k: int| Edit::Ignore((k + 1) as nat, s[k])),
        distance(s, s, s.len(), s.len()) == 0,
{
    lemma_trail_of_equal(s, s.len());
}

/// Row 0 of the table holds only insertions.
proof fn lemma_trail_of_row_zero(a: Seq<Seq<char>>, b: Seq<Seq<char>>, j: nat)
    ensures
        trail(a, b, 0, j) == Seq::new(j, |k: int| Edit::Add((k + 1) as nat, b[k])),
    decreases j,
{
    if j > 0 {
        lemma_trail_of_row_zero(a, b, (j - 1) as nat);
    }
    assert(trail(a, b, 0, j) =~= Seq::new(j, |k: int| Edit::Add((k + 1) as nat, b[k])));
}

/// Column 0 of the table holds only removals.
proof fn lemma_trail_of_column_zero(a: Seq<Seq<char>>, b: Seq<Seq<char>>, i: nat)
    ensures
        trail(a, b, i, 0) == Seq::new(i, |k: int| Edit::Remove((k + 1) as nat, a[k])),
    decreases i,
{
    if i > 0 {
        lemma_trail_of_column_zero(a, b, (i - 1) as nat);
    }
    assert(trail(a, b, i, 0) =~= Seq::new(i, |k: int| Edit::Remove((k + 1) as nat, a[k])));
}

/// The diff of no lines with `s` inserts every line of `s`: one `Add` for
/// each, in the order of the lines.
pub proof fn lemma_pure_insertion(s: Seq<Seq<char>>)
    ensures
        edit_script(Seq::empty(), s) == Seq::new(
            s.len(),
            |k: int| Edit::Add((k + 1) as nat, s[k]),
        ),
{
    lemma_trail_of_row_zero(Seq::empty(), s, s.len());
}

/// The diff of `s` with no lines removes every line of `s`: one `Remove` for
/// each, in the order of the lines.
pub proof fn lemma_pure_deletion(s: Seq<Seq<char>>)
    ensures
        edit_script(s, Seq::empty()) == Seq::new(
            s.len(),
            |k: int| Edit::Remove((k + 1) as nat, s[k]),
        ),
{
    lemma_trail_of_column_zero(s, Seq::empty(), s.len());
}

/// The operations on the way to cell `(i, j)` use up the first `i` lines of
/// `a`, make the first `j` lines of `b` of them, cost what the cell says, and
/// are at most `i + j`.
pub proof fn lemma_trail_turns(a: Seq<Seq<char>>, b: Seq<Seq<char>>, i: nat, j: nat)
    requires
        i <= a.len(),
        j <= b.len(),
    ensures
        turns(trail(a, b, i, j), a.take(i as int), b.take(j as int)),
        changes(trail(a, b, i, j)) == distance(a, b, i, j),
        trail(a, b, i, j).len() <= i + j,
    decreases i + j,
{
    let here = step(a, b, i, j);
    if i == 0 && j == 0 {
        assert(a.take(0) =~= b.take(0));
    } else {
        let (up, left): (nat, nat) = match here {
            Edit::Add(_, _) => (i, (j - 1) as nat),
            Edit::Remove(_, _) => ((i - 1) as nat, j),
            _ => ((i - 1) as nat, (j - 1) as nat),
        };
        let before = trail(a, b, up, left);
        lemma_trail_turns(a, b, up, left);
        assert(trail(a, b, i, j) == before.push(here));
        let source = a.take(i as int);
        lemma_push(before, here, source);
        assert(source.take(up as int) =~= a.take(up as int));
        let rest = source.skip(up as int);
        if up < i {
            assert(rest[0] == a[i - 1]);
        }
        assert(b.take(j as int) =~= b.take(left as int) + output(here, rest));
    }
}

/// Applied to the first sequence, the diff gives the second: it walks the
/// whole of `a`, keeps a line at each `Ignore`, inserts one at each `Add`,
/// drops one at each `Remove`, replaces one at each `Substitute`, and what
/// comes out is `b`.
pub proof fn lemma_round_trip(a: Seq<Seq<char>>, b: Seq<Seq<char>>)
    ensures
        turns(edit_script(a, b), a, b),
        consumed(edit_script(a, b)) == a.len(),
        apply(edit_script(a, b), a) == b,
{
    lemma_trail_turns(a, b, a.len(), b.len());
    assert(a.take(a.len() as int) =~= a);
    assert(b.take(b.len() as int) =~= b);
}

/// The operations of the diff that are not `Ignore` are as many as the cost
/// in the table's last cell, and the diff is never longer than the two
/// sequences together.
pub proof fn lemma_script_cost(a: Seq<Seq<char>>, b: Seq<Seq<char>>)
    ensures
        changes(edit_script(a, b)) == distance(a, b, a.len(), b.len()),
        edit_script(a, b).len() <= a.len() + b.len(),
{
    lemma_trail_turns(a, b, a.len(), b.len());
}

/// Neighbouring cells differ by at most one: a line more or less in either
/// sequence changes the cost by no more than one operation.
pub proof fn lemma_neighbours(a: Seq<Seq<char>>, b: Seq<Seq<char>>, i: nat, j: nat)
    ensures
        distance(a, b, i + 1, j) <= distance(a, b, i, j) + 1,
        distance(a, b, i, j + 1) <= distance(a, b, i, j) + 1,
        distance(a, b, i, j) <= distance(a, b, i + 1, j) + 1,
        distance(a, b, i, j) <= distance(a, b, i, j + 1) + 1,
    decreases i + j,
{
    if j > 0 {
        lemma_neighbours(a, b, i, (j - 1) as nat);
    }
    if i > 0 {
        lemma_neighbours(a, b, (i - 1) as nat, j);
    }
}

/// No script that uses up the first `i` lines of `a` and makes the first `j`
/// lines of `b` of them costs less than cell `(i, j)`.
proof fn lemma_cell_bounds_exact_scripts(
    ops: Seq<Edit>,
    a: Seq<Seq<char>>,
    b: Seq<Seq<char>>,
    i: nat,
    j: nat,
)
    requires
        i <= a.len(),
        j <= b.len(),
        turns(ops, a.take(i as int), b.take(j as int)),
    ensures
        distance(a, b, i, j) <= changes(ops),
    decreases ops.len(),
{
    let source = a.take(i as int);
    let target = b.take(j as int);
    if ops.len() == 0 {
        assert(source.len() == 0 && target.len() == 0);
    } else {
        let before = ops.drop_last();
        let here = ops.last();
        assert(ops =~= before.push(here));
        lemma_consumed_concat(before, seq![here]);
        assert(ops =~= before + seq![here]);
        let up = consumed(before);
        assert(up + here.consumed() == i) by {
            assert(seq![here].drop_first() =~= Seq::<Edit>::empty());
            assert(consumed(seq![here].drop_first()) == 0);
        }
        lemma_push(before, here, source);
        assert(source.take(up as int) =~= a.take(up as int));
        let rest = source.skip(up as int);
        let out = output(here, rest);
        let made = apply(before, a.take(up as int));
        assert(target =~= made + out);
        let left = made.len();
        assert(made =~= b.take(left as int));
        lemma_cell_bounds_exact_scripts(before, a, b, up, left);
        if up < i {
            assert(rest[0] == a[i - 1]);
        }
        if left < j {
            assert(out[0] == target[j - 1]);
        }
        match here {
            Edit::Add(_, _) => {
                lemma_neighbours(a, b, i, left);
            },
            Edit::Remove(_, _) => {
                lemma_neighbours(a, b, up, j);
            },
            _ => {},
        }
    }
}

/// The cost in the table's last cell is the Levenshtein distance of the two
/// sequences, as the textbook recursion on their first lines gives it.
pub proof fn lemma_distance_is_levenshtein(a: Seq<Seq<char>>, b: Seq<Seq<char>>)
    ensures
        distance(a, b, a.len(), b.len()) == levenshtein(a, b),
{
    lemma_levenshtein_is_reached(a, b);
    let witness = choose|ops: Seq<Edit>| #[trigger]
        turns(ops, a, b) && changes(ops) == levenshtein(a, b);
    assert(a.take(a.len() as int) =~= a);
    assert(b.take(b.len() as int) =~= b);
    lemma_cell_bounds_exact_scripts(witness, a, b, a.len(), b.len());
    lemma_round_trip(a, b);
    lemma_script_cost(a, b);
    lemma_levenshtein_is_least(edit_script(a, b), a, b);
}

/// A cell's cost depends only on the lines before it: on the first `i` lines
/// of `a` and the first `j` lines of `b`.
pub proof fn lemma_distance_of_prefixes(
    a: Seq<Seq<char>>,
    b: Seq<Seq<char>>,
    i: nat,
    j: nat,
    m: nat,
    n: nat,
)
    requires
        i <= m <= a.len(),
        j <= n <= b.len(),
    ensures
        distance(a.take(m as int), b.take(n as int), i, j) == distance(a, b, i, j),
    decreases i + j,
{
    if i > 0 && j > 0 {
        lemma_distance_of_prefixes(a, b, (i - 1) as nat, j, m, n);
        lemma_distance_of_prefixes(a, b, i, (j - 1) as nat, m, n);
        lemma_distance_of_prefixes(a, b, (i - 1) as nat, (j - 1) as nat, m, n);
    }
}

/// The cost of cell `(i, j)` is the least cost at which the first `i` lines
/// of `a` can be turned into the first `j` lines of `b`: no script does it at
/// less, and the operations on the way to the cell do it at that cost.
pub proof fn lemma_cell_is_least(
    ops: Seq<Edit>,
    a: Seq<Seq<char>>,
    b: Seq<Seq<char>>,
    i: nat,
    j: nat,
)
    requires
        i <= a.len(),
        j <= b.len(),
        apply(ops, a.take(i as int)) == b.take(j as int),
    ensures
        distance(a, b, i, j) <= changes(ops),
        distance(a, b, i, j) == changes(trail(a, b, i, j)),
{
    lemma_trail_turns(a, b, i, j);
    lemma_distance_of_prefixes(a, b, i, j, i, j);
    lemma_distance_is_levenshtein(a.take(i as int), b.take(j as int));
    lemma_levenshtein_is_least(ops, a.take(i as int), b.take(j as int));
}

/// The cost in the table's last cell is the edit distance of the two
/// sequences: every script that makes `b` of `a` has at least that many
/// operations other than `Ignore`, and the diff has exactly that many.
pub proof fn lemma_distance_is_least(ops: Seq<Edit>, a: Seq<Seq<char>>, b: Seq<Seq<char>>)
    requires
        apply(ops, a) == b,
    ensures
        changes(edit_script(a, b)) == distance(a, b, a.len(), b.len()),
        changes(edit_script(a, b)) <= changes(ops),
{
    lemma_script_cost(a, b);
    lemma_distance_is_levenshtein(a, b);
    lemma_levenshtein_is_least(ops, a, b);
}

} // verus!

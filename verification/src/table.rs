//! The table builder: fills the table of costs and chosen operations for two
//! sequences of lines.

use vstd::prelude::*;
use crate::distance::{distance, lemma_distance_bound, step};
use crate::edit::Action;

verus! {

/// One cell of the table: its cost and the operation chosen there, or nothing
/// while the cell is still to be computed.
pub type Cell = Option<(usize, Action)>;

/// The table has `rows` rows of `cols` cells each.
pub open spec fn rectangular(table: Seq<Vec<Cell>>, rows: nat, cols: nat) -> bool {
    &&& table.len() == rows
    &&& forall|i: int| 0 <= i < rows ==> (#[trigger] table[i])@.len() == cols
}

/// Cell `(i, j)` of the table holds the cost and the operation that the
/// recurrence gives for the lines `a` and `b`.
pub open spec fn cell_holds(
    table: Seq<Vec<Cell>>,
    a: Seq<Seq<char>>,
    b: Seq<Seq<char>>,
    i: int,
    j: int,
) -> bool {
    &&& 0 <= i < table.len()
    &&& 0 <= j < table[i]@.len()
    &&& table[i]@[j] matches Some(cell)
    &&& cell.0 == distance(a, b, i as nat, j as nat)
    &&& cell.1@ == step(a, b, i as nat, j as nat)
}

/// Cell `(i, j)` of the table is there and still empty.
pub open spec fn cell_empty(table: Seq<Vec<Cell>>, i: int, j: int) -> bool {
    &&& 0 <= i < table.len()
    &&& 0 <= j < table[i]@.len()
    &&& table[i]@[j] is None
}

/// The order of filling: whether cell `(r, c)` is written once cell `(i, j)`
/// is. Row 0 is written first, from the origin to the right, then column 0
/// downwards, then the other cells row by row.
pub open spec fn written_by(r: int, c: int, i: int, j: int) -> bool {
    if i == 0 {
        r == 0 && c <= j
    } else if j == 0 {
        r == 0 || (c == 0 && r <= i)
    } else {
        r == 0 || c == 0 || r < i || (r == i && c <= j)
    }
}

/// The table for `a` and `b` as it stands when cell `(i, j)` has just been
/// written: every cell written by then holds what the recurrence gives, and
/// every other cell is empty.
pub open spec fn snapshot(
    table: Seq<Vec<Cell>>,
    a: Seq<Seq<char>>,
    b: Seq<Seq<char>>,
    i: int,
    j: int,
) -> bool {
    &&& 0 <= i <= a.len()
    &&& 0 <= j <= b.len()
    &&& rectangular(table, a.len() + 1, b.len() + 1)
    &&& forall|r: int, c: int|
        0 <= r <= a.len() && 0 <= c <= b.len() && written_by(r, c, i, j) ==> #[trigger] cell_holds(
            table,
            a,
            b,
            r,
            c,
        )
    &&& forall|r: int, c: int|
        0 <= r <= a.len() && 0 <= c <= b.len() && !written_by(r, c, i, j) ==> #[trigger] cell_empty(
            table,
            r,
            c,
        )
}

/// The table is the finished table for `a` and `b`: one row for every prefix
/// of `a`, one column for every prefix of `b`, and every cell filled as the
/// recurrence says.
pub open spec fn solved(table: Seq<Vec<Cell>>, a: Seq<Seq<char>>, b: Seq<Seq<char>>) -> bool {
    &&& rectangular(table, a.len() + 1, b.len() + 1)
    &&& forall|i: int, j: int|
        0 <= i <= a.len() && 0 <= j <= b.len() ==> #[trigger] cell_holds(table, a, b, i, j)
}

/// `after` is `before` with cell `(i, j)` written anew.
spec fn written(before: Seq<Vec<Cell>>, after: Seq<Vec<Cell>>, i: int, j: int) -> bool {
    &&& 0 <= i < before.len()
    &&& 0 <= j < before[i]@.len()
    &&& after.len() == before.len()
    &&& after[i]@.len() == before[i]@.len()
    &&& forall|r: int| 0 <= r < before.len() && r != i ==> after[r] == before[r]
    &&& forall|c: int| 0 <= c < before[i]@.len() && c != j ==> after[i]@[c] == before[i]@[c]
}

/// Writing one cell leaves the shape of the table and every other cell as
/// they were.
proof fn lemma_write_keeps(
    before: Seq<Vec<Cell>>,
    after: Seq<Vec<Cell>>,
    a: Seq<Seq<char>>,
    b: Seq<Seq<char>>,
    i: int,
    j: int,
)
    requires
        written(before, after, i, j),
    ensures
        forall|rows: nat, cols: nat|
            rectangular(before, rows, cols) ==> rectangular(after, rows, cols),
        forall|r: int, c: int|
            (r != i || c != j) && cell_holds(before, a, b, r, c) ==> #[trigger] cell_holds(
                after,
                a,
                b,
                r,
                c,
            ),
        forall|r: int, c: int|
            (r != i || c != j) && cell_empty(before, r, c) ==> #[trigger] cell_empty(after, r, c),
{
    assert forall|rows: nat, cols: nat| rectangular(before, rows, cols) implies rectangular(
        after,
        rows,
        cols,
    ) by {
        assert forall|r: int| 0 <= r < rows implies (#[trigger] after[r])@.len() == cols by {
            assert(before[r]@.len() == cols);
        }
    }
}

/// A row of empty cells, one more than `last`: the row's last cell has that
/// number.
fn empty_row(last: usize) -> (row: Vec<Cell>)
    ensures
        row@.len() == last + 1,
        forall|j: int| 0 <= j <= last ==> #[trigger] row@[j] is None,
{
    let mut row: Vec<Cell> = Vec::new();
    row.push(None);
    let mut j: usize = 0;
    while j < last
        invariant
            j <= last,
            row@.len() == j + 1,
            forall|k: int| 0 <= k <= j ==> #[trigger] row@[k] is None,
        decreases last - j,
    {
        row.push(None);
        j += 1;
    }
    row
}

/// The cost held in a filled cell.
fn cost_at(table: &Vec<Vec<Cell>>, i: usize, j: usize) -> (cost: usize)
    requires
        i < table@.len(),
        j < table@[i as int]@.len(),
        table@[i as int]@[j as int] is Some,
    ensures
        table@[i as int]@[j as int] matches Some(cell) && cell.0 == cost,
{
    table[i][j].as_ref().unwrap().0
}

/// Builds the table for `s1` and `s2`. Row 0 is filled first, then column 0,
/// then the other cells row by row. After every write but the first, that of
/// the origin, `hook` is shown the table as it then stands; what the hook does
/// has no bearing on the table.
pub fn build_table<F: Fn(&[Vec<Cell>])>(s1: &[String], s2: &[String], hook: F) -> (table: Vec<
    Vec<Cell>,
>)
    requires
        forall|t: &[Vec<Cell>], i: int, j: int|
            (i > 0 || j > 0) && snapshot(t@, s1.deep_view(), s2.deep_view(), i, j)
                ==> hook.requires((t,)),
    ensures
        solved(table@, s1.deep_view(), s2.deep_view()),
{
    let n1: usize = s1.len();
    let n2: usize = s2.len();
    let ghost a = s1.deep_view();
    let ghost b = s2.deep_view();
    let mut table: Vec<Vec<Cell>> = Vec::with_capacity(n1.saturating_add(1));
    table.push(empty_row(n2));
    let mut i: usize = 0;
    while i < n1
        invariant
            i <= n1,
            rectangular(table@, (i + 1) as nat, (n2 + 1) as nat),
            forall|r: int, c: int| 0 <= r <= i && 0 <= c <= n2 ==> #[trigger] cell_empty(table@, r, c),
        decreases n1 - i,
    {
        let ghost before = table@;
        let row = empty_row(n2);
        assert forall|c: int| 0 <= c <= n2 implies #[trigger] cell_empty(before.push(row), i + 1, c) by {
            assert(row@[c] is None);
        }
        assert forall|r: int, c: int| 0 <= r <= i && 0 <= c <= n2 implies #[trigger] cell_empty(
            before.push(row),
            r,
            c,
        ) by {
            assert(cell_empty(before, r, c));
        }
        table.push(row);
        i += 1;
    }
    // A table of this size exists, so both of its sides can be counted.
    let rows: usize = table.len();
    let cols: usize = table[0].len();
    assert(rows == n1 + 1 && cols == n2 + 1);

    let ghost before = table@;
    table[0][0] = Some((0, Action::Ignore(0, String::new())));
    proof {
        lemma_write_keeps(before, table@, a, b, 0, 0);
    }

    let mut j: usize = 1;
    while j <= n2
        invariant
            1 <= j <= n2 + 1,
            n1 == s1@.len(),
            n2 == s2@.len(),
            n1 < usize::MAX,
            n2 < usize::MAX,
            a == s1.deep_view(),
            b == s2.deep_view(),
            forall|t: &[Vec<Cell>], i: int, j: int|
                (i > 0 || j > 0) && snapshot(t@, a, b, i, j) ==> hook.requires((t,)),
            snapshot(table@, a, b, 0, j - 1),
        decreases n2 + 1 - j,
    {
        let ghost before = table@;
        table[0][j] = Some((j, Action::Add(j, s2[j - 1].clone())));
        proof {
            lemma_write_keeps(before, table@, a, b, 0, j as int);
            assert(snapshot(table@, a, b, 0, j as int));
        }
        hook(table.as_slice());
        j += 1;
    }

    let mut i: usize = 1;
    while i <= n1
        invariant
            1 <= i <= n1 + 1,
            n1 == s1@.len(),
            n2 == s2@.len(),
            n1 < usize::MAX,
            n2 < usize::MAX,
            a == s1.deep_view(),
            b == s2.deep_view(),
            forall|t: &[Vec<Cell>], i: int, j: int|
                (i > 0 || j > 0) && snapshot(t@, a, b, i, j) ==> hook.requires((t,)),
            rectangular(table@, (n1 + 1) as nat, (n2 + 1) as nat),
            forall|r: int, c: int|
                0 <= r <= n1 && 0 <= c <= n2 && (r == 0 || (c == 0 && r < i)) ==> #[trigger] cell_holds(
                    table@,
                    a,
                    b,
                    r,
                    c,
                ),
            forall|r: int, c: int|
                0 <= r <= n1 && 0 <= c <= n2 && !(r == 0 || (c == 0 && r < i))
                    ==> #[trigger] cell_empty(table@, r, c),
        decreases n1 + 1 - i,
    {
        let ghost before = table@;
        table[i][0] = Some((i, Action::Remove(i, s1[i - 1].clone())));
        proof {
            lemma_write_keeps(before, table@, a, b, i as int, 0);
            assert(snapshot(table@, a, b, i as int, 0));
        }
        hook(table.as_slice());
        i += 1;
    }

    let mut i: usize = 1;
    while i <= n1
        invariant
            1 <= i <= n1 + 1,
            n1 == s1@.len(),
            n2 == s2@.len(),
            n1 < usize::MAX,
            n2 < usize::MAX,
            a == s1.deep_view(),
            b == s2.deep_view(),
            forall|t: &[Vec<Cell>], i: int, j: int|
                (i > 0 || j > 0) && snapshot(t@, a, b, i, j) ==> hook.requires((t,)),
            rectangular(table@, (n1 + 1) as nat, (n2 + 1) as nat),
            forall|r: int, c: int|
                0 <= r <= n1 && 0 <= c <= n2 && (r == 0 || c == 0 || r < i) ==> #[trigger] cell_holds(
                    table@,
                    a,
                    b,
                    r,
                    c,
                ),
            forall|r: int, c: int|
                0 <= r <= n1 && 0 <= c <= n2 && !(r == 0 || c == 0 || r < i)
                    ==> #[trigger] cell_empty(table@, r, c),
        decreases n1 + 1 - i,
    {
        let mut j: usize = 1;
        while j <= n2
            invariant
                1 <= i <= n1,
                1 <= j <= n2 + 1,
                n1 == s1@.len(),
                n2 == s2@.len(),
                n1 < usize::MAX,
                n2 < usize::MAX,
                a == s1.deep_view(),
                b == s2.deep_view(),
                forall|t: &[Vec<Cell>], i: int, j: int|
                    (i > 0 || j > 0) && snapshot(t@, a, b, i, j) ==> hook.requires((t,)),
                rectangular(table@, (n1 + 1) as nat, (n2 + 1) as nat),
                forall|r: int, c: int|
                    0 <= r <= n1 && 0 <= c <= n2 && (r == 0 || c == 0 || r < i || (r == i && c
                        < j)) ==> #[trigger] cell_holds(table@, a, b, r, c),
                forall|r: int, c: int|
                    0 <= r <= n1 && 0 <= c <= n2 && !(r == 0 || c == 0 || r < i || (r == i && c
                        < j)) ==> #[trigger] cell_empty(table@, r, c),
            decreases n2 + 1 - j,
        {
            assert(cell_holds(table@, a, b, i - 1, j - 1));
            assert(cell_holds(table@, a, b, i - 1, j as int));
            assert(cell_holds(table@, a, b, i as int, j - 1));
            proof {
                lemma_distance_bound(a, b, (i - 1) as nat, (j - 1) as nat);
                lemma_distance_bound(a, b, (i - 1) as nat, j as nat);
                lemma_distance_bound(a, b, i as nat, (j - 1) as nat);
            }
            let cell: (usize, Action) = if s1[i - 1] == s2[j - 1] {
                (cost_at(&table, i - 1, j - 1), Action::Ignore(j, s1[i - 1].clone()))
            } else {
                let by_remove: usize = 1 + cost_at(&table, i - 1, j);
                let by_add: usize = 1 + cost_at(&table, i, j - 1);
                let by_substitute: usize = 1 + cost_at(&table, i - 1, j - 1);
                if by_remove <= by_add && by_remove <= by_substitute {
                    (by_remove, Action::Remove(i, s1[i - 1].clone()))
                } else if by_add <= by_substitute {
                    (by_add, Action::Add(j, s2[j - 1].clone()))
                } else {
                    (by_substitute, Action::Substitute(j, s1[i - 1].clone(), s2[j - 1].clone()))
                }
            };
            let ghost before = table@;
            table[i][j] = Some(cell);
            proof {
                lemma_write_keeps(before, table@, a, b, i as int, j as int);
                assert(snapshot(table@, a, b, i as int, j as int));
            }
            hook(table.as_slice());
            j += 1;
        }
        i += 1;
    }
    table
}

} // verus!

//! What a script of operations means: what it costs, how much of a sequence of
//! lines it uses up, and what it makes of that sequence.

use vstd::prelude::*;
use crate::edit::Edit;

verus! {

/// The cost of a script: the number of its operations that change something.
pub open spec fn changes(ops: Seq<Edit>) -> nat
    decreases ops.len(),
{
    if ops.len() == 0 {
        0
    } else {
        ops[0].cost() + changes(ops.drop_first())
    }
}

/// The number of lines that a script uses up.
pub open spec fn consumed(ops: Seq<Edit>) -> nat
    decreases ops.len(),
{
    if ops.len() == 0 {
        0
    } else {
        ops[0].consumed() + consumed(ops.drop_first())
    }
}

/// The lines after the first one; of no lines, none.
pub open spec fn after_first(lines: Seq<Seq<char>>) -> Seq<Seq<char>> {
    if lines.len() == 0 {
        lines
    } else {
        lines.drop_first()
    }
}

/// What one operation puts out when it meets `lines`: an insertion its own
/// line, a substitution its new line in place of the first, a kept line the
/// first line itself, a removal nothing. Where no line is left, only an
/// insertion puts anything out.
pub open spec fn output(op: Edit, lines: Seq<Seq<char>>) -> Seq<Seq<char>> {
    match op {
        Edit::Add(_, text) => seq![text],
        Edit::Remove(_, _) => Seq::empty(),
        Edit::Substitute(_, _, new_text) => if lines.len() == 0 {
            Seq::empty()
        } else {
            seq![new_text]
        },
        Edit::Ignore(_, _) => if lines.len() == 0 {
            Seq::empty()
        } else {
            seq![lines[0]]
        },
    }
}

/// The lines that are left for the operations after `op`.
pub open spec fn left_over(op: Edit, lines: Seq<Seq<char>>) -> Seq<Seq<char>> {
    match op {
        Edit::Add(_, _) => lines,
        _ => after_first(lines),
    }
}

/// The result of applying a script to `lines`, one operation after the other
/// from the first line on. Lines that the script does not reach stay.
pub open spec fn apply(ops: Seq<Edit>, lines: Seq<Seq<char>>) -> Seq<Seq<char>>
    decreases ops.len(),
{
    if ops.len() == 0 {
        lines
    } else {
        output(ops[0], lines) + apply(ops.drop_first(), left_over(ops[0], lines))
    }
}

/// The script is an edit script from `a` to `b`: it uses up every line of `a`,
/// and applied to `a` it gives `b`.
pub open spec fn turns(ops: Seq<Edit>, a: Seq<Seq<char>>, b: Seq<Seq<char>>) -> bool {
    &&& consumed(ops) == a.len()
    &&& apply(ops, a) == b
}

/// The cost of two scripts in a row is the sum of their costs.
pub proof fn lemma_changes_concat(x: Seq<Edit>, y: Seq<Edit>)
    ensures
        changes(x + y) == changes(x) + changes(y),
    decreases x.len(),
{
    if x.len() == 0 {
        assert(x + y =~= y);
    } else {
        assert((x + y).drop_first() =~= x.drop_first() + y);
        lemma_changes_concat(x.drop_first(), y);
    }
}

/// Two scripts in a row use up what each uses up.
pub proof fn lemma_consumed_concat(x: Seq<Edit>, y: Seq<Edit>)
    ensures
        consumed(x + y) == consumed(x) + consumed(y),
    decreases x.len(),
{
    if x.len() == 0 {
        assert(x + y =~= y);
    } else {
        assert((x + y).drop_first() =~= x.drop_first() + y);
        lemma_consumed_concat(x.drop_first(), y);
    }
}

/// Applying two scripts in a row: the first works on the lines that it uses
/// up, the second on the rest.
pub proof fn lemma_apply_concat(x: Seq<Edit>, y: Seq<Edit>, lines: Seq<Seq<char>>)
    requires
        consumed(x) <= lines.len(),
    ensures
        apply(x + y, lines) == apply(x, lines.take(consumed(x) as int)) + apply(
            y,
            lines.skip(consumed(x) as int),
        ),
    decreases x.len(),
{
    let used = consumed(x) as int;
    if x.len() == 0 {
        assert(x + y =~= y);
        assert(lines.take(0) =~= Seq::<Seq<char>>::empty());
        assert(lines.skip(0) =~= lines);
        assert(apply(x, lines.take(0)) =~= Seq::<Seq<char>>::empty());
        assert(apply(x + y, lines) =~= apply(x, lines.take(used)) + apply(y, lines.skip(used)));
    } else {
        let head = x[0];
        let tail = x.drop_first();
        let rest = left_over(head, lines);
        let tail_used = consumed(tail) as int;
        assert((x + y).drop_first() =~= tail + y);
        assert((x + y)[0] == head);
        lemma_apply_concat(tail, y, rest);
        assert(left_over(head, lines.take(used)).take(tail_used) =~= rest.take(tail_used));
        assert(left_over(head, lines.take(used)) =~= rest.take(tail_used));
        assert(lines.skip(used) =~= rest.skip(tail_used));
        assert(output(head, lines) =~= output(head, lines.take(used)));
        assert(apply(x + y, lines) =~= output(head, lines) + (apply(tail, rest.take(tail_used))
            + apply(y, rest.skip(tail_used))));
        assert(apply(x, lines.take(used)) =~= output(head, lines.take(used)) + apply(
            tail,
            left_over(head, lines.take(used)),
        ));
    }
}

/// A script with one more operation at its end, on lines that the longer
/// script uses up: the cost and the lines used add up, and the last operation
/// works on what the others left.
pub proof fn lemma_push(ops: Seq<Edit>, op: Edit, lines: Seq<Seq<char>>)
    requires
        consumed(ops) + op.consumed() == lines.len(),
    ensures
        changes(ops.push(op)) == changes(ops) + op.cost(),
        consumed(ops.push(op)) == lines.len(),
        apply(ops.push(op), lines) == apply(ops, lines.take(consumed(ops) as int)) + output(
            op,
            lines.skip(consumed(ops) as int),
        ),
{
    let last = seq![op];
    let rest = lines.skip(consumed(ops) as int);
    assert(ops.push(op) =~= ops + last);
    assert(last.drop_first() =~= Seq::<Edit>::empty());
    assert(changes(last.drop_first()) == 0);
    assert(consumed(last.drop_first()) == 0);
    assert(changes(last) == op.cost());
    assert(consumed(last) == op.consumed());
    lemma_changes_concat(ops, last);
    lemma_consumed_concat(ops, last);
    lemma_apply_concat(ops, last, lines);
    assert(left_over(op, rest) =~= Seq::<Seq<char>>::empty());
    assert(apply(last.drop_first(), left_over(op, rest)) =~= Seq::<Seq<char>>::empty());
    assert(apply(last, rest) =~= output(op, rest));
}

} // verus!

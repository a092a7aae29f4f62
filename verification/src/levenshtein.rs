//! The Levenshtein distance of two sequences of lines by its textbook
//! recursion on their first lines, as a second account of the edit distance
//! beside the table's.

use vstd::prelude::*;
use crate::apply::{apply, changes, left_over, output, turns};
use crate::distance::least;
use crate::edit::Edit;

verus! {

/// The Levenshtein distance of `a` and `b`: with no lines on one side, the
/// number of lines on the other; with the same first line, the distance of
/// what follows; else one more than the least distance after a removal, an
/// insertion or a substitution at the front.
pub open spec fn levenshtein(a: Seq<Seq<char>>, b: Seq<Seq<char>>) -> nat
    decreases a.len() + b.len(),
{
    if a.len() == 0 {
        b.len()
    } else if b.len() == 0 {
        a.len()
    } else if a[0] == b[0] {
        levenshtein(a.drop_first(), b.drop_first())
    } else {
        1 + least(
            levenshtein(a.drop_first(), b),
            levenshtein(a, b.drop_first()),
            levenshtein(a.drop_first(), b.drop_first()),
        )
    }
}

/// A first line more or less on either side changes the Levenshtein distance
/// by at most one.
pub proof fn lemma_levenshtein_neighbours(a: Seq<Seq<char>>, b: Seq<Seq<char>>)
    ensures
        a.len() > 0 ==> levenshtein(a, b) <= levenshtein(a.drop_first(), b) + 1,
        a.len() > 0 ==> levenshtein(a.drop_first(), b) <= levenshtein(a, b) + 1,
        b.len() > 0 ==> levenshtein(a, b) <= levenshtein(a, b.drop_first()) + 1,
        b.len() > 0 ==> levenshtein(a, b.drop_first()) <= levenshtein(a, b) + 1,
    decreases a.len() + b.len(),
{
    if a.len() > 0 {
        lemma_levenshtein_neighbours(a.drop_first(), b);
    }
    if b.len() > 0 {
        lemma_levenshtein_neighbours(a, b.drop_first());
    }
}

/// A sequence is at distance zero from itself.
pub proof fn lemma_levenshtein_of_equal(a: Seq<Seq<char>>)
    ensures
        levenshtein(a, a) == 0,
    decreases a.len(),
{
    if a.len() > 0 {
        lemma_levenshtein_of_equal(a.drop_first());
    }
}

/// No script that makes `b` of `a` costs less than their Levenshtein
/// distance, whether or not it uses up all of `a`.
pub proof fn lemma_levenshtein_is_least(ops: Seq<Edit>, a: Seq<Seq<char>>, b: Seq<Seq<char>>)
    requires
        apply(ops, a) == b,
    ensures
        levenshtein(a, b) <= changes(ops),
    decreases ops.len(),
{
    if ops.len() == 0 {
        lemma_levenshtein_of_equal(a);
    } else {
        let rest = ops.drop_first();
        let out = output(ops[0], a);
        let left = left_over(ops[0], a);
        let made = apply(rest, left);
        assert(b == out + made);
        lemma_levenshtein_is_least(rest, left, made);
        lemma_levenshtein_neighbours(a, b);
        if out.len() > 0 {
            assert(b.drop_first() =~= made);
            assert(b[0] == out[0]);
        } else {
            assert(b =~= made);
        }
    }
}

/// A script that follows the textbook recursion from the front.
spec fn front_script(a: Seq<Seq<char>>, b: Seq<Seq<char>>) -> Seq<Edit>
    decreases a.len() + b.len(),
{
    if a.len() == 0 && b.len() == 0 {
        Seq::empty()
    } else if a.len() == 0 {
        seq![Edit::Add(0, b[0])] + front_script(a, b.drop_first())
    } else if b.len() == 0 {
        seq![Edit::Remove(0, a[0])] + front_script(a.drop_first(), b)
    } else if a[0] == b[0] {
        seq![Edit::Ignore(0, a[0])] + front_script(a.drop_first(), b.drop_first())
    } else {
        let by_remove = levenshtein(a.drop_first(), b);
        let by_add = levenshtein(a, b.drop_first());
        let by_substitute = levenshtein(a.drop_first(), b.drop_first());
        if by_remove <= by_add && by_remove <= by_substitute {
            seq![Edit::Remove(0, a[0])] + front_script(a.drop_first(), b)
        } else if by_add <= by_substitute {
            seq![Edit::Add(0, b[0])] + front_script(a, b.drop_first())
        } else {
            seq![Edit::Substitute(0, a[0], b[0])] + front_script(a.drop_first(), b.drop_first())
        }
    }
}

/// The script that follows the textbook recursion turns `a` into `b` at the
/// cost of their Levenshtein distance.
proof fn lemma_front_script(a: Seq<Seq<char>>, b: Seq<Seq<char>>)
    ensures
        turns(front_script(a, b), a, b),
        changes(front_script(a, b)) == levenshtein(a, b),
    decreases a.len() + b.len(),
{
    let ops = front_script(a, b);
    if a.len() == 0 && b.len() == 0 {
        assert(a =~= b);
    } else {
        let first = ops[0];
        let left = left_over(first, a);
        let rest_b = if first is Remove {
            b
        } else {
            b.drop_first()
        };
        lemma_front_script(left, rest_b);
        assert(ops.drop_first() =~= front_script(left, rest_b));
        assert(b =~= output(first, a) + rest_b);
    }
}

/// Some script turns `a` into `b` at the cost of their Levenshtein distance.
pub proof fn lemma_levenshtein_is_reached(a: Seq<Seq<char>>, b: Seq<Seq<char>>)
    ensures
        exists|ops: Seq<Edit>| #[trigger] turns(ops, a, b) && changes(ops) == levenshtein(a, b),
{
    lemma_front_script(a, b);
    assert(turns(front_script(a, b), a, b));
}

} // verus!

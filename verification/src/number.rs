//! Numbers as text: decimal digits, set to the right in a field of a given
//! width.

use vstd::prelude::*;

verus! {

/// The character of one decimal digit.
pub open spec fn digit(d: nat) -> char {
    if d == 0 {
        '0'
    } else if d == 1 {
        '1'
    } else if d == 2 {
        '2'
    } else if d == 3 {
        '3'
    } else if d == 4 {
        '4'
    } else if d == 5 {
        '5'
    } else if d == 6 {
        '6'
    } else if d == 7 {
        '7'
    } else if d == 8 {
        '8'
    } else {
        '9'
    }
}

/// The decimal digits of `n`, without leading zeros.
pub open spec fn decimal(n: nat) -> Seq<char>
    decreases n,
{
    if n < 10 {
        seq![digit(n)]
    } else {
        decimal(n / 10).push(digit(n % 10))
    }
}

/// `count` blanks.
pub open spec fn blanks(count: nat) -> Seq<char> {
    Seq::new(count, |k: int| ' ')
}

/// `text` set to the right in a field of `width` characters: blanks come
/// before it as far as it is shorter, and a longer text stays whole.
pub open spec fn right_aligned(text: Seq<char>, width: nat) -> Seq<char> {
    if text.len() >= width {
        text
    } else {
        blanks((width - text.len()) as nat) + text
    }
}

/// The text of one decimal digit.
fn digit_text(d: usize) -> (text: &'static str)
    requires
        d < 10,
    ensures
        text@ == seq![digit(d as nat)],
{
    proof {
        reveal_strlit("0");
        reveal_strlit("1");
        reveal_strlit("2");
        reveal_strlit("3");
        reveal_strlit("4");
        reveal_strlit("5");
        reveal_strlit("6");
        reveal_strlit("7");
        reveal_strlit("8");
        reveal_strlit("9");
    }
    let text = if d == 0 {
        "0"
    } else if d == 1 {
        "1"
    } else if d == 2 {
        "2"
    } else if d == 3 {
        "3"
    } else if d == 4 {
        "4"
    } else if d == 5 {
        "5"
    } else if d == 6 {
        "6"
    } else if d == 7 {
        "7"
    } else if d == 8 {
        "8"
    } else {
        "9"
    };
    assert(text@ =~= seq![digit(d as nat)]);
    text
}

/// The digits of `n` from the last to the first.
fn digits_reversed(n: usize) -> (digits: Vec<usize>)
    ensures
        digits@.len() == decimal(n as nat).len(),
        forall|k: int|
            0 <= k < digits@.len() ==> #[trigger] digits@[k] < 10 && digit(digits@[k] as nat)
                == decimal(n as nat)[digits@.len() - 1 - k],
{
    let mut digits: Vec<usize> = Vec::new();
    let mut rest: usize = n;
    let ghost all = decimal(n as nat);
    let ghost mut done: Seq<char> = Seq::empty();
    while rest >= 10
        invariant
            all == decimal(rest as nat) + done,
            done.len() == digits@.len(),
            forall|k: int|
                0 <= k < digits@.len() ==> #[trigger] digits@[k] < 10 && digit(digits@[k] as nat)
                    == done[done.len() - 1 - k],
        decreases rest,
    {
        proof {
            let shorter = decimal((rest / 10) as nat);
            let last = digit((rest % 10) as nat);
            assert(decimal(rest as nat) == shorter.push(last));
            assert(all =~= shorter + (seq![last] + done));
            done = seq![last] + done;
        }
        digits.push(rest % 10);
        rest = rest / 10;
    }
    proof {
        assert(all =~= Seq::<char>::empty() + (seq![digit(rest as nat)] + done));
        done = seq![digit(rest as nat)] + done;
        assert(all =~= done);
    }
    digits.push(rest);
    digits
}

/// The decimal digits of `n`, set to the right in a field of `width`
/// characters.
pub fn pad_number(n: usize, width: usize) -> (text: String)
    ensures
        text@ == right_aligned(decimal(n as nat), width as nat),
{
    let digits = digits_reversed(n);
    let mut text = String::new();
    let mut filled: usize = digits.len();
    while filled < width
        invariant
            digits@.len() <= filled,
            filled <= width || filled == digits@.len(),
            text@ == blanks((filled - digits@.len()) as nat),
        decreases width - filled,
    {
        proof {
            reveal_strlit(" ");
        }
        text.append(" ");
        filled += 1;
        assert(text@ =~= blanks((filled - digits@.len()) as nat));
    }
    let ghost lead = text@;
    let ghost all = decimal(n as nat);
    let mut k: usize = digits.len();
    while k > 0
        invariant
            k <= digits@.len(),
            digits@.len() == all.len(),
            forall|m: int|
                0 <= m < digits@.len() ==> #[trigger] digits@[m] < 10 && digit(digits@[m] as nat)
                    == all[digits@.len() - 1 - m],
            text@ == lead + all.take(all.len() - k),
        decreases k,
    {
        k -= 1;
        text.append(digit_text(digits[k]));
        assert(text@ =~= lead + all.take(all.len() - k));
    }
    assert(all.take(all.len() as int) =~= all);
    assert(text@ =~= right_aligned(all, width as nat));
    text
}

} // verus!

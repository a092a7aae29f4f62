use linediff::edit::Action;
use linediff::script::lev;

fn lines(items: &[&str]) -> Vec<String> {
    items.iter().map(|s| s.to_string()).collect()
}

fn cost(script: &[Action]) -> usize {
    script.iter().filter(|a| !matches!(a, Action::Ignore(_, _))).count()
}

/// Applies a script to `source`, from its first line on.
fn apply(script: &[Action], source: &[String]) -> Vec<String> {
    let mut out = Vec::new();
    let mut at = 0;
    for action in script {
        match action {
            Action::Ignore(_, text) => {
                assert_eq!(&source[at], text);
                out.push(source[at].clone());
                at += 1;
            }
            Action::Add(_, text) => out.push(text.clone()),
            Action::Remove(_, text) => {
                assert_eq!(&source[at], text);
                at += 1;
            }
            Action::Substitute(_, old_text, new_text) => {
                assert_eq!(&source[at], old_text);
                out.push(new_text.clone());
                at += 1;
            }
        }
    }
    assert_eq!(at, source.len());
    out
}

/// The edit distance by the textbook recursion on the first elements.
fn levenshtein(a: &[String], b: &[String]) -> usize {
    if a.is_empty() {
        return b.len();
    }
    if b.is_empty() {
        return a.len();
    }
    if a[0] == b[0] {
        return levenshtein(&a[1..], &b[1..]);
    }
    1 + levenshtein(&a[1..], b)
        .min(levenshtein(a, &b[1..]))
        .min(levenshtein(&a[1..], &b[1..]))
}

fn samples() -> Vec<(Vec<String>, Vec<String>)> {
    let texts: [&[&str]; 9] = [
        &[],
        &["a"],
        &["b"],
        &["a", "b"],
        &["b", "a"],
        &["a", "b", "c"],
        &["a", "x", "c", "d"],
        &["c", "c", "a", "b"],
        &["x", "y", "z", "a", "b"],
    ];
    let mut pairs = Vec::new();
    for first in texts {
        for second in texts {
            pairs.push((lines(first), lines(second)));
        }
    }
    pairs
}

#[test]
fn a_sequence_against_itself_is_kept_line_by_line() {
    let s = lines(&["one", "two", "two", "three"]);
    let script = lev(&s, &s);
    assert_eq!(
        script,
        vec![
            Action::Ignore(1, "one".to_string()),
            Action::Ignore(2, "two".to_string()),
            Action::Ignore(3, "two".to_string()),
            Action::Ignore(4, "three".to_string()),
        ]
    );
}

#[test]
fn from_nothing_every_line_is_added() {
    let script = lev(&lines(&[]), &lines(&["p", "q", "r"]));
    assert_eq!(
        script,
        vec![
            Action::Add(1, "p".to_string()),
            Action::Add(2, "q".to_string()),
            Action::Add(3, "r".to_string()),
        ]
    );
}

#[test]
fn to_nothing_every_line_is_removed() {
    let script = lev(&lines(&["p", "q", "r"]), &lines(&[]));
    assert_eq!(
        script,
        vec![
            Action::Remove(1, "p".to_string()),
            Action::Remove(2, "q".to_string()),
            Action::Remove(3, "r".to_string()),
        ]
    );
}

#[test]
fn the_cost_of_the_script_is_the_edit_distance() {
    for (a, b) in samples() {
        let script = lev(&a, &b);
        assert_eq!(cost(&script), levenshtein(&a, &b));
    }
    let script = lev(
        &lines(&["k", "i", "t", "t", "e", "n"]),
        &lines(&["s", "i", "t", "t", "i", "n", "g"]),
    );
    assert_eq!(cost(&script), 3);
}

#[test]
fn the_script_turns_the_first_sequence_into_the_second() {
    for (a, b) in samples() {
        let script = lev(&a, &b);
        assert_eq!(apply(&script, &a), b);
    }
}

#[test]
fn the_script_is_no_longer_than_both_sequences() {
    for (a, b) in samples() {
        let script = lev(&a, &b);
        assert!(script.len() <= a.len() + b.len());
    }
}

#[test]
fn the_same_input_gives_the_same_script() {
    for (a, b) in samples() {
        assert_eq!(lev(&a, &b), lev(&a, &b));
    }
}

/// The table and the walk back, written out plainly, to compare whole scripts.
fn by_the_book(a: &[String], b: &[String]) -> Vec<Action> {
    let (n1, n2) = (a.len(), b.len());
    let mut costs = vec![vec![0usize; n2 + 1]; n1 + 1];
    for i in 0..=n1 {
        for j in 0..=n2 {
            costs[i][j] = if i == 0 {
                j
            } else if j == 0 {
                i
            } else if a[i - 1] == b[j - 1] {
                costs[i - 1][j - 1]
            } else {
                1 + costs[i - 1][j].min(costs[i][j - 1]).min(costs[i - 1][j - 1])
            };
        }
    }
    let mut script = Vec::new();
    let (mut i, mut j) = (n1, n2);
    while i > 0 || j > 0 {
        if i == 0 {
            script.push(Action::Add(j, b[j - 1].clone()));
            j -= 1;
        } else if j == 0 {
            script.push(Action::Remove(i, a[i - 1].clone()));
            i -= 1;
        } else if a[i - 1] == b[j - 1] {
            script.push(Action::Ignore(j, a[i - 1].clone()));
            i -= 1;
            j -= 1;
        } else if costs[i - 1][j] <= costs[i][j - 1] && costs[i - 1][j] <= costs[i - 1][j - 1] {
            script.push(Action::Remove(i, a[i - 1].clone()));
            i -= 1;
        } else if costs[i][j - 1] <= costs[i - 1][j - 1] {
            script.push(Action::Add(j, b[j - 1].clone()));
            j -= 1;
        } else {
            script.push(Action::Substitute(j, a[i - 1].clone(), b[j - 1].clone()));
            i -= 1;
            j -= 1;
        }
    }
    script.reverse();
    script
}

/// Sequences over three letters, from a fixed seed.
fn scrambled(count: usize) -> Vec<Vec<String>> {
    let mut state: u64 = 0x2545_f491_4f6c_dd1d;
    let mut next = move || {
        state ^= state << 13;
        state ^= state >> 7;
        state ^= state << 17;
        state
    };
    let mut all = Vec::new();
    for _ in 0..count {
        let len = (next() % 7) as usize;
        let seq = (0..len).map(|_| ["a", "b", "c"][(next() % 3) as usize].to_string()).collect();
        all.push(seq);
    }
    all
}

#[test]
fn whole_scripts_agree_with_the_table_written_out_plainly() {
    let sequences = scrambled(40);
    for a in &sequences {
        for b in &sequences {
            let script = lev(a, b);
            assert_eq!(script, by_the_book(a, b));
            assert_eq!(apply(&script, a), *b);
            assert_eq!(cost(&script), levenshtein(a, b));
        }
    }
}

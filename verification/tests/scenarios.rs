use linediff::edit::Action;
use linediff::script::lev;

fn lines(items: &[&str]) -> Vec<String> {
    items.iter().map(|s| s.to_string()).collect()
}

fn add(pos: usize, text: &str) -> Action {
    Action::Add(pos, text.to_string())
}

fn remove(pos: usize, text: &str) -> Action {
    Action::Remove(pos, text.to_string())
}

fn substitute(pos: usize, old_text: &str, new_text: &str) -> Action {
    Action::Substitute(pos, old_text.to_string(), new_text.to_string())
}

fn ignore(pos: usize, text: &str) -> Action {
    Action::Ignore(pos, text.to_string())
}

#[test]
fn substitute_wins_when_it_alone_is_cheapest() {
    let script = lev(&lines(&["a"]), &lines(&["b"]));
    assert_eq!(script, vec![substitute(1, "a", "b")]);
}

#[test]
fn remove_wins_a_tie_with_substitute() {
    // In the last cell removing "b" and substituting it both cost 2.
    let script = lev(&lines(&["a", "b"]), &lines(&["c"]));
    assert_eq!(script, vec![substitute(1, "a", "c"), remove(2, "b")]);
}

#[test]
fn add_wins_a_tie_with_substitute() {
    // In the last cell inserting "c" and substituting it both cost 2.
    let script = lev(&lines(&["a"]), &lines(&["b", "c"]));
    assert_eq!(script, vec![substitute(1, "a", "b"), add(2, "c")]);
}

#[test]
fn one_line_changed_in_the_middle() {
    let script = lev(&lines(&["a", "b", "c"]), &lines(&["a", "x", "c"]));
    assert_eq!(script, vec![ignore(1, "a"), substitute(2, "b", "x"), ignore(3, "c")]);
    assert_eq!(script.iter().filter(|a| !matches!(a, Action::Ignore(_, _))).count(), 1);
}

#[test]
fn last_line_removed() {
    let script = lev(&lines(&["a", "b"]), &lines(&["a"]));
    assert_eq!(script, vec![ignore(1, "a"), remove(2, "b")]);
    assert_eq!(script.iter().filter(|a| !matches!(a, Action::Ignore(_, _))).count(), 1);
}

#[test]
fn first_line_removed() {
    let script = lev(&lines(&["x", "a"]), &lines(&["a"]));
    assert_eq!(script, vec![remove(1, "x"), ignore(1, "a")]);
}

#[test]
fn last_line_added() {
    let script = lev(&lines(&["a"]), &lines(&["a", "x"]));
    assert_eq!(script, vec![ignore(1, "a"), add(2, "x")]);
}

#[test]
fn lines_shifted_by_one() {
    let script = lev(&lines(&["a", "b", "c"]), &lines(&["b", "c", "d"]));
    assert_eq!(script, vec![remove(1, "a"), ignore(1, "b"), ignore(2, "c"), add(3, "d")]);
}

#[test]
fn positions_are_table_coordinates() {
    // A removal carries its row, the other operations their column.
    let script = lev(&lines(&["a", "b", "c", "d"]), &lines(&["x", "b", "y"]));
    assert_eq!(
        script,
        vec![substitute(1, "a", "x"), ignore(2, "b"), substitute(3, "c", "y"), remove(4, "d")]
    );
}

#[test]
fn kitten_to_sitting() {
    let script = lev(
        &lines(&["k", "i", "t", "t", "e", "n"]),
        &lines(&["s", "i", "t", "t", "i", "n", "g"]),
    );
    assert_eq!(
        script,
        vec![
            substitute(1, "k", "s"),
            ignore(2, "i"),
            ignore(3, "t"),
            ignore(4, "t"),
            substitute(5, "e", "i"),
            ignore(6, "n"),
            add(7, "g"),
        ]
    );
}

#[test]
fn two_empty_sequences_give_an_empty_script() {
    let script = lev(&lines(&[]), &lines(&[]));
    assert_eq!(script, Vec::<Action>::new());
}

#[test]
fn lines_are_compared_whole() {
    let script = lev(&lines(&["hello world"]), &lines(&["hello  world"]));
    assert_eq!(script, vec![substitute(1, "hello world", "hello  world")]);
}

#[test]
fn a_clone_of_an_action_is_equal_to_it() {
    for action in [add(3, "x"), remove(4, "y"), substitute(5, "p", "q"), ignore(6, "z")] {
        assert_eq!(action.clone(), action);
    }
}

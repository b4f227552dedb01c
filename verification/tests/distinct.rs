use okto::distinct::{first_occurrences, unique_texts};

fn strings(v: &[&str]) -> Vec<String> {
    v.iter().map(|s| s.to_string()).collect()
}

#[test]
fn unique_keeps_first_occurrences_in_order() {
    assert_eq!(unique_texts(&strings(&["b", "a", "b", "c", "a"])), strings(&["b", "a", "c"]));
    assert_eq!(unique_texts(&strings(&[])), strings(&[]));
    assert_eq!(unique_texts(&strings(&["x", "x", "x"])), strings(&["x"]));
}

#[test]
fn first_occurrences_are_positions() {
    assert_eq!(first_occurrences(&strings(&["x", "x", "y", "x", "z"])), vec![0, 2, 4]);
    assert_eq!(first_occurrences(&strings(&[])), Vec::<usize>::new());
}

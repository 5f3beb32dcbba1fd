use cve_reconcile::text::join_with;

fn pieces(parts: &[&str]) -> Vec<String> {
    parts.iter().map(|part| part.to_string()).collect()
}

#[test]
fn joining_nothing_gives_nothing() {
    assert_eq!(join_with(&pieces(&[]), " | "), "");
}

#[test]
fn single_piece_has_no_separator() {
    assert_eq!(join_with(&pieces(&["one"]), " | "), "one");
}

#[test]
fn separator_stands_between_neighbours() {
    assert_eq!(join_with(&pieces(&["a", "b", "c"]), " | "), "a | b | c");
}

#[test]
fn empty_pieces_keep_their_place() {
    assert_eq!(join_with(&pieces(&["", "b", ""]), "-"), "-b-");
    assert_eq!(join_with(&pieces(&["", ""]), ""), "");
}

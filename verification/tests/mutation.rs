use truent::mutation::{mutate_source, Mutation};

const SRC: &str = "a\nbb\nccc\nd";

#[test]
fn each_mutation_changes_the_lines() {
    assert_eq!(mutate_source(SRC, &[Mutation::Delete(1)]).unwrap(), "a\nccc\nd");
    assert_eq!(mutate_source(SRC, &[Mutation::Duplicate(0)]).unwrap(), "a\na\nbb\nccc\nd");
    assert_eq!(mutate_source(SRC, &[Mutation::Truncate(2, 1)]).unwrap(), "a\nbb\nc\nd");
    assert_eq!(mutate_source(SRC, &[Mutation::Swap(0, 3)]).unwrap(), "d\nbb\nccc\na");
}

#[test]
fn truncation_backs_off_to_a_character_start() {
    // "é" takes two bytes: a cut after its first byte keeps nothing of it.
    assert_eq!(mutate_source("xé", &[Mutation::Truncate(0, 2)]).unwrap(), "x");
    assert_eq!(mutate_source("xé", &[Mutation::Truncate(0, 1)]).unwrap(), "x");
    assert_eq!(mutate_source("xé", &[Mutation::Truncate(0, 0)]).unwrap(), "");
}

#[test]
fn mutations_apply_in_turn_and_stop_when_no_line_is_left() {
    let out = mutate_source("one\ntwo", &[Mutation::Delete(0), Mutation::Delete(0), Mutation::Delete(5)]);
    assert_eq!(out.unwrap(), "");
    let out = mutate_source("one\ntwo", &[Mutation::Swap(0, 1), Mutation::Delete(1)]);
    assert_eq!(out.unwrap(), "two");
}

#[test]
fn picks_outside_the_lines_are_refused_and_empty_sources_kept() {
    assert!(mutate_source(SRC, &[Mutation::Delete(4)]).is_none());
    assert!(mutate_source(SRC, &[Mutation::Truncate(0, 1)]).is_none());
    assert_eq!(mutate_source("", &[Mutation::Delete(0)]).unwrap(), "");
}

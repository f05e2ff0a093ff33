use rudra::paths::{chars_of, split, PathError, PathMatcher};

fn text(parts: &[&str]) -> Vec<Vec<char>> {
    parts.iter().map(|p| p.chars().collect()).collect()
}

#[test]
fn matcher_accepts_exactly_the_registered_paths() {
    let m = PathMatcher::build(&["a::b::c", "a::b::d"]).unwrap();
    assert!(m.matches("a::b::c"));
    assert!(m.matches("a::b::d"));
    assert!(!m.matches("a::b"));
    assert!(!m.matches("a::b::e"));
}

#[test]
fn matcher_rejects_longer_and_unrelated_candidates() {
    let m = PathMatcher::build(&["a::b::c"]).unwrap();
    assert!(!m.matches("a::b::c::d"));
    assert!(!m.matches("a"));
    assert!(!m.matches(""));
    assert!(!m.matches("x::b::c"));
    assert!(!m.matches("a::b::cc"));
}

#[test]
fn dots_and_double_colons_separate_alike() {
    let m = PathMatcher::build(&["a.b::c"]).unwrap();
    assert!(m.matches("a::b::c"));
    assert!(m.matches("a.b.c"));
    assert!(m.matches("a::b.c"));
    assert!(!m.matches("a:b:c"));
}

#[test]
fn a_prefix_can_be_registered_beside_a_longer_path() {
    let m = PathMatcher::build(&["a::b", "a::b::c"]).unwrap();
    assert!(m.matches("a::b"));
    assert!(m.matches("a::b::c"));
    assert!(!m.matches("a"));
}

#[test]
fn build_refuses_an_empty_path() {
    let r = PathMatcher::build(&["a::b", "", "c"]);
    assert!(matches!(r, Err(PathError::EmptyPath { index: 1 })));
}

#[test]
fn build_names_the_first_empty_path() {
    let r = PathMatcher::build_grouped(&[("", 3), ("", 4)]);
    assert!(matches!(r, Err(PathError::EmptyPath { index: 0 })));
}

#[test]
fn an_empty_catalog_matches_nothing() {
    let m = PathMatcher::build(&[]).unwrap();
    assert!(!m.matches("a"));
    assert!(!m.matches(""));
    assert_eq!(m.match_group("a"), None);
}

#[test]
fn plain_paths_are_in_group_zero() {
    let m = PathMatcher::build(&["a::b"]).unwrap();
    assert_eq!(m.match_group("a::b"), Some(0));
    assert_eq!(m.match_group("a"), None);
}

#[test]
fn match_group_tells_the_groups_apart() {
    let m = PathMatcher::build_grouped(&[("core::ptr::read", 1), ("core::ptr::write", 5)]).unwrap();
    assert_eq!(m.match_group("core::ptr::read"), Some(1));
    assert_eq!(m.match_group("core::ptr::write"), Some(5));
    assert_eq!(m.match_group("core::ptr"), None);
    assert_eq!(m.match_group("core::ptr::copy"), None);
}

#[test]
fn the_later_of_two_equal_paths_counts() {
    let m = PathMatcher::build_grouped(&[("a::b", 1), ("a.b", 2)]).unwrap();
    assert_eq!(m.match_group("a::b"), Some(2));
}

#[test]
fn group_of_takes_symbols_as_they_are() {
    let m = PathMatcher::build_grouped(&[("a::b", 7)]).unwrap();
    assert_eq!(m.group_of(&vec!["a".to_string(), "b".to_string()]), Some(7));
    assert_eq!(m.group_of(&vec!["a::b".to_string()]), None);
    assert_eq!(m.group_of(&vec!["a".to_string()]), None);
    assert_eq!(m.group_of(&vec![]), None);
}

#[test]
fn split_keeps_empty_components() {
    assert_eq!(split("a::b"), text(&["a", "b"]));
    assert_eq!(split(""), text(&[""]));
    assert_eq!(split("::a"), text(&["", "a"]));
    assert_eq!(split("a::"), text(&["a", ""]));
    assert_eq!(split("a::::b"), text(&["a", "", "b"]));
    assert_eq!(split("a..b"), text(&["a", "", "b"]));
}

#[test]
fn a_single_colon_separates_nothing() {
    assert_eq!(split("a:b"), text(&["a:b"]));
    assert_eq!(split("a:::b"), text(&["a", ":b"]));
    assert_eq!(split(":"), text(&[":"]));
}

#[test]
fn split_keeps_what_is_no_separator() {
    assert_eq!(
        split("core::slice::<impl [T]>::get_unchecked"),
        text(&["core", "slice", "<impl [T]>", "get_unchecked"])
    );
}

#[test]
fn chars_of_hands_out_every_character() {
    assert_eq!(chars_of("a::é"), vec!['a', ':', ':', 'é']);
    assert_eq!(chars_of(""), Vec::<char>::new());
}

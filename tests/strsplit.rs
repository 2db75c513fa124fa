use rustbook::strsplit::{until_next, StrSplit};

#[test]
fn basic() {
    let found: Vec<&str> = StrSplit::new("a b c d", " ").collect();
    assert_eq!(found, vec!["a", "b", "c", "d"]);
}

#[test]
fn tail() {
    let found: Vec<&str> = StrSplit::new("a b c d ", " ").collect();
    assert_eq!(found, vec!["a", "b", "c", "d", ""]);
}

#[test]
fn until_next_test() {
    assert_eq!(until_next("hello world", 'o'), "hell");
}

#[test]
fn lib_basic() {
    let found: Vec<&str> = StrSplit::new("a b c d", " ").collect();
    assert_eq!(found, vec!["a", "b", "c", "d"]);
}

#[test]
fn lib_tail() {
    let found: Vec<&str> = StrSplit::new("a b c d ", " ").collect();
    assert_eq!(found, vec!["a", "b", "c", "d", ""]);
}

#[test]
fn lib_until_next_test() {
    assert_eq!(until_next("hello world", 'o'), "hell");
}

#[test]
fn split_by_char_delimiter() {
    let found: Vec<&str> = StrSplit::new("x,y,,z", ',').collect();
    assert_eq!(found, vec!["x", "y", "", "z"]);
}

#[test]
fn split_by_multibyte_delimiters() {
    let found: Vec<&str> = StrSplit::new("a→b→c", '→').collect();
    assert_eq!(found, vec!["a", "b", "c"]);
    let found: Vec<&str> = StrSplit::new("1::2::3", "::").collect();
    assert_eq!(found, vec!["1", "2", "3"]);
}

#[test]
fn split_without_delimiter_yields_whole() {
    let found: Vec<&str> = StrSplit::new("abc", " ").collect();
    assert_eq!(found, vec!["abc"]);
    let found: Vec<&str> = StrSplit::new("", " ").collect();
    assert_eq!(found, vec![""]);
}

#[test]
fn next_stops_after_last_piece() {
    let mut s = StrSplit::new("a b", " ");
    assert_eq!(s.next(), Some("a"));
    assert_eq!(s.next(), Some("b"));
    assert_eq!(s.next(), None);
    assert_eq!(s.next(), None);
}

#[test]
fn until_next_without_char_is_whole() {
    assert_eq!(until_next("hello", 'z'), "hello");
}

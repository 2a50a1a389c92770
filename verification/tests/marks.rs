//! Bookmarks.

use termpdf::marks::{CharMarks, NamedMarks};

#[test]
fn char_marks_insert_replace_and_get() {
    let mut marks = CharMarks::new();
    assert_eq!(marks.len(), 0);
    assert_eq!(marks.get('a'), None);
    marks.insert('a', 3);
    marks.insert('b', 9);
    marks.insert('a', 5);
    assert_eq!(marks.len(), 2);
    assert_eq!(marks.get('a'), Some(5));
    assert_eq!(marks.get('b'), Some(9));
    let mut all = marks.to_vec();
    all.sort();
    assert_eq!(all, vec![('a', 5), ('b', 9)]);
    let copy = marks.clone();
    assert_eq!(copy.get('a'), Some(5));
}

#[test]
fn char_marks_forget_pages_beyond_the_document() {
    let mut marks = CharMarks::new();
    marks.insert('a', 0);
    marks.insert('b', 9);
    marks.insert('c', 10);
    marks.insert('d', 99);
    marks.retain_below(10);
    assert_eq!(marks.len(), 2);
    assert_eq!(marks.get('a'), Some(0));
    assert_eq!(marks.get('b'), Some(9));
    assert_eq!(marks.get('c'), None);
    marks.retain_below(0);
    assert_eq!(marks.len(), 0);
}

#[test]
fn named_marks_insert_replace_and_get() {
    let mut marks = NamedMarks::new();
    marks.insert("intro".to_string(), 1);
    marks.insert("end".to_string(), 40);
    marks.insert("intro".to_string(), 2);
    assert_eq!(marks.len(), 2);
    assert_eq!(marks.get("intro"), Some(2));
    assert_eq!(marks.get("end"), Some(40));
    assert_eq!(marks.get("Intro"), None);
    assert_eq!(marks.get(""), None);
    let mut all = marks.to_vec();
    all.sort();
    assert_eq!(all, vec![("end".to_string(), 40), ("intro".to_string(), 2)]);
    let copy = marks.clone();
    assert_eq!(copy.get("end"), Some(40));
}

#[test]
fn named_marks_forget_pages_beyond_the_document() {
    let mut marks = NamedMarks::new();
    marks.insert("a".to_string(), 5);
    marks.insert("b".to_string(), 6);
    marks.insert("c".to_string(), 4);
    marks.retain_below(6);
    assert_eq!(marks.len(), 2);
    assert_eq!(marks.get("a"), Some(5));
    assert_eq!(marks.get("b"), None);
    assert_eq!(marks.get("c"), Some(4));
}

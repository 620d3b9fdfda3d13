use rustorm::numfmt::fmt_usize;
use rustorm::table::AList;

#[test]
fn decimal_spelling_is_exact() {
    assert_eq!(fmt_usize(0), "0");
    assert_eq!(fmt_usize(7), "7");
    assert_eq!(fmt_usize(10), "10");
    assert_eq!(fmt_usize(12345), "12345");
    assert_eq!(fmt_usize(1000000), "1000000");
    assert_eq!(fmt_usize(usize::MAX), format!("{}", usize::MAX));
}

#[test]
fn table_insert_get_remove() {
    let mut t: AList<usize, String> = AList::new();
    assert_eq!(t.len(), 0);
    t.insert(3, String::from("three"));
    t.insert(5, String::from("five"));
    assert!(t.contains_key(&3));
    assert_eq!(t.get(&3).unwrap(), "three");
    t.insert(3, String::from("tres"));
    assert_eq!(t.len(), 2);
    assert_eq!(t.get(&3).unwrap(), "tres");
    assert_eq!(t.remove(&3), Some(String::from("tres")));
    assert!(!t.contains_key(&3));
    assert_eq!(t.remove(&3), None);
    assert_eq!(t.len(), 1);
}

#[test]
fn string_keyed_table() {
    let mut t: AList<String, usize> = AList::new();
    t.insert(String::from("a"), 1);
    t.insert(String::from("b"), 2);
    assert_eq!(*t.get(&String::from("b")).unwrap(), 2);
    assert!(!t.contains_key(&String::from("c")));
}

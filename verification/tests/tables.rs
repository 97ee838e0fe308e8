use ce_serve::table::{standing, FileTable, Standing};

#[test]
fn table_is_ordered_by_path() {
    let mut t = FileTable::new();
    assert!(t.is_empty());
    for key in ["b", "a/b", "a", "", "\u{10000}", "\u{ffff}", "Z"] {
        t.insert(key.to_string(), format!("cid of {key}"));
    }
    let keys: Vec<&str> = t.entries().iter().map(|row| row.0.as_str()).collect();
    let mut sorted = keys.clone();
    sorted.sort();
    assert_eq!(keys, sorted);
    assert_eq!(t.len(), 7);
    assert!(!t.is_empty());
}

#[test]
fn table_gives_back_what_was_put_in() {
    let mut t = FileTable::new();
    t.insert("a".to_string(), "1".to_string());
    t.insert("b".to_string(), "2".to_string());
    t.insert("a".to_string(), "3".to_string());
    assert_eq!(t.get("a").map(|s| s.as_str()), Some("3"));
    assert_eq!(t.get("b").map(|s| s.as_str()), Some("2"));
    assert_eq!(t.get("c"), None);
    assert_eq!(t.len(), 2);
    let copy = t.clone();
    assert_eq!(copy.entries(), t.entries());
}

#[test]
fn rows_do_not_depend_on_the_order_of_insertion() {
    let files = [("x", "1"), ("a", "2"), ("m/n", "3"), ("m", "4")];
    let mut forward = FileTable::new();
    let mut backward = FileTable::new();
    for (k, v) in files {
        forward.insert(k.to_string(), v.to_string());
    }
    for (k, v) in files.iter().rev() {
        backward.insert(k.to_string(), v.to_string());
    }
    assert_eq!(forward.entries(), backward.entries());
}

#[test]
fn texts_stand_as_their_bytes_do() {
    for a in ["", "a", "ab", "b", "\u{e9}", "\u{ffff}", "\u{10000}"] {
        for b in ["", "a", "ab", "b", "\u{e9}", "\u{ffff}", "\u{10000}"] {
            match standing(a, b) {
                Standing::Before => assert!(a < b),
                Standing::Same => assert_eq!(a, b),
                Standing::Behind => assert!(a > b),
            }
        }
    }
}

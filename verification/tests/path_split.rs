use tomlreadwr::path::{check_path, split_key};

#[test]
fn split_cuts_at_each_dot() {
    assert_eq!(split_key("a.b.c"), vec!["a", "b", "c"]);
}

#[test]
fn split_of_a_key_without_dot_is_the_key() {
    assert_eq!(split_key("server"), vec!["server"]);
}

#[test]
fn split_of_the_empty_key_has_no_segment() {
    assert!(split_key("").is_empty());
}

#[test]
fn split_keeps_empty_segments() {
    assert_eq!(split_key("a..b"), vec!["a", "", "b"]);
    assert_eq!(split_key("."), vec!["", ""]);
    assert_eq!(split_key(".a"), vec!["", "a"]);
    assert_eq!(split_key("a."), vec!["a", ""]);
}

#[test]
fn split_counts_characters_not_bytes() {
    assert_eq!(split_key("größe.wert.日本"), vec!["größe", "wert", "日本"]);
}

#[test]
fn split_then_join_gives_the_key_back() {
    for key in ["a", "a.b", "a..b", ".", "x.y.z.", "..", "server.database.host"] {
        assert_eq!(split_key(key).join("."), key);
    }
}

#[test]
fn no_segment_holds_a_dot() {
    for part in split_key("one.two..three.") {
        assert!(!part.contains('.'));
    }
}

#[test]
fn a_path_needs_a_segment_and_no_empty_one() {
    assert!(check_path(&split_key("a")));
    assert!(check_path(&split_key("a.b.c")));
    assert!(!check_path(&split_key("")));
    assert!(!check_path(&split_key("a..b")));
    assert!(!check_path(&split_key(".a")));
    assert!(!check_path(&split_key("a.")));
    assert!(!check_path(&split_key(".")));
}

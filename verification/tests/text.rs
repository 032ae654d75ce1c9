use trayless::text::{remove_underscores, replace_text};

#[test]
fn replacing_a_pattern_replaces_each_occurrence() {
    assert_eq!(replace_text("Vec<Vec<u8>>", "Vec<", "Array<"), "Array<Array<u8>>");
    assert_eq!(replace_text("aaa", "aa", "b"), "ba");
    assert_eq!(replace_text("none here", "Vec<", "Array<"), "none here");
}

#[test]
fn replacing_the_empty_pattern_interleaves() {
    assert_eq!(replace_text("abc", "", "-"), "abc".replace("", "-"));
    assert_eq!(replace_text("abc", "", "-"), "-a-b-c-");
    assert_eq!(replace_text("", "", "x"), "x");
}

#[test]
fn underscores_are_removed() {
    assert_eq!(remove_underscores("_File"), "File");
    assert_eq!(remove_underscores("a__b_"), "ab");
}

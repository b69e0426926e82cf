use solnas_client::paths::{api_url, child_path, parent_path, show_path};
use solnas_client::text::{
    chars_of, decimal_string, ends_with, eq_ignore_ascii_case, same_text, trim,
};

#[test]
fn trim_removes_surrounding_whitespace() {
    assert_eq!(trim("  192.168.0.7 \t\n"), "192.168.0.7");
    assert_eq!(trim("\u{3000}a b\u{a0}"), "a b");
    assert_eq!(trim("   "), "");
    assert_eq!(trim(""), "");
    assert_eq!(trim("x"), "x");
}

#[test]
fn ascii_case_insensitive_comparison() {
    assert!(eq_ignore_ascii_case("Photos", "pHOTOS"));
    assert!(!eq_ignore_ascii_case("Photos", "Photo"));
    assert!(!eq_ignore_ascii_case("Ä", "ä"));
    assert!(eq_ignore_ascii_case("", ""));
}

#[test]
fn suffixes_and_equality() {
    assert!(ends_with("a.png", ".png"));
    assert!(!ends_with("a.png", ".jpg"));
    assert!(same_text("abc", "abc"));
    assert!(!same_text("abc", "abd"));
}

#[test]
fn decimal_numerals() {
    assert_eq!(decimal_string(0), "0");
    assert_eq!(decimal_string(7), "7");
    assert_eq!(decimal_string(10), "10");
    assert_eq!(decimal_string(104857600), "104857600");
    assert_eq!(decimal_string(u64::MAX), u64::MAX.to_string());
}

#[test]
fn characters_of_text() {
    assert_eq!(chars_of("aé/"), vec!['a', 'é', '/']);
    assert!(chars_of("").is_empty());
}

#[test]
fn child_paths() {
    assert_eq!(child_path("", "docs"), "docs");
    assert_eq!(child_path("docs", "a.txt"), "docs/a.txt");
    assert_eq!(child_path("a/b", "c"), "a/b/c");
}

#[test]
fn parent_paths() {
    assert_eq!(parent_path("a/b/c"), "a/b");
    assert_eq!(parent_path("abc"), "");
    assert_eq!(parent_path(""), "");
    assert_eq!(parent_path("a/"), "a");
    assert_eq!(parent_path("/a"), "");
}

#[test]
fn going_in_and_back_returns() {
    for dir in ["", "photos", "photos/2024"] {
        for name in ["x", "holiday pics", ""] {
            let inside = child_path(dir, name);
            assert_eq!(parent_path(&inside), dir);
        }
    }
}

#[test]
fn shown_paths_and_addresses() {
    assert_eq!(show_path(""), "/");
    assert_eq!(show_path("a/b"), "/a/b");
    assert_eq!(api_url("192.168.1.20", "auth"), "https://192.168.1.20:8080/api/auth");
    assert_eq!(
        api_url("nas", "files?path=a/b"),
        "https://nas:8080/api/files?path=a/b"
    );
}

use theme_sync::text::{decimal_string, join_all, path_join, same_text, value_or};

#[test]
fn decimal_string_writes_single_digits() {
    assert_eq!(decimal_string(0), "0");
    assert_eq!(decimal_string(7), "7");
    assert_eq!(decimal_string(9), "9");
}

#[test]
fn decimal_string_writes_longer_numbers() {
    assert_eq!(decimal_string(10), "10");
    assert_eq!(decimal_string(16), "16");
    assert_eq!(decimal_string(100), "100");
    assert_eq!(decimal_string(12345), "12345");
    assert_eq!(decimal_string(9_007_199_254_740_993), "9007199254740993");
}

#[test]
fn decimal_string_agrees_with_the_standard_library() {
    for n in [0usize, 1, 9, 10, 11, 99, 101, 255, 256, 1000, 65535, usize::MAX] {
        assert_eq!(decimal_string(n), n.to_string());
    }
}

#[test]
fn join_all_of_nothing_is_empty() {
    assert_eq!(join_all(&vec![], ","), "");
}

#[test]
fn join_all_of_one_part_has_no_separator() {
    assert_eq!(join_all(&vec!["a".to_string()], ","), "a");
}

#[test]
fn join_all_puts_the_separator_between_parts() {
    let parts = vec!["a".to_string(), "".to_string(), "bc".to_string()];
    assert_eq!(join_all(&parts, ","), "a,,bc");
    assert_eq!(join_all(&parts, " - "), "a -  - bc");
    assert_eq!(join_all(&parts, ""), "abc");
}

#[test]
fn path_join_appends_after_a_separator() {
    assert_eq!(path_join("/home/user", ".config"), "/home/user/.config");
    assert_eq!(path_join("relative", "file.toml"), "relative/file.toml");
}

#[test]
fn path_join_adds_no_second_separator() {
    assert_eq!(path_join("/home/user/", ".config/"), "/home/user/.config/");
    assert_eq!(path_join("/", "etc"), "/etc");
}

#[test]
fn path_join_on_an_empty_base_gives_the_component() {
    assert_eq!(path_join("", ".config/tmux/themes/"), ".config/tmux/themes/");
    assert_eq!(path_join("", ""), "");
}

#[test]
fn path_join_with_an_empty_component_ends_in_a_separator() {
    assert_eq!(path_join("/home/user", ""), "/home/user/");
    assert_eq!(path_join("/home/user/", ""), "/home/user/");
}

#[test]
fn path_join_lets_an_absolute_component_replace_the_base() {
    assert_eq!(path_join("/home/user", "/etc/theme.toml"), "/etc/theme.toml");
    assert_eq!(path_join("", "/etc"), "/etc");
}

#[test]
fn path_join_agrees_with_the_standard_library() {
    let cases = [
        ("/home/user", ".config/alacritty/themes/"),
        ("/home/user/", "a.toml"),
        ("", "a.toml"),
        ("", ""),
        ("x", ""),
        ("x", "/y"),
        ("x/", "/y"),
        ("/", "/"),
        ("a//", "b"),
        ("h\u{e9}", "\u{4e2d}.toml"),
    ];
    for (base, component) in cases {
        let expected = std::path::Path::new(base).join(component);
        assert_eq!(path_join(base, component), expected.to_str().unwrap());
    }
}

#[test]
fn same_text_compares_characters() {
    assert!(same_text("", ""));
    assert!(same_text("color-scheme", "color-scheme"));
    assert!(!same_text("color-scheme", "color-schema"));
    assert!(!same_text("dark", "dark "));
    assert!(!same_text("a", ""));
}

#[test]
fn value_or_prefers_the_value() {
    assert_eq!(value_or(Some("given".to_string()), "fallback"), "given");
    assert_eq!(value_or(Some(String::new()), "fallback"), "");
    assert_eq!(value_or(None, "fallback"), "fallback");
}

use xtop::jsonc::strip_jsonc_comments;
use xtop::theme::{builtin_themes, default_theme, hex_to_rgb_pub};

#[test]
fn test_default_theme() {
    let t = default_theme();
    assert_eq!(t.name, "x");
    assert_eq!(t.bg(), &[5, 5, 5]);
}

#[test]
fn test_builtin_themes_count() {
    let themes = builtin_themes();
    assert_eq!(themes.len(), 1);
}

#[test]
fn test_strip_line_comment() {
    let input = "{\"name\": \"test\" // comment\n}";
    let result = strip_jsonc_comments(input);
    assert_eq!(result, "{\"name\": \"test\" \n}");
}

#[test]
fn test_strip_block_comment() {
    let input = "{\"name\": /* comment */ \"test\"}";
    let result = strip_jsonc_comments(input);
    assert_eq!(result, "{\"name\":  \"test\"}");
}

#[test]
fn test_strip_no_comments() {
    let input = "{\"name\": \"test\"}";
    let result = strip_jsonc_comments(input);
    assert_eq!(result, "{\"name\": \"test\"}");
}

#[test]
fn test_hex_to_rgb() {
    let result = hex_to_rgb_pub("#ff0000");
    assert_eq!(result, [255, 0, 0]);
}

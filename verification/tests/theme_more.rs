use xtop::jsonc::strip_jsonc_comments;
use xtop::theme::{hex_to_rgb_pub, load_all_themes, make_theme, theme_from_fields, ThemeError};

const GREY: [&str; 16] = [
    "#000000", "#111111", "#222222", "#333333", "#444444", "#555555", "#666666", "#777777", "#888888",
    "#999999", "#aaaaaa", "#bbbbbb", "#cccccc", "#dddddd", "#eeeeee", "#ffffff",
];

#[test]
fn hex_colors_with_and_without_hash() {
    assert_eq!(hex_to_rgb_pub("00ff7f"), [0, 255, 127]);
    assert_eq!(hex_to_rgb_pub("##0A0b0C"), [10, 11, 12]);
    assert_eq!(hex_to_rgb_pub("#zz1010"), [0, 16, 16]);
    assert_eq!(hex_to_rgb_pub("#12"), [18, 0, 0]);
    assert_eq!(hex_to_rgb_pub("#+f0a0b"), [15, 10, 11]);
    assert_eq!(hex_to_rgb_pub(""), [0, 0, 0]);
}

#[test]
fn formatted_colors_read_back() {
    for (r, g, b) in [(0u8, 0u8, 0u8), (255, 1, 16), (18, 52, 86)] {
        let text = format!("#{r:02x}{g:02x}{b:02x}");
        assert_eq!(hex_to_rgb_pub(&text), [r, g, b]);
    }
}

#[test]
fn theme_fields_are_checked() {
    let palette: Vec<String> = GREY.iter().map(|s| s.to_string()).collect();
    let t = theme_from_fields(Some("grey".to_string()), Some(palette.clone())).unwrap();
    assert_eq!(t.name, "grey");
    assert_eq!(t.bg(), &[0, 0, 0]);
    assert_eq!(t.fg(), &[0x77, 0x77, 0x77]);
    assert_eq!(theme_from_fields(None, Some(palette.clone())).unwrap_err(), ThemeError::MissingName);
    assert_eq!(theme_from_fields(Some("g".to_string()), None).unwrap_err(), ThemeError::MissingPalette);
    let short = palette[..3].to_vec();
    assert_eq!(theme_from_fields(Some("g".to_string()), Some(short)).unwrap_err(), ThemeError::PaletteLength(3));
}

#[test]
fn custom_themes_join_after_the_default_and_first_name_wins() {
    let custom = vec![make_theme("grey", GREY), make_theme("x", GREY), make_theme("grey", GREY), make_theme("b", GREY)];
    let all = load_all_themes(custom);
    let names: Vec<&str> = all.iter().map(|t| t.name.as_str()).collect();
    assert_eq!(names, ["x", "grey", "b"]);
    assert_eq!(all[0].bg(), &[5, 5, 5]);
}

#[test]
fn jsonc_comments_inside_strings_are_stripped_too() {
    // The stripper does not track strings: a `//` anywhere starts a comment.
    assert_eq!(strip_jsonc_comments("{\"u\": \"http://x\"}"), "{\"u\": \"http:");
    assert_eq!(strip_jsonc_comments("a /* b\nc */ d"), "a  d");
    assert_eq!(strip_jsonc_comments("a /* open"), "a ");
    assert_eq!(strip_jsonc_comments("no comments at all"), "no comments at all");
}

#[test]
fn stripping_comments_twice_changes_nothing_and_leaves_no_comment_start() {
    for input in [
        "{\"a\": 1} // note\n/* block */ {\"b\": \"x/y\"}",
        "a/*x*//b",
        "/ /* unterminated",
        "//\n//\n",
        "1/2 /*/ */ 3",
    ] {
        let once = strip_jsonc_comments(input);
        assert_eq!(strip_jsonc_comments(&once), once);
        assert!(!once.contains("//"));
        assert!(!once.contains("/*"));
        let mut rest = input.chars();
        assert!(once.chars().all(|c| rest.any(|d| d == c)));
    }
    assert_eq!(strip_jsonc_comments("a/*x*//b"), "a/b");
    assert_eq!(strip_jsonc_comments("keep /* never closed"), "keep ");
}

#[test]
fn hex_channels_read_two_characters_after_the_hashes() {
    assert_eq!(hex_to_rgb_pub(""), [0, 0, 0]);
    assert_eq!(hex_to_rgb_pub("#ff"), [255, 0, 0]);
    assert_eq!(hex_to_rgb_pub("#zz8000"), [0, 128, 0]);
    assert_eq!(hex_to_rgb_pub("##00ff00"), [0, 255, 0]);
    assert_eq!(hex_to_rgb_pub("#é0ff00"), [0, 15, 240]);
}

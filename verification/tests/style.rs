use xtop::style::{UiStyle, WidgetStyle};

fn style() -> UiStyle<char, u8> {
    UiStyle {
        charset: 'l',
        borders: 1,
        widgets: vec![
            ("cpu".to_string(), WidgetStyle { charset: Some('b'), borders: None, pack: Some("blocks".to_string()) }),
            ("memory".to_string(), WidgetStyle { charset: None, borders: Some(2), pack: None }),
        ],
        pack: Some("default".to_string()),
    }
}

#[test]
fn per_widget_overrides_beat_the_global_style() {
    let s = style();
    assert_eq!(s.charset_for("cpu"), 'b');
    assert_eq!(s.charset_for("memory"), 'l');
    assert_eq!(s.charset_for("network"), 'l');
    assert_eq!(s.borders_for("cpu"), 1);
    assert_eq!(s.borders_for("memory"), 2);
    assert_eq!(s.pack_for("cpu"), Some("blocks"));
    assert_eq!(s.pack_for("memory"), Some("default"));
    assert_eq!(s.pack_for("gpu"), Some("default"));
}

#[test]
fn without_any_pack_none_is_chosen() {
    let mut s = style();
    s.pack = None;
    assert_eq!(s.pack_for("memory"), None);
    assert_eq!(s.pack_for("cpu"), Some("blocks"));
}

use xtop::layout::loader::builtin_layouts;

#[test]
fn test_builtin_layouts_count() {
    let layouts = builtin_layouts();
    assert_eq!(layouts.len(), 7);
}

#[test]
fn test_builtin_names() {
    let layouts = builtin_layouts();
    let names: Vec<&str> = layouts.iter().map(|l| l.name.as_str()).collect();
    assert!(names.contains(&"Dashboard"));
    assert!(names.contains(&"Vertical"));
    assert!(names.contains(&"CPU Focus"));
    assert!(names.contains(&"Process Focus"));
}

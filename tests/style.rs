use indexmap::IndexMap;
use yew_struct_component::style::{structured, style_map_to_string, InnerStyle, Style, StyleMap, StyleSource};

#[test]
fn test_to_string() {
    assert_eq!("", Style::default().to_string());

    assert_eq!("", Style::from(None::<String>).to_string());

    assert_eq!(
        "margin: 1rem; padding: 0.5rem;",
        Style::from(Some("margin: 1rem; padding: 0.5rem;")).to_string(),
    );

    assert_eq!(
        "margin: 1rem; padding: 0.5rem;",
        Style::from("margin: 1rem; padding: 0.5rem;").to_string(),
    );

    assert_eq!(
        "color: white; border: 1px solid black;",
        Style::from([
            ("color", Some("white")),
            ("background-color", None),
            ("border", Some("1px solid black")),
        ])
        .to_string()
    );

    assert_eq!(
        "color: white; background-color: gray; border: 1px solid black;",
        Style::from([
            ("color", "white"),
            ("background-color", "gray"),
            ("border", "1px solid black"),
        ])
        .to_string()
    );
}

#[test]
fn test_with_defaults() {
    // String with string defaults
    assert_eq!(
        Style::from("pointer-events: none; color: red;"),
        Style::from("color: red;").with_defaults("pointer-events: none;"),
    );
    assert_eq!(
        Style::from("color: blue; color: red;"),
        Style::from("color: red;").with_defaults("color: blue;"),
    );

    // String with structured defaults
    assert_eq!(
        Style::from("pointer-events: none; color: red;"),
        Style::from("color: red;").with_defaults([("pointer-events", "none")]),
    );
    assert_eq!(
        Style::from("color: blue; color: red;"),
        Style::from("color: red;").with_defaults([("color", "blue")]),
    );

    // Structured with string defaults
    assert_eq!(
        Style::from("pointer-events: none; color: red;"),
        Style::from([("color", "red")]).with_defaults("pointer-events: none;"),
    );
    assert_eq!(
        Style::from("color: blue; color: red;"),
        Style::from([("color", "red")]).with_defaults("color: blue;"),
    );

    // Structured with structured defaults
    assert_eq!(
        Style::from([("pointer-events", "none"), ("color", "red")]),
        Style::from([("color", "red")]).with_defaults([("pointer-events", "none")]),
    );
    assert_eq!(
        Style::from([("color", "red")]),
        Style::from([("color", "red")]).with_defaults([("color", "blue")]),
    );

    // Optional in structured
    assert_eq!(
        Style::from([("color", Some("red"))]),
        Style::from([("color", Some("red"))]).with_defaults([("color", Some("blue"))]),
    );
    assert_eq!(
        Style::from([("color", None::<String>)]),
        Style::from([("color", None::<String>)]).with_defaults([("color", Some("blue"))]),
    );
    assert_eq!(
        Style::from([("color", Some("red"))]),
        Style::from([("color", Some("red"))]).with_defaults([("color", None::<String>)]),
    );
    assert_eq!(
        Style::from([("color", None::<String>)]),
        Style::from([("color", None::<String>)]).with_defaults([("color", None::<String>)]),
    );
}

fn entries(style: &Style) -> Vec<(String, Option<String>)> {
    match &style.0 {
        Some(InnerStyle::Structured(map)) => map.iter().map(|(k, v)| (k.clone(), v.clone())).collect(),
        _ => panic!("expected a structured style"),
    }
}

#[test]
fn empty_map_renders_empty_text() {
    let map: StyleMap = IndexMap::new();
    assert_eq!("", style_map_to_string(&map));
}

#[test]
fn empty_and_missing_values_are_skipped() {
    let mut map: StyleMap = IndexMap::new();
    map.insert("color".to_string(), Some(String::new()));
    map.insert("margin".to_string(), None);
    map.insert("padding".to_string(), Some("1px".to_string()));
    assert_eq!("padding: 1px;", style_map_to_string(&map));
}

#[test]
fn structured_merge_keeps_default_order_and_style_values() {
    let merged = Style::from([("b", "2"), ("c", "3")]).merge_defaults(Style::from([("a", "1"), ("b", "0")]));
    assert_eq!(
        vec![
            ("a".to_string(), Some("1".to_string())),
            ("b".to_string(), Some("2".to_string())),
            ("c".to_string(), Some("3".to_string())),
        ],
        entries(&merged)
    );
    assert_eq!("a: 1; b: 2; c: 3;", merged.to_string());
}

#[test]
fn empty_structured_defaults_leave_a_leading_space() {
    let defaults: StyleMap = IndexMap::new();
    let merged = Style::from("color: red;").with_defaults(defaults);
    assert_eq!(" color: red;", merged.to_string());
}

#[test]
fn unset_style_takes_the_defaults() {
    assert_eq!(Style::from("color: red;"), Style::new().with_defaults("color: red;"));
    assert_eq!(Style::from("color: red;"), Style::from("color: red;").with_defaults(None::<String>));
    assert_eq!(Style::new(), Style::new().with_defaults(None::<&str>));
}

#[test]
fn inner_style_with_defaults_joins_texts() {
    let merged = InnerStyle::String("b: 2;".to_string()).with_defaults(InnerStyle::String("a: 1;".to_string()));
    assert_eq!("a: 1; b: 2;", merged.to_string());
}

#[test]
fn plain_map_becomes_structured_style() {
    let mut map: IndexMap<String, String> = IndexMap::new();
    map.insert("color".to_string(), "red".to_string());
    map.insert("margin".to_string(), "0".to_string());
    let style = Style::from(map);
    assert_eq!("color: red; margin: 0;", style.to_string());
}

#[test]
fn owned_pairs_become_structured_style() {
    let style = Style::from([("color".to_string(), "red".to_string())]);
    assert_eq!("color: red;", style.to_string());
    let style = Style::from([("color".to_string(), None::<String>), ("top".to_string(), Some("0".to_string()))]);
    assert_eq!("top: 0;", style.to_string());
    let style = Style::from([("color", "red".to_string())]);
    assert_eq!("color: red;", style.to_string());
}

#[test]
fn deref_reaches_the_inner_style() {
    assert!(Style::new().is_none());
    assert!(Style::from("a: b;").is_some());
}

#[test]
fn sources_build_the_styles_they_stand_for() {
    assert_eq!("a: b;", "a: b;".into_style().to_string());
    assert_eq!(Style::new(), None::<&str>.into_style());
    assert_eq!("x: 1; y: 2;", [("x", "1"), ("y", "2")].into_style().to_string());
    assert_eq!("x: 3;", [("x", "1"), ("x", "3")].into_style().to_string());
    let built = structured(vec![
        ("x".to_string(), Some("1".to_string())),
        ("y".to_string(), None),
        ("x".to_string(), Some("2".to_string())),
    ]);
    assert_eq!("x: 2;", built.to_string());
}

#[test]
fn unset_defaults_keep_the_style() {
    let style = Style::from([("color", "red")]);
    assert_eq!(style.clone(), style.clone().with_defaults(Style::new()));
    assert_eq!(style.clone(), style.with_defaults(None::<&str>));
}

#[test]
fn structured_style_over_itself_is_unchanged() {
    let style = Style::from([("a", "1"), ("b", "2")]);
    let merged = style.clone().with_defaults(style.clone());
    assert_eq!(entries(&style), entries(&merged));
}

use plit_tui::components::parsing::xml::{parse_attr, parse_styles, JsonScalar, JsonShape};
use plit_tui::components::parsing::xml::{
    alignment_from_text, extract_text, parse, parse_str_list, parse_text_attr, parse_usize,
    ratio_from_text, try_parse_xml, Align,
};
use plit_tui::components::xml::{try_create_element, ConstraintEl, Direction, El, LineEl};

#[test]
fn parse_builds_tree_with_text() {
    let e = try_parse_xml("<paragraph><line><span>hi </span><span>there</span></line></paragraph>").unwrap();
    assert_eq!(e.name, "paragraph");
    assert_eq!(e.children.len(), 1);
    let line = &e.children[0];
    assert_eq!(line.children.len(), 2);
    assert_eq!(extract_text(&line.children[0]), "hi ");
    assert_eq!(extract_text(&line.children[1]), "there");
    assert_eq!(extract_text(&e), "");
}

#[test]
fn parse_trims_text_outside_spans_and_lines() {
    let e = try_parse_xml("<component>  inner  </component>").unwrap();
    assert_eq!(e.text.as_deref(), Some("inner"));
    let e = try_parse_xml("<span>  inner  </span>").unwrap();
    assert_eq!(e.text.as_deref(), Some("  inner  "));
}

#[test]
fn parse_rejects_non_documents() {
    assert!(try_parse_xml("").is_none());
    assert!(try_parse_xml("<a><b></a>").is_none());
}

#[test]
fn attributes_read_as_text_numbers_and_lists() {
    let e = try_parse_xml(
        "<x a=\"12\" b=\"+7\" c=\"x1\" d=\"\" big=\"99999999999999999999999\" t='[\"A\",\"B\"]'/>",
    )
    .unwrap();
    assert_eq!(parse_text_attr(&e, "a").as_deref(), Some("12"));
    assert_eq!(parse_text_attr(&e, "zz"), None);
    assert_eq!(parse_usize(&e, "a"), Ok(12));
    assert_eq!(parse_usize(&e, "b"), Ok(7));
    assert_eq!(
        parse_usize(&e, "c"),
        Err("Attribute Parse Error: ParseIntError { kind: InvalidDigit }".to_string())
    );
    assert_eq!(parse_usize(&e, "d"), Err("Attribute Parse Error: ParseIntError { kind: Empty }".to_string()));
    assert_eq!(
        parse_usize(&e, "big"),
        Err("Attribute Parse Error: ParseIntError { kind: PosOverflow }".to_string())
    );
    assert_eq!(parse_usize(&e, "nope"), Err("nope not found".to_string()));
    assert_eq!(parse_str_list(&e, "t"), Some(vec!["A".to_string(), "B".to_string()]));
    assert_eq!(parse_str_list(&e, "a"), None);
}

#[test]
fn ratios_and_alignment() {
    assert_eq!(ratio_from_text("1:2"), Some((1, 2)));
    assert_eq!(ratio_from_text("1:2:3"), None);
    assert_eq!(ratio_from_text("a:b"), None);
    assert!(matches!(alignment_from_text("Center"), Align::Center));
    assert!(matches!(alignment_from_text("Right"), Align::Right));
    assert!(matches!(alignment_from_text("middle"), Align::Left));
}

#[test]
fn layout_with_constraints() {
    let e = try_parse_xml(
        "<layout direction=\"vertical\"><constraint type='{\"length\": 3}'><span styles='{\"fg\": \"red\"}'>hi</span></constraint><constraint type='{\"ratio\": \"1:2\"}'/></layout>",
    )
    .unwrap();
    match try_create_element(&e).unwrap() {
        El::Layout(dir, cs, kids) => {
            assert_eq!(dir, Some(Direction::Vertical));
            assert_eq!(cs, vec![ConstraintEl::Length(3), ConstraintEl::Ratio(1, 2)]);
            assert_eq!(kids.len(), 2);
            match kids[0].as_deref() {
                Some(El::Span(s)) => {
                    assert_eq!(s.text, "hi");
                    assert_eq!(s.style.fg.as_deref(), Some("red"));
                    assert_eq!(s.style.bg, None);
                }
                _ => panic!("expected a span"),
            }
            assert!(kids[1].is_none());
        }
        _ => panic!("expected a layout"),
    }
}

#[test]
fn paragraph_with_lines() {
    let e = try_parse_xml(
        "<paragraph wrap='{\"trim\": true}' alignment='{\"position\": \"Center\"}'><line><span>a</span><span>b</span></line><line>plain</line></paragraph>",
    )
    .unwrap();
    match try_create_element(&e).unwrap() {
        El::Paragraph(p) => {
            assert_eq!(p.wrap_trim, Some(true));
            assert!(matches!(p.alignment, Some(Align::Center)));
            assert_eq!(p.lines.len(), 2);
            match &p.lines[0] {
                LineEl::Spans(v) => {
                    assert_eq!(v.len(), 2);
                    assert_eq!(v[0].text, "a");
                    assert_eq!(v[1].text, "b");
                }
                _ => panic!("expected spans"),
            }
            assert!(matches!(&p.lines[1], LineEl::Text(t) if t == "plain"));
        }
        _ => panic!("expected a paragraph"),
    }
}

#[test]
fn tabs_and_components() {
    let e = try_parse_xml("<tabs tab_titles='[\"A\",\"B\"]' tab_selection=\"1\"/>").unwrap();
    match try_create_element(&e).unwrap() {
        El::Tabs(t) => {
            assert_eq!(t.titles, vec!["A".to_string(), "B".to_string()]);
            assert_eq!(t.selection, 1);
        }
        _ => panic!("expected tabs"),
    }
    let e = try_parse_xml("<component template=\"chat\"/>").unwrap();
    assert!(matches!(try_create_element(&e), Some(El::Component(Some(t))) if t == "chat"));
    let e = try_parse_xml("<message_list/>").unwrap();
    assert!(matches!(try_create_element(&e), Some(El::MessageList)));
}

#[test]
fn malformed_elements_are_refused() {
    for xml in [
        "<foo/>",
        "<paragraph><span>x</span></paragraph>",
        "<tabs tab_titles='[\"A\"]'/>",
        "<constraint type='{\"weird\": 1}'/>",
        "<constraint type='{\"ratio\": \"1-2\"}'/>",
        "<layout><span>x</span></layout>",
    ] {
        let e = try_parse_xml(xml).unwrap();
        assert!(try_create_element(&e).is_none(), "{xml}");
    }
}

#[test]
fn templates_render_then_parse() {
    let mut reg = handlebars::Handlebars::new();
    reg.register_template_string("t", "<span>{{name}}</span>").unwrap();
    let mut m = serde_json::Map::new();
    m.insert("name".to_string(), serde_json::Value::String("x".to_string()));
    let v = serde_json::Value::Object(m);
    let e = parse("t", &v, &mut reg).unwrap();
    assert_eq!(e.name, "span");
    assert_eq!(e.text.as_deref(), Some("x"));
    assert!(parse("missing", &v, &mut reg).is_none());
}

#[test]
fn rendered_text_that_is_no_document_gives_none() {
    let mut reg = handlebars::Handlebars::new();
    reg.register_template_string("plain", "just {{word}}").unwrap();
    reg.register_template_string("ok", "<line>{{word}}</line>").unwrap();
    let mut m = serde_json::Map::new();
    m.insert("word".to_string(), serde_json::Value::String("text".to_string()));
    let v = serde_json::Value::Object(m);
    assert!(parse("plain", &v, &mut reg).is_none());
    let e = parse("ok", &v, &mut reg).unwrap();
    assert_eq!(e.name, "line");
    assert_eq!(e.text.as_deref(), Some("text"));
}

#[test]
fn json_attributes_read_as_shapes() {
    let e = try_parse_xml(r#"<p style='{"fg":"Red","bg":3,"n":12,"b":true,"o":[1]}' bad='{' list='[1]'/>"#).unwrap();
    let s = parse_styles(&e, "style");
    assert_eq!(s.fg.as_deref(), Some("Red"));
    assert!(s.bg.is_none());
    match parse_attr(&e, "style") {
        Some(JsonShape::Object(m)) => {
            assert_eq!(m.len(), 5);
            assert!(m.iter().any(|(k, v)| k == "n" && matches!(v, JsonScalar::Num(Some(12)))));
            assert!(m.iter().any(|(k, v)| k == "b" && matches!(v, JsonScalar::Bool(true))));
            assert!(m.iter().any(|(k, v)| k == "o" && matches!(v, JsonScalar::Other)));
        }
        _ => panic!("expected an object"),
    }
    assert!(parse_attr(&e, "bad").is_none());
    assert!(matches!(parse_attr(&e, "list"), Some(JsonShape::Other)));
    assert!(parse_attr(&e, "missing").is_none());
    let plain = parse_styles(&e, "missing");
    assert!(plain.fg.is_none() && plain.bg.is_none());
}

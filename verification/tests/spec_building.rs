use bluth::attributes::{
    classify_key, classify_value, parse_attr_list, parse_field_attr_list, Annotation, AttrKey,
    AttrValue, ElementSpec, FieldSpec, SpecError,
};
use bluth::attrparse::{is_signal_field_binding_key, normalize_attr_key};
use bluth::interp::{has_interpolation, is_valid_identifier, render_template, unescape_double_braces,
    TemplateEnv};
use bluth::render::{is_void_element, CaseNode, EnumNode, FieldData, Node, RenderContext,
    StructBody, StructNode};
use bluth::extractor::{check_datastar_header, datastar_json_from_query, datastar_param,
    from_signal_map, SignalRejection};
use bluth::signal::{OptDisplay, SignalCase, SignalSelector};
use bluth::value::Scalar;
use bluth::{Body, Document, Head, Html, Link, Render, Script};
use serde_json::Value;

#[test]
fn identifier_classification() {
    assert!(is_valid_identifier("user_name"));
    assert!(is_valid_identifier("_x1"));
    assert!(!is_valid_identifier(""));
    assert!(!is_valid_identifier("1abc"));
    assert!(!is_valid_identifier("a b"));
}

#[test]
fn interpolation_detection() {
    assert!(has_interpolation("/api/{greeting}/{name}"));
    assert!(!has_interpolation("plain text"));
    assert!(!has_interpolation("{{key: 'value'}}"));
    assert!(!has_interpolation("{not an ident}"));
    assert!(has_interpolation("{{literal}} and {real}"));
    // the contents of a rejected brace group are ordinary literals,
    // through the group's closing brace
    assert!(!has_interpolation("{ 'a': {x} }"));
}

#[test]
fn rejected_brace_group_stays_literal() {
    let mut env = TemplateEnv::new();
    env.bind("x".to_string(), "VALUE".to_string());
    assert_eq!(render_template("{ 'a': {x} } and {x}", &env), "{ 'a': {x} } and VALUE");
}

#[test]
fn identifiers_beyond_the_ascii_range() {
    assert!(is_valid_identifier("\u{e9}t\u{e9}"));
    assert!(has_interpolation("{\u{e9}t\u{e9}}"));
    let mut env = TemplateEnv::new();
    env.bind("\u{e9}t\u{e9}".to_string(), "summer".to_string());
    assert_eq!(render_template("in {\u{e9}t\u{e9}}!", &env), "in summer!");
}

#[test]
fn literal_template_collapses_braces_only() {
    let env = TemplateEnv::new();
    assert_eq!(
        render_template("{{key: 'value'}}", &env),
        unescape_double_braces("{{key: 'value'}}")
    );
    assert_eq!(render_template("{{key: 'value'}}", &env), "{key: 'value'}");
    assert_eq!(unescape_double_braces("a{{b}}c"), "a{b}c");
}

#[test]
fn template_interpolates_fields() {
    let mut env = TemplateEnv::new();
    env.bind("name".to_string(), "World".to_string());
    assert_eq!(render_template("Hello {name}!", &env), "Hello World!");
    assert_eq!(render_template("{name}{name}", &env), "WorldWorld");
}

#[test]
fn key_normalization() {
    assert_eq!(normalize_attr_key("data_bind"), "data-bind");
    assert_eq!(normalize_attr_key("class"), "class");
    assert!(is_signal_field_binding_key("data-bind"));
    assert!(is_signal_field_binding_key("data_bind"));
    assert!(!is_signal_field_binding_key("data-text"));
}

#[test]
fn key_and_value_classification() {
    assert!(matches!(classify_key("data-{state}"), AttrKey::Interpolated(_)));
    assert!(matches!(classify_key("class"), AttrKey::Literal(_)));
    assert!(matches!(classify_value("{label}"), AttrValue::Interpolated(_)));
    assert!(matches!(classify_value("{{x}}"), AttrValue::Literal(_)));
}

#[test]
fn void_elements_are_the_fixed_set() {
    for tag in [
        "area", "base", "br", "col", "embed", "hr", "img", "input", "link", "meta", "param",
        "source", "track", "wbr",
    ] {
        assert!(is_void_element(tag));
    }
    assert!(!is_void_element("div"));
    assert!(!is_void_element("script"));
}

#[test]
fn attr_list_parses_every_item_form() {
    let attrs = parse_attr_list(
        "a = \"x\", b = true, c = false, data_bind = field_ref, d = SomeType, e = 1 + f(2, 3), g",
    )
    .unwrap();
    assert_eq!(attrs.len(), 6);
    assert!(matches!(&attrs[0].value, AttrValue::Literal(v) if v == "x"));
    assert!(matches!(&attrs[1].value, AttrValue::Bool(true)));
    assert!(matches!(&attrs[2].value, AttrValue::SignalFieldBinding(f) if f == "field_ref"));
    assert!(matches!(&attrs[3].value, AttrValue::Path(p) if p == "SomeType"));
    assert!(matches!(&attrs[4].value, AttrValue::Expr(e) if e == "1 + f(2, 3)"));
    assert!(matches!(&attrs[5].value, AttrValue::Bool(true)));
    assert!(matches!(&attrs[5].key, AttrKey::Literal(k) if k == "g"));
}

#[test]
fn malformed_attr_list_is_rejected() {
    assert!(matches!(
        parse_attr_list("= \"x\""),
        Err(SpecError::MalformedAttrList)
    ));
    assert!(matches!(
        parse_attr_list("a = \"unterminated"),
        Err(SpecError::MalformedAttrList)
    ));
    assert!(matches!(
        parse_attr_list("a b"),
        Err(SpecError::MalformedAttrList)
    ));
}

#[test]
fn rename_grammar() {
    let (rename, attrs) = parse_field_attr_list("name = \"async\"").unwrap();
    assert_eq!(rename.as_deref(), Some("async"));
    assert!(attrs.is_empty());

    let err = {
        let parsed = parse_field_attr_list("name = \"async\", id = \"x\"").unwrap();
        let spec = FieldSpec::from_attrs(&vec![Annotation::Attr(
            "name = \"async\", id = \"x\"".to_string(),
        )]);
        assert!(parsed.0.is_some() && !parsed.1.is_empty());
        spec.unwrap_err()
    };
    assert!(matches!(err, SpecError::RenameWithValues));
}

#[test]
fn type_level_attrs_require_a_tag() {
    let err = ElementSpec::from_attrs(&vec![Annotation::Attr("class = \"x\"".to_string())])
        .unwrap_err();
    assert!(matches!(err, SpecError::AttrsWithoutTag));
}

#[test]
fn bare_markers_are_malformed_at_type_level() {
    let err = ElementSpec::from_attrs(&vec![Annotation::Element]).unwrap_err();
    assert!(matches!(err, SpecError::MalformedAnnotation));
    let err = ElementSpec::from_attrs(&vec![Annotation::AttrMarker]).unwrap_err();
    assert!(matches!(err, SpecError::MalformedAnnotation));
}

#[test]
fn multi_payload_case_without_format_is_rejected() {
    let node = Node::Enum(EnumNode {
        spec: ElementSpec::from_attrs(&vec![Annotation::ElementTag("li".to_string())]).unwrap(),
        case: CaseNode {
            tag: None,
            format: None,
            payload: vec![Scalar::Uint(1), Scalar::Uint(2)],
        },
    });
    assert!(matches!(
        node.validate(&RenderContext::new()),
        Err(SpecError::UnsupportedPayloadArity)
    ));
    assert!(matches!(
        node.render(&RenderContext::new()),
        Err(SpecError::UnsupportedPayloadArity)
    ));
}

#[test]
fn variant_wrappers_always_close() {
    let node = Node::Enum(EnumNode {
        spec: ElementSpec::from_attrs(&vec![Annotation::ElementTag("input".to_string())]).unwrap(),
        case: CaseNode { tag: None, format: None, payload: vec![] },
    });
    assert_eq!(node.render(&RenderContext::new()).unwrap(), "<input></input>");

    let tagged = Node::Enum(EnumNode {
        spec: ElementSpec::from_attrs(&vec![Annotation::ElementTag("li".to_string())]).unwrap(),
        case: CaseNode {
            tag: Some("br".to_string()),
            format: None,
            payload: vec![Scalar::Str("kept".to_string())],
        },
    });
    assert_eq!(tagged.render(&RenderContext::new()).unwrap(), "<li><br>kept</br></li>");
}

#[test]
fn variant_type_requires_a_tag() {
    let node = Node::Enum(EnumNode {
        spec: ElementSpec::from_attrs(&vec![]).unwrap(),
        case: CaseNode { tag: None, format: None, payload: vec![] },
    });
    let err = node.render(&RenderContext::new()).unwrap_err();
    assert!(matches!(err, SpecError::EnumWithoutTag));
}

#[test]
fn unsupported_tuple_shape_is_rejected() {
    let node = Node::Struct(StructNode {
        spec: ElementSpec::from_attrs(&vec![]).unwrap(),
        body: StructBody::Single(FieldData::Repeated(vec![])),
    });
    let err = node.render(&RenderContext::new()).unwrap_err();
    assert!(matches!(err, SpecError::UnsupportedShape(_)));
}

#[test]
fn optional_field_rendering() {
    let present = Node::Struct(StructNode {
        spec: ElementSpec::from_attrs(&vec![]).unwrap(),
        body: StructBody::Single(FieldData::Optional(Some(Scalar::Str("inner".to_string())))),
    });
    assert_eq!(present.render(&RenderContext::new()).unwrap(), "inner");

    let absent = Node::Struct(StructNode {
        spec: ElementSpec::from_attrs(&vec![]).unwrap(),
        body: StructBody::Single(FieldData::Optional(None)),
    });
    assert_eq!(absent.render(&RenderContext::new()).unwrap(), "");
}

#[test]
fn extractor_header_check() {
    assert!(check_datastar_header(Some("true")).is_ok());
    assert!(matches!(
        check_datastar_header(Some("false")),
        Err(SignalRejection::MissingDatastarHeader)
    ));
    assert!(matches!(
        check_datastar_header(None),
        Err(SignalRejection::MissingDatastarHeader)
    ));
}

#[test]
fn extractor_query_parameter() {
    assert_eq!(
        datastar_param("datastar=%7B%22searchTerm%22%3A%22test%20query%22%7D"),
        Some("%7B%22searchTerm%22%3A%22test%20query%22%7D".to_string())
    );
    assert_eq!(datastar_param("a=1&datastar=x&b=2"), Some("x".to_string()));
    assert_eq!(datastar_param("a=1&b=2"), None);
    assert_eq!(datastar_param("datastar"), None);

    let decoded =
        datastar_json_from_query("datastar=%7B%22searchTerm%22%3A%22test%20query%22%7D").unwrap();
    assert_eq!(decoded, "{\"searchTerm\":\"test query\"}");
    assert!(matches!(
        datastar_json_from_query("other=1"),
        Err(SignalRejection::InvalidJson(_))
    ));
}

#[test]
fn extractor_signal_lookup() {

    let selector = SignalSelector::for_case(&SignalCase {
        ident: "SearchTerm".to_string(),
        rename: None,
    });
    let signals = vec![
        ("searchTerm".to_string(), Value::String("old".to_string())),
        ("other".to_string(), Value::Null),
        ("searchTerm".to_string(), Value::String("test query".to_string())),
    ];
    let value = from_signal_map(&signals, &selector).unwrap();
    assert_eq!(value, &Value::String("test query".to_string()));

    let missing = vec![("otherSignal".to_string(), Value::String("value".to_string()))];
    let err = from_signal_map(&missing, &selector).unwrap_err();
    assert!(matches!(err, SignalRejection::MissingSignal(n) if n == "searchTerm"));
}

#[test]
fn document_elements_render() {
    let doc = Document::new(Html {
        lang: "en".to_string(),
        head: Head {
            link: vec![Link { id: None, href: "/style.css".to_string() }],
            script: vec![Script {
                src: "/app.js".to_string(),
                async_: true,
                type_: "module".to_string(),
            }],
        },
        body: Body { class: "main".to_string(), children: vec!["<p>hi</p>".to_string()] },
    });
    assert_eq!(
        doc.render(),
        "<!doctype html><html lang=\"en\"><head><link rel=\"stylesheet\" href=\"/style.css\"/>\
         <script src=\"/app.js\" async type=\"module\"></script></head>\
         <body class=\"main\"><p>hi</p></body></html>"
    );
}

#[test]
fn validation_matches_rendering() {
    let good = Node::Struct(StructNode {
        spec: ElementSpec::from_attrs(&vec![Annotation::ElementTag("div".to_string())]).unwrap(),
        body: StructBody::Named(vec![]),
    });
    assert!(good.validate(&RenderContext::new()).is_ok());

    let bad = Node::Enum(EnumNode {
        spec: ElementSpec::from_attrs(&vec![]).unwrap(),
        case: CaseNode { tag: None, format: None, payload: vec![] },
    });
    assert!(matches!(
        bad.validate(&RenderContext::new()),
        Err(SpecError::EnumWithoutTag)
    ));
}

#[test]
fn optional_display_texts() {
    assert_eq!(Some("x".to_string()).opt_text(), "x");
    assert_eq!(None::<String>.opt_text(), "");
    assert_eq!(Some(7u64).opt_text(), "7");
    assert_eq!(None::<u64>.opt_text(), "");
}

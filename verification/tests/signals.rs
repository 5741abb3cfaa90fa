use bluth::attributes::{Annotation, ElementSpec, FieldSpec};
use bluth::render::{Field, FieldData, Node, RenderContext, SignalBinding, StructBody, StructNode};
use bluth::signal::{SignalCase, SignalDecl, SignalValue};
use bluth::attributes::SpecError;
use bluth::value::Scalar;
use serde_json::Value;

fn sig_espec(annos: Vec<Annotation>) -> ElementSpec {
    ElementSpec::from_attrs(&annos).unwrap()
}

fn sig_field(name: &str, annos: Vec<Annotation>, data: FieldData) -> Field {
    Field {
        name: name.to_string(),
        spec: FieldSpec::from_attrs(&annos).unwrap(),
        data,
    }
}

fn test_signals() -> SignalDecl {
    SignalDecl::build(&vec![
        SignalCase { ident: "UserName".to_string(), rename: None },
        SignalCase { ident: "SearchTerm".to_string(), rename: None },
        SignalCase {
            ident: "PageNumber".to_string(),
            rename: Some("pageNum".to_string()),
        },
    ])
}

#[test]
fn data_bind_with_signal_selector() {
    let decl = test_signals();
    let mut ctx = RenderContext::new();
    ctx.selectors
        .bind("UserName".to_string(), decl.selectors[0].name.clone());
    let node = Node::Struct(StructNode {
        spec: sig_espec(vec![]),
        body: StructBody::Named(vec![
            sig_field(
                "user_name",
                vec![],
                FieldData::Scalar(Scalar::Str("John Doe".to_string())),
            ),
            sig_field(
                "input",
                vec![
                    Annotation::ElementTag("input".to_string()),
                    Annotation::Attr(
                        "data_bind = UserName, \"data-on:keydown\" = \"@get(/hello)\", \
                         value = \"{user_name}\""
                            .to_string(),
                    ),
                ],
                FieldData::Unit,
            ),
        ]),
    });
    let html = node.render(&ctx).unwrap();
    assert_eq!(
        html,
        "<input data-bind=\"userName\" data-on:keydown=\"@get(/hello)\" value=\"John Doe\"/>"
    );
}

#[test]
fn data_bind_with_field_bound_signal() {
    let decl = test_signals();
    let node = Node::Struct(StructNode {
        spec: sig_espec(vec![]),
        body: StructBody::Named(vec![
            sig_field(
                "search_term",
                vec![],
                FieldData::Signal(SignalBinding {
                    name: decl.selectors[1].name.clone(),
                    value: Some(Scalar::Str("hello".to_string())),
                }),
            ),
            sig_field(
                "input",
                vec![
                    Annotation::ElementTag("input".to_string()),
                    Annotation::Attr("data_bind = search_term, id = \"search-input\"".to_string()),
                ],
                FieldData::Unit,
            ),
        ]),
    });
    let html = node.render(&RenderContext::new()).unwrap();
    assert_eq!(html, "<input data-bind=\"searchTerm\" id=\"search-input\"/>");
}

#[test]
fn data_bind_with_field_bound_custom_signal_name() {
    let decl = test_signals();
    let node = Node::Struct(StructNode {
        spec: sig_espec(vec![]),
        body: StructBody::Named(vec![
            sig_field(
                "page_num",
                vec![],
                FieldData::Signal(SignalBinding {
                    name: decl.selectors[2].name.clone(),
                    value: Some(Scalar::Int(42)),
                }),
            ),
            sig_field(
                "display",
                vec![
                    Annotation::ElementTag("span".to_string()),
                    Annotation::Attr("data_bind = page_num".to_string()),
                ],
                FieldData::Unit,
            ),
        ]),
    });
    let html = node.render(&RenderContext::new()).unwrap();
    assert_eq!(html, "<span data-bind=\"pageNum\"></span>");
}

#[test]
fn data_bind_with_nested_element_signals() {
    let decl = test_signals();
    let inner = Node::Struct(StructNode {
        spec: sig_espec(vec![]),
        body: StructBody::Named(vec![
            sig_field(
                "inner_signal",
                vec![],
                FieldData::Signal(SignalBinding {
                    name: decl.selectors[0].name.clone(),
                    value: Some(Scalar::Str("user".to_string())),
                }),
            ),
            sig_field(
                "input",
                vec![
                    Annotation::ElementTag("input".to_string()),
                    Annotation::Attr("data_bind = inner_signal".to_string()),
                ],
                FieldData::Unit,
            ),
        ]),
    });
    let node = Node::Struct(StructNode {
        spec: sig_espec(vec![]),
        body: StructBody::Named(vec![
            sig_field(
                "outer_signal",
                vec![],
                FieldData::Signal(SignalBinding {
                    name: decl.selectors[1].name.clone(),
                    value: Some(Scalar::Str("query".to_string())),
                }),
            ),
            sig_field(
                "wrapper",
                vec![
                    Annotation::ElementTag("div".to_string()),
                    Annotation::Attr("data_bind = outer_signal".to_string()),
                ],
                FieldData::Unit,
            ),
            sig_field("inner", vec![Annotation::Element], FieldData::Nested(Box::new(inner))),
        ]),
    });
    let html = node.render(&RenderContext::new()).unwrap();
    assert_eq!(
        html,
        "<div data-bind=\"searchTerm\"></div><input data-bind=\"userName\"/>"
    );
}

#[test]
fn data_bind_with_string_literal() {
    let node = Node::Struct(StructNode {
        spec: sig_espec(vec![]),
        body: StructBody::Named(vec![sig_field(
            "input",
            vec![
                Annotation::ElementTag("input".to_string()),
                Annotation::Attr("data_bind = \"legacySignal\"".to_string()),
            ],
            FieldData::Unit,
        )]),
    });
    let html = node.render(&RenderContext::new()).unwrap();
    assert_eq!(html, "<input data-bind=\"legacySignal\"/>");
}

#[test]
fn data_text() {
    let node = Node::Struct(StructNode {
        spec: sig_espec(vec![]),
        body: StructBody::Named(vec![sig_field(
            "output",
            vec![
                Annotation::ElementTag("span".to_string()),
                Annotation::Attr("data_text = \"$userName\"".to_string()),
            ],
            FieldData::Unit,
        )]),
    });
    let html = node.render(&RenderContext::new()).unwrap();
    assert_eq!(html, "<span data-text=\"$userName\"></span>");
}

#[test]
fn data_computed_with_quotes() {
    let node = Node::Struct(StructNode {
        spec: sig_espec(vec![
            Annotation::ElementTag("div".to_string()),
            Annotation::Attr(
                "\"data-computed\" = \"msg = \\\"Hello \\\" + name\"".to_string(),
            ),
        ]),
        body: StructBody::Named(vec![sig_field(
            "output",
            vec![Annotation::ElementTag("span".to_string())],
            FieldData::Unit,
        )]),
    });
    let html = node.render(&RenderContext::new()).unwrap();
    assert_eq!(
        html,
        "<div data-computed=\"msg = &quot;Hello &quot; + name\"><span></span></div>"
    );
}

#[test]
fn data_computed_with_complex_js() {
    let node = Node::Struct(StructNode {
        spec: sig_espec(vec![
            Annotation::ElementTag("div".to_string()),
            Annotation::Attr(
                "\"data-timestamp\" = \"{timestamp}\", \
                 \"data-computed\" = \"formattedTime = \\\"UTC: \\\" + new Intl.DateTimeFormat('en-US', { dateStyle: 'short' }).format(new Date(parseInt($el.dataset.timestamp)))\""
                    .to_string(),
            ),
        ]),
        body: StructBody::Named(vec![
            sig_field("timestamp", vec![], FieldData::Scalar(Scalar::Int(1234567890000))),
            sig_field(
                "display",
                vec![
                    Annotation::ElementTag("p".to_string()),
                    Annotation::Attr("\"data-text\" = \"formattedTime\"".to_string()),
                ],
                FieldData::Unit,
            ),
        ]),
    });
    let html = node.render(&RenderContext::new()).unwrap();
    assert_eq!(
        html,
        "<div data-timestamp=\"1234567890000\" data-computed=\"formattedTime = &quot;UTC: &quot; + new Intl.DateTimeFormat('en-US', { dateStyle: 'short' }).format(new Date(parseInt($el.dataset.timestamp)))\"><p data-text=\"formattedTime\"></p></div>"
    );
}

#[test]
fn interpolated_value_with_special_chars() {
    let node = Node::Struct(StructNode {
        spec: sig_espec(vec![
            Annotation::ElementTag("div".to_string()),
            Annotation::Attr("\"data-label\" = \"{label}\"".to_string()),
        ]),
        body: StructBody::Named(vec![sig_field(
            "label",
            vec![],
            FieldData::Scalar(Scalar::Str(r#"Say "Hello" & <wave>"#.to_string())),
        )]),
    });
    let html = node.render(&RenderContext::new()).unwrap();
    assert_eq!(
        html,
        "<div data-label=\"Say &quot;Hello&quot; &amp; &lt;wave&gt;\"></div>"
    );
}

#[test]
fn attr_value_template_with_no_references_escapes_literally() {
    let node = Node::Struct(StructNode {
        spec: sig_espec(vec![
            Annotation::ElementTag("div".to_string()),
            Annotation::Attr("\"data-label\" = \"Say \\\"Hello\\\" & <wave>\"".to_string()),
        ]),
        body: StructBody::Named(vec![]),
    });
    let html = node.render(&RenderContext::new()).unwrap();
    assert_eq!(
        html,
        "<div data-label=\"Say &quot;Hello&quot; &amp; &lt;wave&gt;\"></div>"
    );
}

#[test]
fn selector_has_correct_name() {
    let decl = test_signals();
    assert_eq!(decl.selectors[0].name, "userName");
    assert_eq!(decl.selectors[1].name, "searchTerm");
    assert_eq!(decl.selectors[2].name, "pageNum");
}

#[test]
fn selector_as_ref_str() {
    let decl = test_signals();
    assert_eq!(decl.selectors[0].name.as_str(), "userName");
    assert_eq!(decl.selectors[1].name.as_str(), "searchTerm");
    assert_eq!(decl.selectors[2].name.as_str(), "pageNum");
}

#[test]
fn wrap_and_extract() {
    let decl = test_signals();
    let user_name = &decl.selectors[0];
    let page_number = &decl.selectors[2];

    let signal = user_name.wrap(Value::String("hello".to_string()));
    assert_eq!(signal.signal_name(), "userName");

    let extracted = user_name.extract(&signal);
    assert_eq!(extracted, Some(&Value::String("hello".to_string())));

    let wrong_signal = page_number.wrap(Value::from(42));
    assert_eq!(user_name.extract(&wrong_signal), None);
}

#[test]
fn into_inner() {
    let decl = test_signals();
    let search_term = &decl.selectors[1];
    let user_name = &decl.selectors[0];

    let signal = search_term.wrap(Value::String("query".to_string()));
    let inner = search_term.into_inner(signal);
    assert_eq!(inner, Some(Value::String("query".to_string())));

    let wrong_signal = user_name.wrap(Value::String("test".to_string()));
    let inner = search_term.into_inner(wrong_signal);
    assert_eq!(inner, None);
}

#[test]
fn signal_enum_signal_name() {
    let decl = test_signals();
    let signal = decl.selectors[0].wrap(Value::String("test".to_string()));
    assert_eq!(signal.signal_name(), "userName");

    let signal = decl.selectors[1].wrap(Value::Null);
    assert_eq!(signal.signal_name(), "searchTerm");

    let signal = decl.selectors[2].wrap(Value::from(1));
    assert_eq!(signal.signal_name(), "pageNum");
}

#[test]
fn signal_enum_to_json_value() {
    let decl = test_signals();
    let signal = decl.selectors[0].wrap(Value::String("test".to_string()));
    assert_eq!(signal.to_json_value(), &Value::String("test".to_string()));

    let signal = decl.selectors[1].wrap(Value::String("query".to_string()));
    assert_eq!(signal.to_json_value(), &Value::String("query".to_string()));

    let signal = decl.selectors[1].wrap(Value::Null);
    assert_eq!(signal.to_json_value(), &Value::Null);

    let signal = decl.selectors[2].wrap(Value::from(42));
    assert_eq!(signal.to_json_value(), &Value::from(42));
}

#[test]
fn signal_value_round_trip() {
    let selector = bluth::signal::SignalSelector::for_case(&SignalCase {
        ident: "UserName".to_string(),
        rename: None,
    });
    let value = SignalValue::new(selector, Value::from(7));
    let instance = value.into_enum();
    assert_eq!(instance.signal_name(), "userName");
    assert_eq!(instance.to_json_value(), &Value::from(7));
}

#[test]
fn map_or_with_option() {
    let with_content = Node::Struct(StructNode {
        spec: sig_espec(vec![Annotation::MapOr("NONE".to_string())]),
        body: StructBody::Single(FieldData::Optional(Some(Scalar::Str("content".to_string())))),
    });
    assert_eq!(with_content.render(&RenderContext::new()).unwrap(), "content");

    let without_content = Node::Struct(StructNode {
        spec: sig_espec(vec![Annotation::MapOr("NONE".to_string())]),
        body: StructBody::Single(FieldData::Optional(None)),
    });
    assert_eq!(without_content.render(&RenderContext::new()).unwrap(), "NONE");
}

#[test]
fn merge_signals() {
    let decl = test_signals();
    let merged = bluth::signal::merge_signals(vec![
        decl.selectors[0].wrap(Value::String("john".to_string())),
        decl.selectors[2].wrap(Value::from(3)),
    ]);
    assert_eq!(merged.len(), 2);
    assert_eq!(merged[0].signal_name(), "userName");
    assert_eq!(merged[0].to_json_value(), &Value::String("john".to_string()));
    assert_eq!(merged[1].signal_name(), "pageNum");
    assert_eq!(merged[1].to_json_value(), &Value::from(3));

    let overwritten = bluth::signal::merge_signals(vec![
        decl.selectors[2].wrap(Value::from(1)),
        decl.selectors[0].wrap(Value::String("jane".to_string())),
        decl.selectors[2].wrap(Value::from(9)),
    ]);
    assert_eq!(overwritten.len(), 2);
    assert_eq!(overwritten[0].signal_name(), "pageNum");
    assert_eq!(overwritten[0].to_json_value(), &Value::from(9));
    assert_eq!(overwritten[1].signal_name(), "userName");
    assert_eq!(overwritten[1].to_json_value(), &Value::String("jane".to_string()));

    let empty = bluth::signal::merge_signals(vec![]);
    assert_eq!(empty.len(), 0);
}

#[test]
fn signal_binding_to_plain_field_is_a_build_error() {
    let node = Node::Struct(StructNode {
        spec: sig_espec(vec![]),
        body: StructBody::Named(vec![
            sig_field(
                "plain",
                vec![],
                FieldData::Scalar(Scalar::Str("x".to_string())),
            ),
            sig_field(
                "input",
                vec![
                    Annotation::ElementTag("input".to_string()),
                    Annotation::Attr("data_bind = plain".to_string()),
                ],
                FieldData::Unit,
            ),
        ]),
    });
    let err = node.render(&RenderContext::new()).unwrap_err();
    assert!(matches!(err, SpecError::SignalBindingNotSignalField(f) if f == "plain"));
}

#[test]
fn unknown_path_reference_is_a_build_error() {
    let node = Node::Struct(StructNode {
        spec: sig_espec(vec![
            Annotation::ElementTag("div".to_string()),
            Annotation::Attr("data_ref = SomeType".to_string()),
        ]),
        body: StructBody::Named(vec![]),
    });
    let err = node.render(&RenderContext::new()).unwrap_err();
    assert!(matches!(err, SpecError::UnknownPath(p) if p == "SomeType"));
}

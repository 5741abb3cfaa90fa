use bluth::attributes::{Annotation, ElementSpec, FieldSpec, FormatSpec, SpecError};
use bluth::value::{format_decimal, i64_to_string, u64_to_string};
use bluth::render::{CaseNode, EnumNode, Field, FieldData, Node, RenderContext, StructBody,
    StructNode};
use bluth::value::{Decimal, Scalar};

fn fmt_espec(annos: Vec<Annotation>) -> ElementSpec {
    ElementSpec::from_attrs(&annos).unwrap()
}

fn fmt_field(name: &str, annos: Vec<Annotation>, data: FieldData) -> Field {
    Field {
        name: name.to_string(),
        spec: FieldSpec::from_attrs(&annos).unwrap(),
        data,
    }
}

#[test]
fn format_test() {
    let li = |case: CaseNode| {
        Node::Enum(EnumNode {
            spec: fmt_espec(vec![Annotation::ElementTag("li".to_string())]),
            case,
        })
    };
    let node = Node::Struct(StructNode {
        spec: fmt_espec(vec![Annotation::ElementTag("div".to_string())]),
        body: StructBody::Named(vec![fmt_field(
            "who",
            vec![Annotation::ElementTag("ul".to_string())],
            FieldData::Repeated(vec![
                li(CaseNode { tag: None, format: None, payload: vec![Scalar::Uint(12)] }),
                li(CaseNode { tag: None, format: None, payload: vec![Scalar::Uint(13)] }),
                li(CaseNode {
                    tag: None,
                    format: Some(FormatSpec { format_string: "{:.4}".to_string(), args: None }),
                    payload: vec![Scalar::Dec(Decimal::new(false, 145, 1))],
                }),
                li(CaseNode {
                    tag: None,
                    format: Some(FormatSpec {
                        format_string: "<{:.4}, {:.4}>".to_string(),
                        args: None,
                    }),
                    payload: vec![
                        Scalar::Dec(Decimal::new(false, 123456789, 8)),
                        Scalar::Dec(Decimal::new(false, 23456789, 7)),
                    ],
                }),
            ]),
        )]),
    });
    let html = node.render(&RenderContext::new()).unwrap();
    assert_eq!(
        html,
        "<div><ul><li>12</li><li>13</li><li>14.5000</li><li><1.2346, 2.3457></li></ul></div>"
    );
}

#[test]
fn format_strings() {
    let node = Node::Struct(StructNode {
        spec: fmt_espec(vec![
            Annotation::ElementTag("div".to_string()),
            Annotation::Format("{greeting} {name}!".to_string(), None),
        ]),
        body: StructBody::Named(vec![
            fmt_field("greeting", vec![], FieldData::Scalar(Scalar::Str("Hello".to_string()))),
            fmt_field("name", vec![], FieldData::Scalar(Scalar::Str("World".to_string()))),
        ]),
    });
    let html = node.render(&RenderContext::new()).unwrap();
    assert_eq!(html, "<div>Hello World!</div>");
}

#[test]
fn format_options() {
    let node = Node::Struct(StructNode {
        spec: fmt_espec(vec![
            Annotation::ElementTag("div".to_string()),
            Annotation::Format("{greeting} {name}!".to_string(), None),
        ]),
        body: StructBody::Named(vec![
            fmt_field("greeting", vec![], FieldData::Scalar(Scalar::Str("Hello".to_string()))),
            fmt_field(
                "name",
                vec![Annotation::MapOr("Unknown".to_string())],
                FieldData::Optional(None),
            ),
        ]),
    });
    let html = node.render(&RenderContext::new()).unwrap();
    assert_eq!(html, "<div>Hello Unknown!</div>");
}

fn table_row(name: &str, cost: Option<u64>, price: u64, value: Option<Decimal>) -> Node {
    Node::Struct(StructNode {
        spec: fmt_espec(vec![Annotation::ElementTag("tr".to_string())]),
        body: StructBody::Named(vec![
            fmt_field(
                "name",
                vec![Annotation::ElementTag("td".to_string())],
                FieldData::Scalar(Scalar::Str(name.to_string())),
            ),
            fmt_field(
                "cost",
                vec![
                    Annotation::ElementTag("td".to_string()),
                    Annotation::MapOr("-".to_string()),
                ],
                FieldData::Optional(cost.map(Scalar::Uint)),
            ),
            fmt_field(
                "price",
                vec![Annotation::ElementTag("td".to_string())],
                FieldData::Scalar(Scalar::Uint(price)),
            ),
            fmt_field(
                "value",
                vec![
                    Annotation::ElementTag("td".to_string()),
                    Annotation::MapOr("-".to_string()),
                    Annotation::Format("{:.0}".to_string(), None),
                ],
                FieldData::Optional(value.map(Scalar::Dec)),
            ),
        ]),
    })
}

#[test]
fn format_option_u64() {
    let node = Node::Struct(StructNode {
        spec: fmt_espec(vec![]),
        body: StructBody::Named(vec![fmt_field(
            "items",
            vec![
                Annotation::ElementTag("div".to_string()),
                Annotation::Attr("class = \"grid\"".to_string()),
            ],
            FieldData::Repeated(vec![
                table_row("Item 1", Some(100), 200, Some(Decimal::new(false, 3005, 1))),
                table_row("Item 2", None, 300, None),
            ]),
        )]),
    });
    let html = node.render(&RenderContext::new()).unwrap();
    assert_eq!(
        html,
        "<div class=\"grid\"><tr><td>Item 1</td><td>100</td><td>200</td><td>300</td></tr><tr><td>Item 2</td><td>-</td><td>300</td><td>-</td></tr></div>"
    );
}

#[test]
fn format_with_expression_args() {
    let mut ctx = RenderContext::new();
    let x = 3.14159_f64;
    let y = 2.71828_f64;
    ctx.exprs
        .bind("point.x_str()".to_string(), Scalar::Str(format!("{:.2}", x)));
    ctx.exprs
        .bind("point.y_str()".to_string(), Scalar::Str(format!("{:.2}", y)));
    let node = Node::Struct(StructNode {
        spec: fmt_espec(vec![
            Annotation::ElementTag("span".to_string()),
            Annotation::Format(
                "({}, {})".to_string(),
                Some("point.x_str(), point.y_str()".to_string()),
            ),
        ]),
        body: StructBody::Named(vec![fmt_field("point", vec![], FieldData::Unit)]),
    });
    let html = node.render(&ctx).unwrap();
    assert_eq!(html, "<span>(3.14, 2.72)</span>");
}

#[test]
fn format_positional_default_binding() {
    let node = Node::Struct(StructNode {
        spec: fmt_espec(vec![
            Annotation::ElementTag("div".to_string()),
            Annotation::Format("{} {}!".to_string(), None),
        ]),
        body: StructBody::Named(vec![
            fmt_field("greeting", vec![], FieldData::Scalar(Scalar::Str("Hello".to_string()))),
            fmt_field(
                "name",
                vec![Annotation::MapOr("Unknown".to_string())],
                FieldData::Optional(None),
            ),
        ]),
    });
    let html = node.render(&RenderContext::new()).unwrap();
    assert_eq!(html, "<div>Hello Unknown!</div>");
}

#[test]
fn format_empty() {
    let node = Node::Struct(StructNode {
        spec: fmt_espec(vec![]),
        body: StructBody::Named(vec![fmt_field(
            "greeting",
            vec![
                Annotation::ElementTag("div".to_string()),
                Annotation::Attr("id = \"test\"".to_string()),
            ],
            FieldData::Unit,
        )]),
    });
    let html = node.render(&RenderContext::new()).unwrap();
    assert_eq!(html, "<div id=\"test\"></div>");
}

#[test]
fn variant_with_fixed_decimal_places() {
    let node = Node::Enum(EnumNode {
        spec: fmt_espec(vec![Annotation::ElementTag("li".to_string())]),
        case: CaseNode {
            tag: None,
            format: Some(FormatSpec { format_string: "{:.4}".to_string(), args: None }),
            payload: vec![Scalar::Dec(Decimal::new(false, 145, 1))],
        },
    });
    let html = node.render(&RenderContext::new()).unwrap();
    assert_eq!(html, "<li>14.5000</li>");
}

#[test]
fn decimal_rounding_is_half_even() {
    assert_eq!(format_decimal(&Decimal::new(false, 3005, 1), 0), "300");
    assert_eq!(format_decimal(&Decimal::new(false, 3015, 1), 0), "302");
    assert_eq!(format_decimal(&Decimal::new(false, 25, 1), 0), "2");
    assert_eq!(format_decimal(&Decimal::new(false, 26, 1), 0), "3");
    assert_eq!(format_decimal(&Decimal::new(true, 145, 1), 4), "-14.5000");
    assert_eq!(format_decimal(&Decimal::new(false, 5, 1), 2), "0.50");
}

#[test]
fn integer_texts() {
    assert_eq!(u64_to_string(0), "0");
    assert_eq!(u64_to_string(18446744073709551615), "18446744073709551615");
    assert_eq!(i64_to_string(-9223372036854775808), "-9223372036854775808");
    assert_eq!(i64_to_string(42), "42");
}

#[test]
fn bad_format_is_a_build_error() {
    let node = Node::Struct(StructNode {
        spec: fmt_espec(vec![
            Annotation::ElementTag("div".to_string()),
            Annotation::Format("{missing}".to_string(), None),
        ]),
        body: StructBody::Named(vec![]),
    });
    let err = node.render(&RenderContext::new()).unwrap_err();
    assert!(matches!(err, SpecError::BadFormat(_)));
}

#[test]
fn unknown_expression_argument_is_a_build_error() {
    let node = Node::Struct(StructNode {
        spec: fmt_espec(vec![
            Annotation::ElementTag("div".to_string()),
            Annotation::Format("{}".to_string(), Some("mystery()".to_string())),
        ]),
        body: StructBody::Named(vec![]),
    });
    let err = node.render(&RenderContext::new()).unwrap_err();
    assert!(matches!(err, SpecError::UnknownExpr(_)));
}

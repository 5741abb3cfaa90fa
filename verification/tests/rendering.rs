use bluth::attributes::{Annotation, ElementSpec, FieldSpec};
use bluth::render::{CaseNode, EnumNode, Field, FieldData, Node, RenderContext, StructBody,
    StructNode};
use bluth::value::Scalar;

fn espec(annos: Vec<Annotation>) -> ElementSpec {
    ElementSpec::from_attrs(&annos).unwrap()
}

fn field(name: &str, annos: Vec<Annotation>, data: FieldData) -> Field {
    Field {
        name: name.to_string(),
        spec: FieldSpec::from_attrs(&annos).unwrap(),
        data,
    }
}

fn render(node: &Node) -> String {
    node.render(&RenderContext::new()).unwrap()
}

#[test]
fn struct_to_html() {
    let node = Node::Struct(StructNode {
        spec: espec(vec![Annotation::ElementTag("div".to_string())]),
        body: StructBody::Named(vec![
            field(
                "who",
                vec![Annotation::ElementTag("span".to_string())],
                FieldData::Scalar(Scalar::Str("world".to_string())),
            ),
            field("ignored_data", vec![], FieldData::Scalar(Scalar::Uint(123))),
        ]),
    });
    assert_eq!(render(&node), "<div><span>world</span></div>");
}

#[test]
fn enum_to_html() {
    let node = Node::Enum(EnumNode {
        spec: espec(vec![Annotation::ElementTag("div".to_string())]),
        case: CaseNode {
            tag: Some("span".to_string()),
            format: None,
            payload: vec![Scalar::Str("world".to_string())],
        },
    });
    assert_eq!(render(&node), "<div><span>world</span></div>");
}

#[test]
fn struct_vec_string() {
    let node = Node::Struct(StructNode {
        spec: espec(vec![Annotation::ElementTag("div".to_string())]),
        body: StructBody::Named(vec![field(
            "who",
            vec![Annotation::Element],
            FieldData::Repeated(vec![
                Node::Text("world".to_string()),
                Node::Text("hello".to_string()),
            ]),
        )]),
    });
    assert_eq!(render(&node), "<div>worldhello</div>");
}

fn who_component(case: &str, value: &str) -> Node {
    let _ = case;
    Node::Enum(EnumNode {
        spec: espec(vec![Annotation::ElementTag("li".to_string())]),
        case: CaseNode {
            tag: None,
            format: None,
            payload: vec![Scalar::Str(value.to_string())],
        },
    })
}

#[test]
fn component_list() {
    let node = Node::Struct(StructNode {
        spec: espec(vec![Annotation::ElementTag("div".to_string())]),
        body: StructBody::Named(vec![field(
            "who",
            vec![Annotation::ElementTag("ul".to_string())],
            FieldData::Repeated(vec![
                who_component("World", "World"),
                who_component("Hello", "Hello"),
            ]),
        )]),
    });
    assert_eq!(render(&node), "<div><ul><li>World</li><li>Hello</li></ul></div>");
}

#[test]
fn struct_fragment() {
    let who = Node::Struct(StructNode {
        spec: espec(vec![]),
        body: StructBody::Named(vec![field(
            "name",
            vec![Annotation::ElementTag("div".to_string())],
            FieldData::Scalar(Scalar::Str("world".to_string())),
        )]),
    });
    let node = Node::Struct(StructNode {
        spec: espec(vec![]),
        body: StructBody::Named(vec![field(
            "who",
            vec![Annotation::Element],
            FieldData::Nested(Box::new(who)),
        )]),
    });
    assert_eq!(render(&node), "<div>world</div>");
}

#[test]
fn enum_fragment() {
    let node = Node::Enum(EnumNode {
        spec: espec(vec![Annotation::ElementTag("div".to_string())]),
        case: CaseNode {
            tag: None,
            format: None,
            payload: vec![Scalar::Str("world".to_string())],
        },
    });
    assert_eq!(render(&node), "<div>world</div>");
}

#[test]
fn doctype_fragment() {
    let component = |value: &str| {
        Node::Enum(EnumNode {
            spec: espec(vec![Annotation::ElementTag("div".to_string())]),
            case: CaseNode {
                tag: None,
                format: None,
                payload: vec![Scalar::Str(value.to_string())],
            },
        })
    };
    let node = Node::Struct(StructNode {
        spec: espec(vec![]),
        body: StructBody::Named(vec![
            field(
                "doctype",
                vec![Annotation::Element],
                FieldData::Nested(Box::new(Node::Text("<!DOCTYPE html>".to_string()))),
            ),
            field(
                "html",
                vec![Annotation::ElementTag("html".to_string())],
                FieldData::Repeated(vec![component("World"), component("Hello")]),
            ),
        ]),
    });
    assert_eq!(
        render(&node),
        "<!DOCTYPE html><html><div>World</div><div>Hello</div></html>"
    );
}

#[test]
fn attrs() {
    let node = Node::Struct(StructNode {
        spec: espec(vec![
            Annotation::ElementTag("div".to_string()),
            Annotation::Attr(
                "hx_target = \"#target\", hx_post = \"/api/{greeting}/{name}\"".to_string(),
            ),
            Annotation::Attr("hx_swap = \"innerHTML\"".to_string()),
        ]),
        body: StructBody::Named(vec![
            field("greeting", vec![], FieldData::Scalar(Scalar::Str("Hello".to_string()))),
            field("name", vec![], FieldData::Scalar(Scalar::Str("World".to_string()))),
        ]),
    });
    assert_eq!(
        render(&node),
        "<div hx-target=\"#target\" hx-post=\"/api/Hello/World\" hx-swap=\"innerHTML\"></div>"
    );
}

#[test]
fn attr_boolean() {
    let node = Node::Struct(StructNode {
        spec: espec(vec![
            Annotation::ElementTag("div".to_string()),
            Annotation::Attr("data_hello = false, data_world = true".to_string()),
        ]),
        body: StructBody::Named(vec![]),
    });
    assert_eq!(render(&node), "<div data-world></div>");
}

#[test]
fn attrs_reserved() {
    let node = Node::Struct(StructNode {
        spec: espec(vec![
            Annotation::ElementTag("button".to_string()),
            Annotation::Attr(
                "\"type\" = \"button\", class = \"btn btn-primary\", id = \"btn-id\"".to_string(),
            ),
        ]),
        body: StructBody::Named(vec![field(
            "name",
            vec![Annotation::Element],
            FieldData::Scalar(Scalar::Str("World".to_string())),
        )]),
    });
    assert_eq!(
        render(&node),
        "<button type=\"button\" class=\"btn btn-primary\" id=\"btn-id\">World</button>"
    );
}

#[test]
fn field_attr() {
    let node = Node::Struct(StructNode {
        spec: espec(vec![Annotation::ElementTag("input".to_string())]),
        body: StructBody::Named(vec![
            field(
                "value",
                vec![Annotation::AttrMarker],
                FieldData::Scalar(Scalar::Str("World".to_string())),
            ),
            field(
                "disabled",
                vec![Annotation::AttrMarker],
                FieldData::Scalar(Scalar::Bool(true)),
            ),
        ]),
    });
    assert_eq!(render(&node), "<input value=\"World\" disabled/>");
}

#[test]
fn field_attr_rename() {
    let node = Node::Struct(StructNode {
        spec: espec(vec![Annotation::ElementTag("script".to_string())]),
        body: StructBody::Named(vec![
            field(
                "src",
                vec![Annotation::AttrMarker],
                FieldData::Scalar(Scalar::Str("/script.js".to_string())),
            ),
            field(
                "async_",
                vec![Annotation::Attr("name = \"async\"".to_string())],
                FieldData::Scalar(Scalar::Bool(true)),
            ),
        ]),
    });
    assert_eq!(render(&node), "<script src=\"/script.js\" async></script>");
}

#[test]
fn attr_double_brace_escaping() {
    let node = Node::Struct(StructNode {
        spec: espec(vec![
            Annotation::ElementTag("form".to_string()),
            Annotation::Attr(
                "\"data-on:submit\" = \"@post('{action_url}', {{contentType: 'form'}})\", \
                 class = \"space-y-4\""
                    .to_string(),
            ),
        ]),
        body: StructBody::Named(vec![field(
            "action_url",
            vec![],
            FieldData::Scalar(Scalar::Str("/api/submit".to_string())),
        )]),
    });
    assert_eq!(
        render(&node),
        "<form data-on:submit=\"@post('/api/submit', {contentType: 'form'})\" class=\"space-y-4\"></form>"
    );
}

#[test]
fn attr_only_double_braces_no_interpolation() {
    let node = Node::Struct(StructNode {
        spec: espec(vec![
            Annotation::ElementTag("div".to_string()),
            Annotation::Attr("\"data-config\" = \"{{key: 'value'}}\"".to_string()),
        ]),
        body: StructBody::Named(vec![]),
    });
    assert_eq!(render(&node), "<div data-config=\"{key: 'value'}\"></div>");
}

#[test]
fn repeated_with_no_elements_renders_nothing() {
    let node = Node::Struct(StructNode {
        spec: espec(vec![Annotation::ElementTag("div".to_string())]),
        body: StructBody::Named(vec![field(
            "who",
            vec![Annotation::Element],
            FieldData::Repeated(vec![]),
        )]),
    });
    assert_eq!(render(&node), "<div></div>");
}

#[test]
fn record_with_attribute_and_nested_span() {
    let node = Node::Struct(StructNode {
        spec: espec(vec![
            Annotation::ElementTag("div".to_string()),
            Annotation::Attr("class = \"profile\"".to_string()),
        ]),
        body: StructBody::Named(vec![field(
            "name",
            vec![Annotation::ElementTag("span".to_string())],
            FieldData::Scalar(Scalar::Str("a <b> & \"c\"".to_string())),
        )]),
    });
    assert_eq!(
        render(&node),
        "<div class=\"profile\"><span>a &lt;b&gt; &amp; &quot;c&quot;</span></div>"
    );
}

#[test]
fn body_field_content_is_escaped() {
    let node = Node::Struct(StructNode {
        spec: espec(vec![Annotation::ElementTag("div".to_string())]),
        body: StructBody::Named(vec![field(
            "who",
            vec![Annotation::Element],
            FieldData::Scalar(Scalar::Str("<script>alert('xss')</script>".to_string())),
        )]),
    });
    assert_eq!(
        render(&node),
        "<div>&lt;script&gt;alert('xss')&lt;/script&gt;</div>"
    );
}

#[test]
fn void_element_never_carries_content() {
    let node = Node::Struct(StructNode {
        spec: espec(vec![Annotation::ElementTag("br".to_string())]),
        body: StructBody::Named(vec![field(
            "who",
            vec![Annotation::Element],
            FieldData::Scalar(Scalar::Str("dropped".to_string())),
        )]),
    });
    assert_eq!(render(&node), "<br/>");
}

#[test]
fn nonvoid_element_closes_even_when_empty() {
    let node = Node::Struct(StructNode {
        spec: espec(vec![Annotation::ElementTag("section".to_string())]),
        body: StructBody::Named(vec![]),
    });
    assert_eq!(render(&node), "<section></section>");
}

//! The laws the rendering engine obeys, stated once and proved
//! from the rendering specification itself.

use vstd::prelude::*;

use crate::attributes::{AttrKey, AttrSpec, AttrValue, GSpecErr};
use crate::html::escape_text;
use crate::interp::spec_render_template;
use crate::render::{
    fields_env, fields_senv, fields_sigs, spec_attr_bare, spec_attr_kv, spec_field_attrs,
    spec_is_void, spec_render_attr, spec_render_attrs, spec_render_fields, spec_render_items,
    spec_render_node, spec_wrap_tag, Node, StructBody, StructNode,
};
use crate::value::spec_scalar_text;
use crate::value::Scalar;

verus! {

/// An attribute value derived from field data — an interpolated
/// template — is emitted inside the quotes as the HTML escape of
/// the interpolation result: the escape is applied exactly once,
/// after interpolation, and nothing else touches the text.
pub proof fn lemma_attr_value_escaped_exactly_once(
    a: AttrSpec,
    env: Map<Seq<char>, Seq<char>>,
    sigs: Map<Seq<char>, Seq<char>>,
    sels: Map<Seq<char>, Seq<char>>,
    xmap: Map<Seq<char>, Scalar>,
)
    requires
        a.value is Interpolated,
    ensures
        ({
            let key = match a.key {
                AttrKey::Literal(k) => k@,
                AttrKey::Interpolated(k) => spec_render_template(k@, env),
            };
            let raw = spec_render_template(a.value->Interpolated_0@, env);
            spec_render_attr(a, env, sigs, sels, xmap) == Result::Ok::<Seq<char>, GSpecErr>(
                spec_attr_kv(key, escape_text(raw)),
            )
        }),
{
}

/// An attribute value the specification authored as a literal is
/// emitted with its brace escapes collapsed and the result
/// HTML-escaped, in that order, each exactly once.
pub proof fn lemma_literal_attr_value_escaped_after_collapse(
    a: AttrSpec,
    env: Map<Seq<char>, Seq<char>>,
    sigs: Map<Seq<char>, Seq<char>>,
    sels: Map<Seq<char>, Seq<char>>,
    xmap: Map<Seq<char>, Scalar>,
)
    requires
        a.value is Literal,
    ensures
        ({
            let key = match a.key {
                AttrKey::Literal(k) => k@,
                AttrKey::Interpolated(k) => spec_render_template(k@, env),
            };
            spec_render_attr(a, env, sigs, sels, xmap) == Result::Ok::<Seq<char>, GSpecErr>(
                spec_attr_kv(
                    key,
                    escape_text(crate::interp::spec_collapse(a.value->Literal_0@)),
                ),
            )
        }),
{
}

/// Body content derived from field data is HTML-escaped, exactly
/// once: a plain scalar field's body text is the escape of the
/// value's text. (A format slot's contribution is escaped the same
/// way inside the format specification itself.)
pub proof fn lemma_body_field_content_escaped_once(
    s: Scalar,
    fs: crate::attributes::FieldSpec,
    senv: Map<Seq<char>, Scalar>,
    xmap: Map<Seq<char>, Scalar>,
)
    requires
        fs.format is None,
    ensures
        crate::render::spec_scalar_content(s, fs, senv, xmap) == Result::Ok::<Seq<char>, GSpecErr>(
            escape_text(crate::value::spec_scalar_text(s)),
        ),
{
}

/// A boolean attribute with value `false` contributes nothing to
/// the output; with value `true` it appears as a bare attribute
/// name, with no `=` and no value.
pub proof fn lemma_bool_attr_rendering(
    a: AttrSpec,
    env: Map<Seq<char>, Seq<char>>,
    sigs: Map<Seq<char>, Seq<char>>,
    sels: Map<Seq<char>, Seq<char>>,
    xmap: Map<Seq<char>, Scalar>,
)
    requires
        a.value is Bool,
    ensures
        !a.value->Bool_0 ==> spec_render_attr(a, env, sigs, sels, xmap) == Result::Ok::<
            Seq<char>,
            GSpecErr,
        >(Seq::<char>::empty()),
        a.value->Bool_0 ==> spec_render_attr(a, env, sigs, sels, xmap) == Result::Ok::<
            Seq<char>,
            GSpecErr,
        >(
            spec_attr_bare(
                match a.key {
                    AttrKey::Literal(k) => k@,
                    AttrKey::Interpolated(k) => spec_render_template(k@, env),
                },
            ),
        ),
{
}

/// A boolean attribute item with value `false` is dropped by the
/// attribute-list parser: no attribute is built from it at all.
pub proof fn lemma_bool_false_item_suppressed(key: Seq<char>)
    ensures
        crate::attributes::convert_item(
            crate::attrparse::GAttrItem::KeyBool { key, value: false },
        ) is None,
{
}

/// A void element self-closes: whatever content its element would
/// have carried, the emitted text is the self-closed tag, free of
/// the content and of any closing tag.
pub proof fn lemma_void_element_self_closes(tag: Seq<char>, attrs: Seq<char>, content: Seq<char>)
    requires
        spec_is_void(tag),
    ensures
        spec_wrap_tag(tag, attrs, content) == seq!['<'] + tag + attrs + seq!['/', '>'],
        spec_wrap_tag(tag, attrs, content) == spec_wrap_tag(tag, attrs, Seq::<char>::empty()),
{
}

/// A non-void element always carries its matching closing tag,
/// even around empty content.
pub proof fn lemma_nonvoid_element_closes(tag: Seq<char>, attrs: Seq<char>, content: Seq<char>)
    requires
        !spec_is_void(tag),
    ensures
        spec_wrap_tag(tag, attrs, content) == seq!['<'] + tag + attrs + seq!['>'] + content + seq![
            '<',
            '/',
        ] + tag + seq!['>'],
{
}

/// An absent optional value renders to nothing without a fallback;
/// with a fallback it renders the fallback literal itself, plain —
/// the field's own format is never applied to the fallback.
pub proof fn lemma_absent_optional_rendering(
    fs: crate::attributes::FieldSpec,
    senv: Map<Seq<char>, Scalar>,
    xmap: Map<Seq<char>, Scalar>,
)
    ensures
        fs.map_or is None ==> crate::render::spec_optional_content(Option::None, fs, senv, xmap)
            == Result::Ok::<Seq<char>, GSpecErr>(Seq::<char>::empty()),
        fs.map_or matches Option::Some(d) ==> crate::render::spec_optional_content(
            Option::None,
            fs,
            senv,
            xmap,
        ) == Result::Ok::<Seq<char>, GSpecErr>(d@),
{
}

/// The end-to-end shape of a component: a record with a wrapper
/// tag, one literal attribute, and one scalar field wrapped in a
/// tag of its own renders to the wrapper, the attribute emitted
/// inside its open tag, around the field tag around the
/// HTML-escaped field content — whatever the field holds.
pub proof fn lemma_wrapped_record_renders_escaped_content(
    sn: StructNode,
    sels: Map<Seq<char>, Seq<char>>,
    xmap: Map<Seq<char>, Scalar>,
)
    requires
        sn.spec.tag is Some,
        !spec_is_void(sn.spec.tag.unwrap()@),
        sn.spec.format is None,
        sn.spec.attrs@.len() == 1,
        sn.spec.attrs@[0].key is Literal,
        sn.spec.attrs@[0].value is Literal,
        sn.body is Named,
        sn.body->Named_0@.len() == 1,
        ({
            let f = sn.body->Named_0@[0];
            &&& f.spec.should_render
            &&& !f.spec.is_attr
            &&& f.spec.tag is Some
            &&& !spec_is_void(f.spec.tag.unwrap()@)
            &&& f.spec.format is None
            &&& f.spec.attrs@.len() == 0
            &&& f.data is Scalar
        }),
    ensures
        spec_render_node(Node::Struct(sn), sels, xmap) == Result::Ok::<Seq<char>, GSpecErr>(
            spec_wrap_tag(
                sn.spec.tag.unwrap()@,
                spec_attr_kv(
                    sn.spec.attrs@[0].key->Literal_0@,
                    escape_text(crate::interp::spec_collapse(sn.spec.attrs@[0].value->Literal_0@)),
                ),
                spec_wrap_tag(
                    sn.body->Named_0@[0].spec.tag.unwrap()@,
                    Seq::<char>::empty(),
                    escape_text(spec_scalar_text(sn.body->Named_0@[0].data->Scalar_0)),
                ),
            ),
        ),
{
    let fields = sn.body->Named_0@;
    let f = fields[0];
    let env = fields_env(fields);
    let senv = fields_senv(fields);
    let sigs = fields_sigs(fields);
    let at = spec_attr_kv(
        sn.spec.attrs@[0].key->Literal_0@,
        escape_text(crate::interp::spec_collapse(sn.spec.attrs@[0].value->Literal_0@)),
    );
    assert(spec_render_attrs(sn.spec.attrs@, 1, env, sigs, sels, xmap) == Result::Ok::<
        Seq<char>,
        GSpecErr,
    >(Seq::<char>::empty()));
    assert(spec_render_attrs(sn.spec.attrs@, 0, env, sigs, sels, xmap) == Result::Ok::<
        Seq<char>,
        GSpecErr,
    >(at)) by {
        assert(at + Seq::<char>::empty() =~= at);
    }
    assert(spec_field_attrs(fields, 1) == Result::Ok::<Seq<char>, GSpecErr>(
        Seq::<char>::empty(),
    ));
    assert(spec_field_attrs(fields, 0) == Result::Ok::<Seq<char>, GSpecErr>(
        Seq::<char>::empty(),
    ));
    let inner = spec_wrap_tag(
        f.spec.tag.unwrap()@,
        Seq::<char>::empty(),
        escape_text(spec_scalar_text(f.data->Scalar_0)),
    );
    assert(spec_render_attrs(f.spec.attrs@, 0, env, sigs, sels, xmap) == Result::Ok::<
        Seq<char>,
        GSpecErr,
    >(Seq::<char>::empty()));
    assert(spec_render_fields(fields, 1, env, senv, sigs, sels, xmap) == Result::Ok::<
        Seq<char>,
        GSpecErr,
    >(Seq::<char>::empty()));
    assert(spec_render_fields(fields, 0, env, senv, sigs, sels, xmap) == Result::Ok::<
        Seq<char>,
        GSpecErr,
    >(inner)) by {
        assert(inner + Seq::<char>::empty() =~= inner);
    }
    assert(at + Seq::<char>::empty() =~= at);
}

/// A repeated field renders its elements' own renderings,
/// concatenated in order with no separator: no elements render to
/// nothing, and appending an element appends exactly its own
/// rendering (the first failing element's fault carries over).
pub proof fn lemma_repeated_concatenates(
    items: Seq<Node>,
    x: Node,
    sels: Map<Seq<char>, Seq<char>>,
    xmap: Map<Seq<char>, Scalar>,
)
    ensures
        items.len() == 0 ==> spec_render_items(items, 0, sels, xmap) == Result::Ok::<
            Seq<char>,
            GSpecErr,
        >(Seq::<char>::empty()),
        spec_render_items(items.push(x), 0, sels, xmap) == (match (
            spec_render_items(items, 0, sels, xmap),
            spec_render_node(x, sels, xmap),
        ) {
            (Result::Err(e), _) => Result::Err::<Seq<char>, GSpecErr>(e),
            (Result::Ok(_), Result::Err(e)) => Result::Err(e),
            (Result::Ok(a), Result::Ok(b)) => Result::Ok(a + b),
        }),
{
    lemma_items_push(items, x, 0, sels, xmap);
}

proof fn lemma_items_push(
    items: Seq<Node>,
    x: Node,
    i: int,
    sels: Map<Seq<char>, Seq<char>>,
    xmap: Map<Seq<char>, Scalar>,
)
    requires
        0 <= i <= items.len(),
    ensures
        spec_render_items(items.push(x), i, sels, xmap) == (match (
            spec_render_items(items, i, sels, xmap),
            spec_render_node(x, sels, xmap),
        ) {
            (Result::Err(e), _) => Result::Err::<Seq<char>, GSpecErr>(e),
            (Result::Ok(_), Result::Err(e)) => Result::Err(e),
            (Result::Ok(a), Result::Ok(b)) => Result::Ok(a + b),
        }),
    decreases items.len() - i,
{
    let pushed = items.push(x);
    if i == items.len() {
        assert(pushed[i] == x);
        assert(spec_render_items(pushed, i + 1, sels, xmap) == Result::Ok::<Seq<char>, GSpecErr>(
            Seq::<char>::empty(),
        ));
        match spec_render_node(x, sels, xmap) {
            Result::Ok(b) => {
                assert(b + Seq::<char>::empty() =~= b);
                assert(Seq::<char>::empty() + b =~= b);
            },
            Result::Err(_) => {},
        }
    } else {
        assert(pushed[i] == items[i]);
        lemma_items_push(items, x, i + 1, sels, xmap);
        match (spec_render_node(items[i], sels, xmap), spec_render_items(
            items,
            i + 1,
            sels,
            xmap,
        ), spec_render_node(x, sels, xmap)) {
            (Result::Ok(t), Result::Ok(rest), Result::Ok(b)) => {
                assert(t + (rest + b) =~= (t + rest) + b);
            },
            _ => {},
        }
    }
}

} // verus!

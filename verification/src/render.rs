//! The rendering engine: a composite or variant value, carrying its
//! element specification and its fields' specifications and data,
//! is turned into markup text. The exact output — wrapper tags, the
//! void-element rule, attribute emission and escaping, optional and
//! repeated fields, format templates — is defined by the spec
//! functions here, and the executable renderer is proved to return
//! exactly that text or exactly the specification-build-time error.

use vstd::prelude::*;

use crate::attributes::{AttrKey, AttrSpec, ElementSpec, FieldSpec, FormatSpec, GSpecErr,
    AttrValue, SpecError};
use crate::fmtstr::{spec_render_fmt, ScalarEnv};
use crate::html::{escape_text, escape_attr_str};
use crate::interp::{spec_collapse, spec_render_template, TemplateEnv};
use crate::value::{spec_scalar_text, Scalar, scalar_dup, scalar_to_text};

verus! {

broadcast use
    vstd::seq::axiom_seq_index_decreases,
    vstd::std_specs::vec::axiom_vec_index_decreases,
    vstd::std_specs::vec::axiom_vec_decreases_to_view,
;

/// A field's binding to a named signal: the canonical signal name,
/// and the live value (kept so that store semantics are preserved
/// even though only the name is emitted).
pub struct SignalBinding {
    pub name: String,
    pub value: Option<Scalar>,
}

/// The data a field carries, by declared shape.
pub enum FieldData {
    /// A unit field: renders nothing.
    Unit,
    /// A plain scalar.
    Scalar(Scalar),
    /// An optional scalar.
    Optional(Option<Scalar>),
    /// A repeated field: each element rendered by its own
    /// procedure, concatenated with no separator.
    Repeated(Vec<Node>),
    /// A nested renderable value.
    Nested(Box<Node>),
    /// A signal-typed field.
    Signal(SignalBinding),
}

/// One named field: its specification and its data.
pub struct Field {
    pub name: String,
    pub spec: FieldSpec,
    pub data: FieldData,
}

/// The body of a composite value.
pub enum StructBody {
    /// Named fields, in declaration order.
    Named(Vec<Field>),
    /// A single unnamed field (a tuple-shaped value).
    Single(FieldData),
    /// No fields.
    Empty,
}

pub struct StructNode {
    pub spec: ElementSpec,
    pub body: StructBody,
}

/// The active case of a variant value: its own optional tag and
/// format, and the payload values.
pub struct CaseNode {
    pub tag: Option<String>,
    pub format: Option<FormatSpec>,
    pub payload: Vec<Scalar>,
}

pub struct EnumNode {
    pub spec: ElementSpec,
    pub case: CaseNode,
}

/// A renderable value: a composite, a variant, or plain text
/// (which renders as itself, unescaped — body content authored by
/// the host).
pub enum Node {
    Struct(StructNode),
    Enum(EnumNode),
    Text(String),
}

/// What the renderer consults beyond the instance itself: the
/// selector names that path references resolve to, and the
/// host-evaluated values of expression attributes and arguments,
/// keyed by their source text.
pub struct RenderContext {
    pub selectors: TemplateEnv,
    pub exprs: ScalarEnv,
}

impl RenderContext {
    pub open spec fn wf(&self) -> bool {
        self.exprs.wf()
    }

    pub fn new() -> (r: RenderContext)
        ensures
            r.selectors@ == Map::<Seq<char>, Seq<char>>::empty(),
            r.exprs@ == Map::<Seq<char>, Scalar>::empty(),
            r.wf(),
    {
        RenderContext { selectors: TemplateEnv::new(), exprs: ScalarEnv::new() }
    }
}

// ------------------------------------------------------------------
// Well-formedness: every decimal scalar held anywhere in a node has
// a representable scale.
// ------------------------------------------------------------------

pub open spec fn data_wf(d: FieldData) -> bool
    decreases d, 0int,
{
    match d {
        FieldData::Unit => true,
        FieldData::Scalar(s) => s.wf(),
        FieldData::Optional(o) => match o {
            Option::Some(s) => s.wf(),
            Option::None => true,
        },
        FieldData::Repeated(items) => nodes_wf(items@, 0),
        FieldData::Nested(bn) => node_wf(*bn),
        FieldData::Signal(sb) => match sb.value {
            Option::Some(s) => s.wf(),
            Option::None => true,
        },
    }
}

pub open spec fn fields_wf(fields: Seq<Field>, i: int) -> bool
    decreases fields, fields.len() - i,
{
    if i < 0 || i >= fields.len() {
        true
    } else {
        data_wf(fields[i].data) && fields_wf(fields, i + 1)
    }
}

pub open spec fn nodes_wf(items: Seq<Node>, i: int) -> bool
    decreases items, items.len() - i,
{
    if i < 0 || i >= items.len() {
        true
    } else {
        node_wf(items[i]) && nodes_wf(items, i + 1)
    }
}

pub open spec fn payload_wf(p: Seq<Scalar>) -> bool {
    forall|j: int| 0 <= j < p.len() ==> (#[trigger] p[j]).wf()
}

pub open spec fn node_wf(n: Node) -> bool
    decreases n, 1int,
{
    match n {
        Node::Text(_) => true,
        Node::Struct(sn) => match sn.body {
            StructBody::Named(fields) => fields_wf(fields@, 0),
            StructBody::Single(d) => data_wf(d),
            StructBody::Empty => true,
        },
        Node::Enum(en) => payload_wf(en.case.payload@),
    }
}

proof fn lemma_fields_wf_at(fields: Seq<Field>, i: int, j: int)
    requires
        fields_wf(fields, i),
        i <= j < fields.len(),
        0 <= i,
    ensures
        data_wf(fields[j].data),
    decreases j - i,
{
    if i < j {
        lemma_fields_wf_at(fields, i + 1, j);
    }
}

proof fn lemma_nodes_wf_at(items: Seq<Node>, i: int, j: int)
    requires
        nodes_wf(items, i),
        i <= j < items.len(),
        0 <= i,
    ensures
        node_wf(items[j]),
    decreases j - i,
{
    if i < j {
        lemma_nodes_wf_at(items, i + 1, j);
    }
}

// ------------------------------------------------------------------
// The fixed set of void elements, the tag wrapper, and the shape of
// one emitted attribute.
// ------------------------------------------------------------------

/// The closed set of void elements: they self-close and never carry
/// body content or a closing tag.
pub open spec fn spec_is_void(tag: Seq<char>) -> bool {
    ||| tag == seq!['a', 'r', 'e', 'a']
    ||| tag == seq!['b', 'a', 's', 'e']
    ||| tag == seq!['b', 'r']
    ||| tag == seq!['c', 'o', 'l']
    ||| tag == seq!['e', 'm', 'b', 'e', 'd']
    ||| tag == seq!['h', 'r']
    ||| tag == seq!['i', 'm', 'g']
    ||| tag == seq!['i', 'n', 'p', 'u', 't']
    ||| tag == seq!['l', 'i', 'n', 'k']
    ||| tag == seq!['m', 'e', 't', 'a']
    ||| tag == seq!['p', 'a', 'r', 'a', 'm']
    ||| tag == seq!['s', 'o', 'u', 'r', 'c', 'e']
    ||| tag == seq!['t', 'r', 'a', 'c', 'k']
    ||| tag == seq!['w', 'b', 'r']
}

/// Is the tag a void element?
pub fn is_void_element(tag: &str) -> (r: bool)
    ensures
        r == spec_is_void(tag@),
{
    proof {
        reveal_strlit("area");
        reveal_strlit("base");
        reveal_strlit("br");
        reveal_strlit("col");
        reveal_strlit("embed");
        reveal_strlit("hr");
        reveal_strlit("img");
        reveal_strlit("input");
        reveal_strlit("link");
        reveal_strlit("meta");
        reveal_strlit("param");
        reveal_strlit("source");
        reveal_strlit("track");
        reveal_strlit("wbr");
        assert("area"@ =~= seq!['a', 'r', 'e', 'a']);
        assert("base"@ =~= seq!['b', 'a', 's', 'e']);
        assert("br"@ =~= seq!['b', 'r']);
        assert("col"@ =~= seq!['c', 'o', 'l']);
        assert("embed"@ =~= seq!['e', 'm', 'b', 'e', 'd']);
        assert("hr"@ =~= seq!['h', 'r']);
        assert("img"@ =~= seq!['i', 'm', 'g']);
        assert("input"@ =~= seq!['i', 'n', 'p', 'u', 't']);
        assert("link"@ =~= seq!['l', 'i', 'n', 'k']);
        assert("meta"@ =~= seq!['m', 'e', 't', 'a']);
        assert("param"@ =~= seq!['p', 'a', 'r', 'a', 'm']);
        assert("source"@ =~= seq!['s', 'o', 'u', 'r', 'c', 'e']);
        assert("track"@ =~= seq!['t', 'r', 'a', 'c', 'k']);
        assert("wbr"@ =~= seq!['w', 'b', 'r']);
    }
    crate::text::str_eq(tag, "area") || crate::text::str_eq(tag, "base") || crate::text::str_eq(
        tag,
        "br",
    ) || crate::text::str_eq(tag, "col") || crate::text::str_eq(tag, "embed")
        || crate::text::str_eq(tag, "hr") || crate::text::str_eq(tag, "img")
        || crate::text::str_eq(tag, "input") || crate::text::str_eq(tag, "link")
        || crate::text::str_eq(tag, "meta") || crate::text::str_eq(tag, "param")
        || crate::text::str_eq(tag, "source") || crate::text::str_eq(tag, "track")
        || crate::text::str_eq(tag, "wbr")
}

/// The text of an element with the given tag, already-emitted
/// attribute text and content: void elements self-close and drop
/// the content, all others get a matching closing tag.
pub open spec fn spec_wrap_tag(tag: Seq<char>, attrs: Seq<char>, content: Seq<char>) -> Seq<char> {
    if spec_is_void(tag) {
        seq!['<'] + tag + attrs + seq!['/', '>']
    } else {
        seq!['<'] + tag + attrs + seq!['>'] + content + seq!['<', '/'] + tag + seq!['>']
    }
}

/// Emit `<tag …attrs…>content</tag>`, or `<tag …attrs…/>` for a
/// void element.
pub fn wrap_with_tag(tag: &str, attrs: &str, content: &str) -> (r: String)
    ensures
        r@ == spec_wrap_tag(tag@, attrs@, content@),
{
    let mut out = String::new();
    crate::text::push_char(&mut out, '<');
    out.append(tag);
    out.append(attrs);
    if is_void_element(tag) {
        crate::text::push_char(&mut out, '/');
        crate::text::push_char(&mut out, '>');
        proof {
            assert(out@ =~= spec_wrap_tag(tag@, attrs@, content@));
        }
        out
    } else {
        crate::text::push_char(&mut out, '>');
        out.append(content);
        crate::text::push_char(&mut out, '<');
        crate::text::push_char(&mut out, '/');
        out.append(tag);
        crate::text::push_char(&mut out, '>');
        proof {
            assert(out@ =~= spec_wrap_tag(tag@, attrs@, content@));
        }
        out
    }
}

/// The text of an element that always carries its closing tag,
/// whatever its tag: the form a variant type's wrappers take.
pub open spec fn spec_wrap_pair(tag: Seq<char>, attrs: Seq<char>, content: Seq<char>) -> Seq<
    char,
> {
    seq!['<'] + tag + attrs + seq!['>'] + content + seq!['<', '/'] + tag + seq!['>']
}

/// Emit `<tag …attrs…>content</tag>`, void or not.
pub fn wrap_with_pair(tag: &str, attrs: &str, content: &str) -> (r: String)
    ensures
        r@ == spec_wrap_pair(tag@, attrs@, content@),
{
    let mut out = String::new();
    crate::text::push_char(&mut out, '<');
    out.append(tag);
    out.append(attrs);
    crate::text::push_char(&mut out, '>');
    out.append(content);
    crate::text::push_char(&mut out, '<');
    crate::text::push_char(&mut out, '/');
    out.append(tag);
    crate::text::push_char(&mut out, '>');
    proof {
        assert(out@ =~= spec_wrap_pair(tag@, attrs@, content@));
    }
    out
}

/// ` key="value"`.
pub open spec fn spec_attr_kv(key: Seq<char>, val: Seq<char>) -> Seq<char> {
    seq![' '] + key + seq!['=', '"'] + val + seq!['"']
}

/// ` key` — a bare boolean attribute.
pub open spec fn spec_attr_bare(key: Seq<char>) -> Seq<char> {
    seq![' '] + key
}

fn attr_kv(key: &str, val: &str) -> (r: String)
    ensures
        r@ == spec_attr_kv(key@, val@),
{
    let mut out = String::new();
    crate::text::push_char(&mut out, ' ');
    out.append(key);
    crate::text::push_char(&mut out, '=');
    crate::text::push_char(&mut out, '"');
    out.append(val);
    crate::text::push_char(&mut out, '"');
    proof {
        assert(out@ =~= spec_attr_kv(key@, val@));
    }
    out
}

fn attr_bare(key: &str) -> (r: String)
    ensures
        r@ == spec_attr_bare(key@),
{
    let mut out = String::new();
    crate::text::push_char(&mut out, ' ');
    out.append(key);
    proof {
        assert(out@ =~= spec_attr_bare(key@));
    }
    out
}

// ------------------------------------------------------------------
// The three per-struct bindings: the interpolation environment, the
// format binding (honoring map_or fallbacks), and the signal table.
// ------------------------------------------------------------------

/// The interpolation environment of a composite value: each scalar
/// field's default text, and each signal field's value text (its
/// value if present, nothing otherwise).
pub open spec fn fields_env(fields: Seq<Field>) -> Map<Seq<char>, Seq<char>>
    decreases fields.len(),
{
    if fields.len() == 0 {
        Map::empty()
    } else {
        let m = fields_env(fields.drop_last());
        let f = fields.last();
        match f.data {
            FieldData::Scalar(s) => m.insert(f.name@, spec_scalar_text(s)),
            FieldData::Signal(sb) => m.insert(
                f.name@,
                match sb.value {
                    Option::Some(s) => spec_scalar_text(s),
                    Option::None => Seq::empty(),
                },
            ),
            _ => m,
        }
    }
}

/// The format binding of a composite value: scalar fields by name,
/// and optional fields with a fallback bound to their value or the
/// fallback literal.
pub open spec fn fields_senv(fields: Seq<Field>) -> Map<Seq<char>, Scalar>
    decreases fields.len(),
{
    if fields.len() == 0 {
        Map::empty()
    } else {
        let m = fields_senv(fields.drop_last());
        let f = fields.last();
        match f.data {
            FieldData::Scalar(s) => m.insert(f.name@, s),
            FieldData::Optional(o) => match (o, f.spec.map_or) {
                (Option::Some(s), _) => m.insert(f.name@, s),
                (Option::None, Option::Some(d)) => m.insert(f.name@, Scalar::Str(d)),
                (Option::None, Option::None) => m,
            },
            _ => m,
        }
    }
}

/// The default positional binding of a type-level format: the
/// fields' bound values in declaration order — a scalar field's
/// value, an optional field's value or its fallback literal; a
/// field with no textual binding contributes no position.
pub open spec fn fields_pos(fields: Seq<Field>) -> Seq<Scalar>
    decreases fields.len(),
{
    if fields.len() == 0 {
        Seq::empty()
    } else {
        let prev = fields_pos(fields.drop_last());
        let f = fields.last();
        match f.data {
            FieldData::Scalar(s) => prev + seq![s],
            FieldData::Optional(o) => match (o, f.spec.map_or) {
                (Option::Some(s), _) => prev + seq![s],
                (Option::None, Option::Some(d)) => prev + seq![Scalar::Str(d)],
                (Option::None, Option::None) => prev,
            },
            _ => prev,
        }
    }
}

fn build_pos(fields: &Vec<Field>) -> (r: Vec<Scalar>)
    requires
        fields_wf(fields@, 0),
    ensures
        r@ == fields_pos(fields@),
        forall|j: int| 0 <= j < r@.len() ==> (#[trigger] r@[j]).wf(),
{
    let mut out: Vec<Scalar> = Vec::new();
    let mut i: usize = 0;
    proof {
        assert(fields@.take(0int) =~= Seq::<Field>::empty());
    }
    while i < fields.len()
        invariant
            i <= fields@.len(),
            fields_wf(fields@, 0),
            out@ == fields_pos(fields@.take(i as int)),
            forall|j: int| 0 <= j < out@.len() ==> (#[trigger] out@[j]).wf(),
        decreases fields@.len() - i,
    {
        proof {
            lemma_fields_wf_at(fields@, 0, i as int);
            assert(fields@.take((i + 1) as int).drop_last() =~= fields@.take(i as int));
            assert(fields@.take((i + 1) as int).last() == fields@[i as int]);
        }
        let ghost before = out@;
        match &fields[i].data {
            FieldData::Scalar(v) => {
                out.push(scalar_dup(v));
                proof {
                    assert(out@ =~= before + seq![fields@[i as int].data->Scalar_0]);
                }
            },
            FieldData::Optional(o) => {
                match o {
                    Option::Some(v) => {
                        out.push(scalar_dup(v));
                        proof {
                            assert(out@ =~= before + seq![
                                fields@[i as int].data->Optional_0.unwrap(),
                            ]);
                        }
                    },
                    Option::None => {
                        match &fields[i].spec.map_or {
                            Option::Some(d) => {
                                out.push(Scalar::Str(d.clone()));
                                proof {
                                    assert(out@ =~= before + seq![
                                        Scalar::Str(fields@[i as int].spec.map_or.unwrap()),
                                    ]);
                                }
                            },
                            Option::None => {},
                        }
                    },
                }
            },
            _ => {},
        }
        i = i + 1;
    }
    proof {
        assert(fields@.take(fields@.len() as int) =~= fields@);
    }
    out
}

/// The signal table of a composite value: each signal field's
/// canonical signal name.
pub open spec fn fields_sigs(fields: Seq<Field>) -> Map<Seq<char>, Seq<char>>
    decreases fields.len(),
{
    if fields.len() == 0 {
        Map::empty()
    } else {
        let m = fields_sigs(fields.drop_last());
        let f = fields.last();
        match f.data {
            FieldData::Signal(sb) => m.insert(f.name@, sb.name@),
            _ => m,
        }
    }
}

fn build_env(fields: &Vec<Field>) -> (r: TemplateEnv)
    requires
        fields_wf(fields@, 0),
    ensures
        r@ == fields_env(fields@),
{
    let mut env = TemplateEnv::new();
    let mut i: usize = 0;
    proof {
        assert(fields@.take(0int) =~= Seq::<Field>::empty());
    }
    while i < fields.len()
        invariant
            i <= fields@.len(),
            fields_wf(fields@, 0),
            env@ == fields_env(fields@.take(i as int)),
        decreases fields@.len() - i,
    {
        proof {
            lemma_fields_wf_at(fields@, 0, i as int);
            assert(fields@.take((i + 1) as int).drop_last() =~= fields@.take(i as int));
            assert(fields@.take((i + 1) as int).last() == fields@[i as int]);
        }
        match &fields[i].data {
            FieldData::Scalar(s) => {
                let t = scalar_to_text(s);
                env.bind(fields[i].name.clone(), t);
            },
            FieldData::Signal(sb) => {
                let t = match &sb.value {
                    Option::Some(s) => scalar_to_text(s),
                    Option::None => String::new(),
                };
                env.bind(fields[i].name.clone(), t);
            },
            _ => {},
        }
        i = i + 1;
    }
    proof {
        assert(fields@.take(fields@.len() as int) =~= fields@);
    }
    env
}

fn build_senv(fields: &Vec<Field>) -> (r: ScalarEnv)
    requires
        fields_wf(fields@, 0),
    ensures
        r@ == fields_senv(fields@),
        r.wf(),
{
    let mut env = ScalarEnv::new();
    let mut i: usize = 0;
    proof {
        assert(fields@.take(0int) =~= Seq::<Field>::empty());
    }
    while i < fields.len()
        invariant
            i <= fields@.len(),
            fields_wf(fields@, 0),
            env@ == fields_senv(fields@.take(i as int)),
            env.wf(),
        decreases fields@.len() - i,
    {
        proof {
            lemma_fields_wf_at(fields@, 0, i as int);
            assert(fields@.take((i + 1) as int).drop_last() =~= fields@.take(i as int));
            assert(fields@.take((i + 1) as int).last() == fields@[i as int]);
        }
        match &fields[i].data {
            FieldData::Scalar(s) => {
                env.bind(fields[i].name.clone(), scalar_dup(s));
            },
            FieldData::Optional(o) => {
                match o {
                    Option::Some(s) => {
                        env.bind(fields[i].name.clone(), scalar_dup(s));
                    },
                    Option::None => {
                        match &fields[i].spec.map_or {
                            Option::Some(d) => {
                                env.bind(fields[i].name.clone(), Scalar::Str(d.clone()));
                            },
                            Option::None => {},
                        }
                    },
                }
            },
            _ => {},
        }
        i = i + 1;
    }
    proof {
        assert(fields@.take(fields@.len() as int) =~= fields@);
    }
    env
}

fn build_sigs(fields: &Vec<Field>) -> (r: TemplateEnv)
    ensures
        r@ == fields_sigs(fields@),
{
    let mut env = TemplateEnv::new();
    let mut i: usize = 0;
    proof {
        assert(fields@.take(0int) =~= Seq::<Field>::empty());
    }
    while i < fields.len()
        invariant
            i <= fields@.len(),
            env@ == fields_sigs(fields@.take(i as int)),
        decreases fields@.len() - i,
    {
        proof {
            assert(fields@.take((i + 1) as int).drop_last() =~= fields@.take(i as int));
            assert(fields@.take((i + 1) as int).last() == fields@[i as int]);
        }
        match &fields[i].data {
            FieldData::Signal(sb) => {
                env.bind(fields[i].name.clone(), sb.name.clone());
            },
            _ => {},
        }
        i = i + 1;
    }
    proof {
        assert(fields@.take(fields@.len() as int) =~= fields@);
    }
    env
}

// ------------------------------------------------------------------
// Attribute emission.
// ------------------------------------------------------------------

/// The text one attribute contributes. A literal value has its
/// brace escapes collapsed and is then escaped; an interpolated
/// value is interpolated and then escaped — field data is escaped
/// exactly once, on its way into the quoted value. A boolean
/// `false` contributes nothing; `true` a bare key. A path reference
/// becomes its selector's escaped name; a signal field binding the
/// field's signal name; an expression its host-evaluated value,
/// escaped.
pub open spec fn spec_render_attr(
    a: AttrSpec,
    env: Map<Seq<char>, Seq<char>>,
    sigs: Map<Seq<char>, Seq<char>>,
    sels: Map<Seq<char>, Seq<char>>,
    xmap: Map<Seq<char>, Scalar>,
) -> Result<Seq<char>, GSpecErr> {
    let key = match a.key {
        AttrKey::Literal(k) => k@,
        AttrKey::Interpolated(k) => spec_render_template(k@, env),
    };
    match a.value {
        AttrValue::Literal(v) => Result::Ok(spec_attr_kv(key, escape_text(spec_collapse(v@)))),
        AttrValue::Interpolated(v) => Result::Ok(
            spec_attr_kv(key, escape_text(spec_render_template(v@, env))),
        ),
        AttrValue::Bool(b) => if b {
            Result::Ok(spec_attr_bare(key))
        } else {
            Result::Ok(Seq::empty())
        },
        AttrValue::Path(p) => if sels.contains_key(p@) {
            Result::Ok(spec_attr_kv(key, escape_text(sels[p@])))
        } else {
            Result::Err(GSpecErr::UnknownPath(p@))
        },
        AttrValue::SignalFieldBinding(f) => if sigs.contains_key(f@) {
            Result::Ok(spec_attr_kv(key, sigs[f@]))
        } else {
            Result::Err(GSpecErr::SignalBindingNotSignalField(f@))
        },
        AttrValue::Expr(e) => if xmap.contains_key(e@) {
            Result::Ok(spec_attr_kv(key, escape_text(spec_scalar_text(xmap[e@]))))
        } else {
            Result::Err(GSpecErr::UnknownExpr(e@))
        },
    }
}

/// The concatenated text of an attribute list, the first error
/// winning.
pub open spec fn spec_render_attrs(
    attrs: Seq<AttrSpec>,
    i: int,
    env: Map<Seq<char>, Seq<char>>,
    sigs: Map<Seq<char>, Seq<char>>,
    sels: Map<Seq<char>, Seq<char>>,
    xmap: Map<Seq<char>, Scalar>,
) -> Result<Seq<char>, GSpecErr>
    decreases attrs.len() - i,
{
    if i < 0 || i >= attrs.len() {
        Result::Ok(Seq::empty())
    } else {
        match spec_render_attr(attrs[i], env, sigs, sels, xmap) {
            Result::Err(e) => Result::Err(e),
            Result::Ok(t) => match spec_render_attrs(attrs, i + 1, env, sigs, sels, xmap) {
                Result::Err(e) => Result::Err(e),
                Result::Ok(rest) => Result::Ok(t + rest),
            },
        }
    }
}

fn render_attr(
    a: &AttrSpec,
    env: &TemplateEnv,
    sigs: &TemplateEnv,
    ctx: &RenderContext,
) -> (r: Result<String, SpecError>)
    requires
        ctx.wf(),
    ensures
        match r {
            Result::Ok(t) => spec_render_attr(*a, env@, sigs@, ctx.selectors@, ctx.exprs@)
                == Result::Ok::<Seq<char>, GSpecErr>(t@),
            Result::Err(e) => spec_render_attr(*a, env@, sigs@, ctx.selectors@, ctx.exprs@)
                == Result::Err::<Seq<char>, GSpecErr>(e@),
        },
{
    let key: String = match &a.key {
        AttrKey::Literal(k) => k.clone(),
        AttrKey::Interpolated(k) => crate::interp::render_template(k.as_str(), env),
    };
    match &a.value {
        AttrValue::Literal(v) => {
            let collapsed = crate::interp::unescape_double_braces(v.as_str());
            let escaped = escape_attr_str(collapsed.as_str());
            Result::Ok(attr_kv(key.as_str(), escaped.as_str()))
        },
        AttrValue::Interpolated(v) => {
            let t = crate::interp::render_template(v.as_str(), env);
            let escaped = escape_attr_str(t.as_str());
            Result::Ok(attr_kv(key.as_str(), escaped.as_str()))
        },
        AttrValue::Bool(b) => {
            if *b {
                Result::Ok(attr_bare(key.as_str()))
            } else {
                Result::Ok(String::new())
            }
        },
        AttrValue::Path(p) => {
            match ctx.selectors.lookup(p.as_str()) {
                Option::Some(nm) => {
                    let escaped = escape_attr_str(nm.as_str());
                    Result::Ok(attr_kv(key.as_str(), escaped.as_str()))
                },
                Option::None => Result::Err(SpecError::UnknownPath(p.clone())),
            }
        },
        AttrValue::SignalFieldBinding(f) => {
            match sigs.lookup(f.as_str()) {
                Option::Some(nm) => Result::Ok(attr_kv(key.as_str(), nm.as_str())),
                Option::None => Result::Err(SpecError::SignalBindingNotSignalField(f.clone())),
            }
        },
        AttrValue::Expr(e) => {
            match ctx.exprs.lookup(e.as_str()) {
                Option::Some(v) => {
                    let t = scalar_to_text(v);
                    let escaped = escape_attr_str(t.as_str());
                    Result::Ok(attr_kv(key.as_str(), escaped.as_str()))
                },
                Option::None => Result::Err(SpecError::UnknownExpr(e.clone())),
            }
        },
    }
}

fn render_attrs(
    attrs: &Vec<AttrSpec>,
    i: usize,
    env: &TemplateEnv,
    sigs: &TemplateEnv,
    ctx: &RenderContext,
) -> (r: Result<String, SpecError>)
    requires
        ctx.wf(),
        i <= attrs@.len(),
    ensures
        match r {
            Result::Ok(t) => spec_render_attrs(attrs@, i as int, env@, sigs@, ctx.selectors@,
                ctx.exprs@) == Result::Ok::<Seq<char>, GSpecErr>(t@),
            Result::Err(e) => spec_render_attrs(attrs@, i as int, env@, sigs@, ctx.selectors@,
                ctx.exprs@) == Result::Err::<Seq<char>, GSpecErr>(e@),
        },
    decreases attrs@.len() - i,
{
    if i >= attrs.len() {
        Result::Ok(String::new())
    } else {
        match render_attr(&attrs[i], env, sigs, ctx) {
            Result::Err(e) => Result::Err(e),
            Result::Ok(t) => match render_attrs(attrs, i + 1, env, sigs, ctx) {
                Result::Err(e) => Result::Err(e),
                Result::Ok(rest) => {
                    let out = t.concat(rest.as_str());
                    Result::Ok(out)
                },
            },
        }
    }
}

// ------------------------------------------------------------------
// Format application: explicit arguments resolve through the field
// binding or the host's expression values.
// ------------------------------------------------------------------

/// Resolve explicit format arguments: an argument text naming a
/// bound field takes that field's value; any other text must have a
/// host-evaluated value in the context.
pub open spec fn spec_resolve_args(
    texts: Seq<Seq<char>>,
    i: int,
    senv: Map<Seq<char>, Scalar>,
    xmap: Map<Seq<char>, Scalar>,
) -> Result<Seq<Scalar>, GSpecErr>
    decreases texts.len() - i,
{
    if i < 0 || i >= texts.len() {
        Result::Ok(Seq::empty())
    } else {
        let v: Option<Scalar> = if senv.contains_key(texts[i]) {
            Option::Some(senv[texts[i]])
        } else if xmap.contains_key(texts[i]) {
            Option::Some(xmap[texts[i]])
        } else {
            Option::None
        };
        match v {
            Option::None => Result::Err(GSpecErr::UnknownExpr(texts[i])),
            Option::Some(s) => match spec_resolve_args(texts, i + 1, senv, xmap) {
                Result::Err(e) => Result::Err(e),
                Result::Ok(rest) => Result::Ok(seq![s] + rest),
            },
        }
    }
}

fn resolve_args(
    texts: &Vec<String>,
    i: usize,
    senv: &ScalarEnv,
    ctx: &RenderContext,
) -> (r: Result<Vec<Scalar>, SpecError>)
    requires
        ctx.wf(),
        senv.wf(),
        i <= texts@.len(),
    ensures
        match r {
            Result::Ok(vs) => spec_resolve_args(texts@.map_values(|t: String| t@), i as int,
                senv@, ctx.exprs@) == Result::Ok::<Seq<Scalar>, GSpecErr>(vs@) && (forall|j: int|
                0 <= j < vs@.len() ==> (#[trigger] vs@[j]).wf()),
            Result::Err(e) => spec_resolve_args(texts@.map_values(|t: String| t@), i as int,
                senv@, ctx.exprs@) == Result::Err::<Seq<Scalar>, GSpecErr>(e@),
        },
    decreases texts@.len() - i,
{
    let ghost gt = texts@.map_values(|t: String| t@);
    if i >= texts.len() {
        Result::Ok(Vec::new())
    } else {
        let v: Option<Scalar> = match senv.lookup(texts[i].as_str()) {
            Option::Some(s) => Option::Some(scalar_dup(s)),
            Option::None => match ctx.exprs.lookup(texts[i].as_str()) {
                Option::Some(s) => Option::Some(scalar_dup(s)),
                Option::None => Option::None,
            },
        };
        match v {
            Option::None => Result::Err(SpecError::UnknownExpr(texts[i].clone())),
            Option::Some(s) => match resolve_args(texts, i + 1, senv, ctx) {
                Result::Err(e) => Result::Err(e),
                Result::Ok(mut rest) => {
                    let ghost grest = rest@;
                    rest.insert(0, s);
                    proof {
                        assert(rest@ =~= seq![s] + grest);
                    }
                    Result::Ok(rest)
                },
            },
        }
    }
}

/// Apply a format specification: its explicit arguments if given,
/// else the supplied defaults, rendered through the format
/// template against the named binding.
pub open spec fn spec_apply_format(
    f: FormatSpec,
    defaults: Seq<Scalar>,
    senv: Map<Seq<char>, Scalar>,
    xmap: Map<Seq<char>, Scalar>,
) -> Result<Seq<char>, GSpecErr> {
    let pos: Result<Seq<Scalar>, GSpecErr> = match f.args {
        Option::None => Result::Ok(defaults),
        Option::Some(texts) => spec_resolve_args(texts@.map_values(|t: String| t@), 0, senv, xmap),
    };
    match pos {
        Result::Err(e) => Result::Err(e),
        Result::Ok(p) => match spec_render_fmt(f.format_string@, 0, 0, p, senv) {
            Option::None => Result::Err(GSpecErr::BadFormat(f.format_string@)),
            Option::Some(t) => Result::Ok(t),
        },
    }
}

fn apply_format(
    f: &FormatSpec,
    defaults: Vec<Scalar>,
    senv: &ScalarEnv,
    ctx: &RenderContext,
) -> (r: Result<String, SpecError>)
    requires
        ctx.wf(),
        senv.wf(),
        forall|j: int| 0 <= j < defaults@.len() ==> (#[trigger] defaults@[j]).wf(),
    ensures
        match r {
            Result::Ok(t) => spec_apply_format(*f, defaults@, senv@, ctx.exprs@) == Result::Ok::<
                Seq<char>,
                GSpecErr,
            >(t@),
            Result::Err(e) => spec_apply_format(*f, defaults@, senv@, ctx.exprs@) == Result::Err::<
                Seq<char>,
                GSpecErr,
            >(e@),
        },
{
    let pos: Vec<Scalar> = match &f.args {
        Option::None => defaults,
        Option::Some(texts) => {
            match resolve_args(texts, 0, senv, ctx) {
                Result::Err(e) => {
                    return Result::Err(e);
                },
                Result::Ok(vs) => vs,
            }
        },
    };
    match crate::fmtstr::render_format(f.format_string.as_str(), &pos, senv) {
        Result::Err(_) => Result::Err(SpecError::BadFormat(f.format_string.clone())),
        Result::Ok(t) => Result::Ok(t),
    }
}

// ------------------------------------------------------------------
// Field content.
// ------------------------------------------------------------------

/// The body text of a plain scalar field: its format applied to the
/// value, or the HTML escape of the value's default text — field
/// data never reaches the output unescaped.
pub open spec fn spec_scalar_content(
    s: Scalar,
    fs: FieldSpec,
    senv: Map<Seq<char>, Scalar>,
    xmap: Map<Seq<char>, Scalar>,
) -> Result<Seq<char>, GSpecErr> {
    match fs.format {
        Option::None => Result::Ok(escape_text(spec_scalar_text(s))),
        Option::Some(f) => spec_apply_format(f, seq![s], senv, xmap),
    }
}

/// The body text of an optional field. With a fallback, a present
/// value renders through the field's own format and an absent one
/// renders the fallback literal — spec-authored, so unescaped and
/// untouched by that format; without a fallback, a present value
/// renders as its escaped text and an absent one renders nothing.
pub open spec fn spec_optional_content(
    o: Option<Scalar>,
    fs: FieldSpec,
    senv: Map<Seq<char>, Scalar>,
    xmap: Map<Seq<char>, Scalar>,
) -> Result<Seq<char>, GSpecErr> {
    match fs.map_or {
        Option::Some(d) => match o {
            Option::Some(v) => match fs.format {
                Option::Some(f) => spec_apply_format(f, seq![v], senv, xmap),
                Option::None => Result::Ok(escape_text(spec_scalar_text(v))),
            },
            Option::None => Result::Ok(d@),
        },
        Option::None => match o {
            Option::Some(v) => Result::Ok(escape_text(spec_scalar_text(v))),
            Option::None => Result::Ok(Seq::empty()),
        },
    }
}

/// A signal field's body text: its value's text if present, else
/// nothing.
pub open spec fn spec_signal_text(sb: SignalBinding) -> Seq<char> {
    match sb.value {
        Option::Some(s) => spec_scalar_text(s),
        Option::None => Seq::empty(),
    }
}

/// The default rendering of a payload list: each value's escaped
/// text, concatenated.
pub open spec fn spec_payload_text(p: Seq<Scalar>, i: int) -> Seq<char>
    decreases p.len() - i,
{
    if i < 0 || i >= p.len() {
        Seq::empty()
    } else {
        escape_text(spec_scalar_text(p[i])) + spec_payload_text(p, i + 1)
    }
}

fn payload_text(p: &Vec<Scalar>, i: usize) -> (r: String)
    requires
        payload_wf(p@),
        i <= p@.len(),
    ensures
        r@ == spec_payload_text(p@, i as int),
    decreases p@.len() - i,
{
    if i >= p.len() {
        String::new()
    } else {
        let raw = scalar_to_text(&p[i]);
        let t = escape_attr_str(raw.as_str());
        let rest = payload_text(p, i + 1);
        let out = t.concat(rest.as_str());
        out
    }
}

// ------------------------------------------------------------------
// Fields that are themselves attributes of their parent.
// ------------------------------------------------------------------

/// The attribute text a field marked `is_attr` contributes to its
/// parent's open tag, under its renamed or dash-normalized name: a
/// boolean appears bare and only when true; an optional value only
/// when present, escaped; a plain scalar always, escaped.
pub open spec fn spec_field_attr(f: Field) -> Result<Seq<char>, GSpecErr> {
    let name = match f.spec.attr_rename {
        Option::Some(n) => n@,
        Option::None => crate::attrparse::spec_normalize(f.name@),
    };
    match f.data {
        FieldData::Scalar(s) => match s {
            Scalar::Bool(b) => if b {
                Result::Ok(spec_attr_bare(name))
            } else {
                Result::Ok(Seq::empty())
            },
            _ => Result::Ok(spec_attr_kv(name, escape_text(spec_scalar_text(s)))),
        },
        FieldData::Optional(o) => match o {
            Option::Some(s) => Result::Ok(spec_attr_kv(name, escape_text(spec_scalar_text(s)))),
            Option::None => Result::Ok(Seq::empty()),
        },
        FieldData::Signal(sb) => match sb.value {
            Option::Some(s) => Result::Ok(spec_attr_kv(name, escape_text(spec_scalar_text(s)))),
            Option::None => Result::Ok(Seq::empty()),
        },
        _ => Result::Err(GSpecErr::UnsupportedShape(f.name@)),
    }
}

pub open spec fn spec_field_attrs(fields: Seq<Field>, i: int) -> Result<Seq<char>, GSpecErr>
    decreases fields.len() - i,
{
    if i < 0 || i >= fields.len() {
        Result::Ok(Seq::empty())
    } else if fields[i].spec.is_attr {
        match spec_field_attr(fields[i]) {
            Result::Err(e) => Result::Err(e),
            Result::Ok(t) => match spec_field_attrs(fields, i + 1) {
                Result::Err(e) => Result::Err(e),
                Result::Ok(rest) => Result::Ok(t + rest),
            },
        }
    } else {
        spec_field_attrs(fields, i + 1)
    }
}

fn render_field_attr(f: &Field) -> (r: Result<String, SpecError>)
    requires
        data_wf(f.data),
    ensures
        match r {
            Result::Ok(t) => spec_field_attr(*f) == Result::Ok::<Seq<char>, GSpecErr>(t@),
            Result::Err(e) => spec_field_attr(*f) == Result::Err::<Seq<char>, GSpecErr>(e@),
        },
{
    let name: String = match &f.spec.attr_rename {
        Option::Some(n) => n.clone(),
        Option::None => crate::attrparse::normalize_attr_key(f.name.as_str()),
    };
    match &f.data {
        FieldData::Scalar(s) => match s {
            Scalar::Bool(b) => {
                if *b {
                    Result::Ok(attr_bare(name.as_str()))
                } else {
                    Result::Ok(String::new())
                }
            },
            _ => {
                let t = scalar_to_text(s);
                let escaped = escape_attr_str(t.as_str());
                Result::Ok(attr_kv(name.as_str(), escaped.as_str()))
            },
        },
        FieldData::Optional(o) => match o {
            Option::Some(s) => {
                let t = scalar_to_text(s);
                let escaped = escape_attr_str(t.as_str());
                Result::Ok(attr_kv(name.as_str(), escaped.as_str()))
            },
            Option::None => Result::Ok(String::new()),
        },
        FieldData::Signal(sb) => match &sb.value {
            Option::Some(s) => {
                let t = scalar_to_text(s);
                let escaped = escape_attr_str(t.as_str());
                Result::Ok(attr_kv(name.as_str(), escaped.as_str()))
            },
            Option::None => Result::Ok(String::new()),
        },
        _ => Result::Err(SpecError::UnsupportedShape(f.name.clone())),
    }
}

fn render_field_attrs(fields: &Vec<Field>, i: usize) -> (r: Result<String, SpecError>)
    requires
        fields_wf(fields@, 0),
        i <= fields@.len(),
    ensures
        match r {
            Result::Ok(t) => spec_field_attrs(fields@, i as int) == Result::Ok::<
                Seq<char>,
                GSpecErr,
            >(t@),
            Result::Err(e) => spec_field_attrs(fields@, i as int) == Result::Err::<
                Seq<char>,
                GSpecErr,
            >(e@),
        },
    decreases fields@.len() - i,
{
    if i >= fields.len() {
        Result::Ok(String::new())
    } else if fields[i].spec.is_attr {
        proof {
            lemma_fields_wf_at(fields@, 0, i as int);
        }
        match render_field_attr(&fields[i]) {
            Result::Err(e) => Result::Err(e),
            Result::Ok(t) => match render_field_attrs(fields, i + 1) {
                Result::Err(e) => Result::Err(e),
                Result::Ok(rest) => Result::Ok(t.concat(rest.as_str())),
            },
        }
    } else {
        render_field_attrs(fields, i + 1)
    }
}

// ------------------------------------------------------------------
// The rendering procedure itself.
// ------------------------------------------------------------------

/// The body text of a composite value's named fields, in
/// declaration order. Fields marked as attributes of the parent,
/// and fields not marked for rendering, contribute nothing here. A
/// field with its own tag is wrapped in it under the void-element
/// rule, its own attribute list emitted inside the open tag.
pub open spec fn spec_render_fields(
    fields: Seq<Field>,
    i: int,
    env: Map<Seq<char>, Seq<char>>,
    senv: Map<Seq<char>, Scalar>,
    sigs: Map<Seq<char>, Seq<char>>,
    sels: Map<Seq<char>, Seq<char>>,
    xmap: Map<Seq<char>, Scalar>,
) -> Result<Seq<char>, GSpecErr>
    decreases fields, fields.len() - i, 0int,
{
    if i < 0 || i >= fields.len() {
        Result::Ok(Seq::empty())
    } else {
        let f = fields[i];
        let this: Result<Seq<char>, GSpecErr> = if f.spec.is_attr || !f.spec.should_render {
            Result::Ok(Seq::empty())
        } else {
            let content: Result<Seq<char>, GSpecErr> = match f.data {
                FieldData::Unit => Result::Ok(Seq::empty()),
                FieldData::Scalar(s) => spec_scalar_content(s, f.spec, senv, xmap),
                FieldData::Optional(o) => spec_optional_content(o, f.spec, senv, xmap),
                FieldData::Signal(sb) => Result::Ok(escape_text(spec_signal_text(sb))),
                FieldData::Repeated(items) => spec_render_items(items@, 0, sels, xmap),
                FieldData::Nested(bn) => if f.spec.format is Some {
                    Result::Err(GSpecErr::UnsupportedShape(f.name@))
                } else {
                    spec_render_node(*bn, sels, xmap)
                },
            };
            match content {
                Result::Err(e) => Result::Err(e),
                Result::Ok(c) => match f.spec.tag {
                    Option::None => Result::Ok(c),
                    Option::Some(tag) => match spec_render_attrs(
                        f.spec.attrs@,
                        0,
                        env,
                        sigs,
                        sels,
                        xmap,
                    ) {
                        Result::Err(e) => Result::Err(e),
                        Result::Ok(at) => Result::Ok(spec_wrap_tag(tag@, at, c)),
                    },
                },
            }
        };
        match this {
            Result::Err(e) => Result::Err(e),
            Result::Ok(t) => match spec_render_fields(fields, i + 1, env, senv, sigs, sels, xmap) {
                Result::Err(e) => Result::Err(e),
                Result::Ok(rest) => Result::Ok(t + rest),
            },
        }
    }
}

/// The concatenation of a repeated field's elements, each rendered
/// by its own procedure, in order, with no separator.
pub open spec fn spec_render_items(
    items: Seq<Node>,
    i: int,
    sels: Map<Seq<char>, Seq<char>>,
    xmap: Map<Seq<char>, Scalar>,
) -> Result<Seq<char>, GSpecErr>
    decreases items, items.len() - i, 0int,
{
    if i < 0 || i >= items.len() {
        Result::Ok(Seq::empty())
    } else {
        match spec_render_node(items[i], sels, xmap) {
            Result::Err(e) => Result::Err(e),
            Result::Ok(t) => match spec_render_items(items, i + 1, sels, xmap) {
                Result::Err(e) => Result::Err(e),
                Result::Ok(rest) => Result::Ok(t + rest),
            },
        }
    }
}

/// What a renderable value renders to.
///
/// A composite value renders its fields' body text (or, under a
/// type-level format, that format applied to the all-fields
/// binding), wrapped in the type-level tag with the attribute list
/// and the attribute-marked fields inside the open tag; with no tag
/// it is a bare fragment. A variant value must carry a tag; the
/// active case's payload renders through the case's format or — for
/// at most one payload value; more without a format is an
/// unsupported payload arity — as the payload's escaped text,
/// inside the case's own tag if it has one, inside the type-level
/// tag; a variant type's wrappers always carry their closing tag,
/// void-named or not. Field
/// data is HTML-escaped on its way into body text, exactly once;
/// spec-authored literals, nested renders and plain text nodes —
/// markup the host authored — stand as they are.
pub open spec fn spec_render_node(
    n: Node,
    sels: Map<Seq<char>, Seq<char>>,
    xmap: Map<Seq<char>, Scalar>,
) -> Result<Seq<char>, GSpecErr>
    decreases n, 0int, 0int,
{
    match n {
        Node::Text(t) => Result::Ok(t@),
        Node::Struct(sn) => {
            let env = match sn.body {
                StructBody::Named(fields) => fields_env(fields@),
                _ => Map::empty(),
            };
            let senv = match sn.body {
                StructBody::Named(fields) => fields_senv(fields@),
                _ => Map::empty(),
            };
            let sigs = match sn.body {
                StructBody::Named(fields) => fields_sigs(fields@),
                _ => Map::empty(),
            };
            let content: Result<Seq<char>, GSpecErr> = match sn.body {
                StructBody::Named(fields) => match sn.spec.format {
                    Option::Some(f) => spec_apply_format(f, fields_pos(fields@), senv, xmap),
                    Option::None => spec_render_fields(fields@, 0, env, senv, sigs, sels, xmap),
                },
                StructBody::Single(d) => match d {
                    FieldData::Scalar(s) => Result::Ok(escape_text(spec_scalar_text(s))),
                    FieldData::Optional(o) => match (o, sn.spec.map_or) {
                        (Option::Some(v), _) => Result::Ok(escape_text(spec_scalar_text(v))),
                        (Option::None, Option::Some(dflt)) => Result::Ok(dflt@),
                        (Option::None, Option::None) => Result::Ok(Seq::empty()),
                    },
                    _ => Result::Err(GSpecErr::UnsupportedShape(Seq::empty())),
                },
                StructBody::Empty => Result::Ok(Seq::empty()),
            };
            match sn.spec.tag {
                Option::None => content,
                Option::Some(tag) => match spec_render_attrs(
                    sn.spec.attrs@,
                    0,
                    env,
                    sigs,
                    sels,
                    xmap,
                ) {
                    Result::Err(e) => Result::Err(e),
                    Result::Ok(at) => {
                        let fat: Result<Seq<char>, GSpecErr> = match sn.body {
                            StructBody::Named(fields) => spec_field_attrs(fields@, 0),
                            _ => Result::Ok(Seq::empty()),
                        };
                        match fat {
                            Result::Err(e) => Result::Err(e),
                            Result::Ok(ft) => match content {
                                Result::Err(e) => Result::Err(e),
                                Result::Ok(c) => Result::Ok(spec_wrap_tag(tag@, at + ft, c)),
                            },
                        }
                    },
                },
            }
        },
        Node::Enum(en) => {
            match en.spec.tag {
                Option::None => Result::Err(GSpecErr::EnumWithoutTag),
                Option::Some(tag) => {
                    match spec_render_attrs(
                        en.spec.attrs@,
                        0,
                        Map::empty(),
                        Map::empty(),
                        sels,
                        xmap,
                    ) {
                        Result::Err(e) => Result::Err(e),
                        Result::Ok(at) => {
                            let content: Result<Seq<char>, GSpecErr> = match en.case.format {
                                Option::Some(f) => spec_apply_format(
                                    f,
                                    en.case.payload@,
                                    Map::empty(),
                                    xmap,
                                ),
                                Option::None => if en.case.payload@.len() >= 2 {
                                    Result::Err(GSpecErr::UnsupportedPayloadArity)
                                } else {
                                    Result::Ok(spec_payload_text(en.case.payload@, 0))
                                },
                            };
                            match content {
                                Result::Err(e) => Result::Err(e),
                                Result::Ok(c) => {
                                    let inner = match en.case.tag {
                                        Option::Some(ct) => spec_wrap_pair(ct@, Seq::empty(), c),
                                        Option::None => c,
                                    };
                                    Result::Ok(spec_wrap_pair(tag@, at, inner))
                                },
                            }
                        },
                    }
                },
            }
        },
    }
}

fn render_fields(
    fields: &Vec<Field>,
    i: usize,
    env: &TemplateEnv,
    senv: &ScalarEnv,
    sigs: &TemplateEnv,
    ctx: &RenderContext,
) -> (r: Result<String, SpecError>)
    requires
        ctx.wf(),
        senv.wf(),
        fields_wf(fields@, 0),
        i <= fields@.len(),
    ensures
        match r {
            Result::Ok(t) => spec_render_fields(fields@, i as int, env@, senv@, sigs@,
                ctx.selectors@, ctx.exprs@) == Result::Ok::<Seq<char>, GSpecErr>(t@),
            Result::Err(e) => spec_render_fields(fields@, i as int, env@, senv@, sigs@,
                ctx.selectors@, ctx.exprs@) == Result::Err::<Seq<char>, GSpecErr>(e@),
        },
    decreases fields@, fields@.len() - i, 1int,
{
    if i >= fields.len() {
        Result::Ok(String::new())
    } else {
        proof {
            lemma_fields_wf_at(fields@, 0, i as int);
        }
        let f = &fields[i];
        let this: Result<String, SpecError> = if f.spec.is_attr || !f.spec.should_render {
            Result::Ok(String::new())
        } else {
            let content: Result<String, SpecError> = match &f.data {
                FieldData::Unit => Result::Ok(String::new()),
                FieldData::Scalar(s) => {
                    match &f.spec.format {
                        Option::None => {
                            let raw = scalar_to_text(s);
                            Result::Ok(escape_attr_str(raw.as_str()))
                        },
                        Option::Some(fmt) => {
                            let mut defaults: Vec<Scalar> = Vec::new();
                            defaults.push(scalar_dup(s));
                            proof {
                                assert(defaults@ =~= seq![*s]);
                            }
                            apply_format(fmt, defaults, senv, ctx)
                        },
                    }
                },
                FieldData::Optional(o) => {
                    match &f.spec.map_or {
                        Option::Some(d) => match o {
                            Option::Some(v) => match &f.spec.format {
                                Option::Some(fmt) => {
                                    let mut defaults: Vec<Scalar> = Vec::new();
                                    defaults.push(scalar_dup(v));
                                    proof {
                                        assert(defaults@ =~= seq![*v]);
                                    }
                                    apply_format(fmt, defaults, senv, ctx)
                                },
                                Option::None => {
                                    let raw = scalar_to_text(v);
                                    Result::Ok(escape_attr_str(raw.as_str()))
                                },
                            },
                            Option::None => Result::Ok(d.clone()),
                        },
                        Option::None => match o {
                            Option::Some(v) => {
                                let raw = scalar_to_text(v);
                                Result::Ok(escape_attr_str(raw.as_str()))
                            },
                            Option::None => Result::Ok(String::new()),
                        },
                    }
                },
                FieldData::Signal(sb) => match &sb.value {
                    Option::Some(s) => {
                        let raw = scalar_to_text(s);
                        Result::Ok(escape_attr_str(raw.as_str()))
                    },
                    Option::None => {
                        proof {
                            assert(escape_text(Seq::<char>::empty()) =~= Seq::<char>::empty());
                        }
                        Result::Ok(String::new())
                    },
                },
                FieldData::Repeated(items) => render_items(items, 0, ctx),
                FieldData::Nested(bn) => {
                    if f.spec.format.is_some() {
                        Result::Err(SpecError::UnsupportedShape(f.name.clone()))
                    } else {
                        render_node(&**bn, ctx)
                    }
                },
            };
            match content {
                Result::Err(e) => Result::Err(e),
                Result::Ok(c) => match &f.spec.tag {
                    Option::None => Result::Ok(c),
                    Option::Some(tag) => match render_attrs(&f.spec.attrs, 0, env, sigs, ctx) {
                        Result::Err(e) => Result::Err(e),
                        Result::Ok(at) => Result::Ok(
                            wrap_with_tag(tag.as_str(), at.as_str(), c.as_str()),
                        ),
                    },
                },
            }
        };
        match this {
            Result::Err(e) => Result::Err(e),
            Result::Ok(t) => match render_fields(fields, i + 1, env, senv, sigs, ctx) {
                Result::Err(e) => Result::Err(e),
                Result::Ok(rest) => Result::Ok(t.concat(rest.as_str())),
            },
        }
    }
}

fn render_items(items: &Vec<Node>, i: usize, ctx: &RenderContext) -> (r: Result<
    String,
    SpecError,
>)
    requires
        ctx.wf(),
        nodes_wf(items@, 0),
        i <= items@.len(),
    ensures
        match r {
            Result::Ok(t) => spec_render_items(items@, i as int, ctx.selectors@, ctx.exprs@)
                == Result::Ok::<Seq<char>, GSpecErr>(t@),
            Result::Err(e) => spec_render_items(items@, i as int, ctx.selectors@, ctx.exprs@)
                == Result::Err::<Seq<char>, GSpecErr>(e@),
        },
    decreases items@, items@.len() - i, 1int,
{
    if i >= items.len() {
        Result::Ok(String::new())
    } else {
        proof {
            lemma_nodes_wf_at(items@, 0, i as int);
        }
        match render_node(&items[i], ctx) {
            Result::Err(e) => Result::Err(e),
            Result::Ok(t) => match render_items(items, i + 1, ctx) {
                Result::Err(e) => Result::Err(e),
                Result::Ok(rest) => Result::Ok(t.concat(rest.as_str())),
            },
        }
    }
}

/// Render a value to markup text, or report the
/// specification-level fault that makes its specification invalid.
/// The output is exactly what [`spec_render_node`] defines.
pub fn render_node(n: &Node, ctx: &RenderContext) -> (r: Result<String, SpecError>)
    requires
        ctx.wf(),
        node_wf(*n),
    ensures
        match r {
            Result::Ok(t) => spec_render_node(*n, ctx.selectors@, ctx.exprs@) == Result::Ok::<
                Seq<char>,
                GSpecErr,
            >(t@),
            Result::Err(e) => spec_render_node(*n, ctx.selectors@, ctx.exprs@) == Result::Err::<
                Seq<char>,
                GSpecErr,
            >(e@),
        },
    decreases n, 0int, 0int,
{
    match n {
        Node::Text(t) => Result::Ok(t.clone()),
        Node::Struct(sn) => {
            let empty_env = TemplateEnv::new();
            let empty_senv = ScalarEnv::new();
            let empty_sigs = TemplateEnv::new();
            match &sn.body {
                StructBody::Named(fields) => {
                    let env = build_env(fields);
                    let senv = build_senv(fields);
                    let sigs = build_sigs(fields);
                    let content: Result<String, SpecError> = match &sn.spec.format {
                        Option::Some(f) => {
                            let defaults = build_pos(fields);
                            apply_format(f, defaults, &senv, ctx)
                        },
                        Option::None => render_fields(fields, 0, &env, &senv, &sigs, ctx),
                    };
                    finish_struct(&sn.spec, fields, &env, &sigs, content, ctx)
                },
                StructBody::Single(d) => {
                    let content: Result<String, SpecError> = match d {
                        FieldData::Scalar(s) => {
                            proof {
                                assert(data_wf(*d));
                            }
                            let raw = scalar_to_text(s);
                            Result::Ok(escape_attr_str(raw.as_str()))
                        },
                        FieldData::Optional(o) => match o {
                            Option::Some(v) => {
                                proof {
                                    assert(data_wf(*d));
                                }
                                let raw = scalar_to_text(v);
                                Result::Ok(escape_attr_str(raw.as_str()))
                            },
                            Option::None => match &sn.spec.map_or {
                                Option::Some(dflt) => Result::Ok(dflt.clone()),
                                Option::None => Result::Ok(String::new()),
                            },
                        },
                        _ => Result::Err(SpecError::UnsupportedShape(String::new())),
                    };
                    match &sn.spec.tag {
                        Option::None => content,
                        Option::Some(tag) => match render_attrs(
                            &sn.spec.attrs,
                            0,
                            &empty_env,
                            &empty_sigs,
                            ctx,
                        ) {
                            Result::Err(e) => Result::Err(e),
                            Result::Ok(at) => match content {
                                Result::Err(e) => Result::Err(e),
                                Result::Ok(c) => {
                                    proof {
                                        assert(at@ + Seq::<char>::empty() =~= at@);
                                    }
                                    Result::Ok(
                                        wrap_with_tag(tag.as_str(), at.as_str(), c.as_str()),
                                    )
                                },
                            },
                        },
                    }
                },
                StructBody::Empty => {
                    match &sn.spec.tag {
                        Option::None => Result::Ok(String::new()),
                        Option::Some(tag) => match render_attrs(
                            &sn.spec.attrs,
                            0,
                            &empty_env,
                            &empty_sigs,
                            ctx,
                        ) {
                            Result::Err(e) => Result::Err(e),
                            Result::Ok(at) => {
                                proof {
                                    reveal_strlit("");
                                    assert(""@ =~= Seq::<char>::empty());
                                    assert(at@ + Seq::<char>::empty() =~= at@);
                                }
                                Result::Ok(wrap_with_tag(tag.as_str(), at.as_str(), ""))
                            },
                        },
                    }
                },
            }
        },
        Node::Enum(en) => {
            match &en.spec.tag {
                Option::None => Result::Err(SpecError::EnumWithoutTag),
                Option::Some(tag) => {
                    let empty_env = TemplateEnv::new();
                    let empty_sigs = TemplateEnv::new();
                    match render_attrs(&en.spec.attrs, 0, &empty_env, &empty_sigs, ctx) {
                        Result::Err(e) => Result::Err(e),
                        Result::Ok(at) => {
                            let empty_senv = ScalarEnv::new();
                            let content: Result<String, SpecError> = match &en.case.format {
                                Option::Some(f) => {
                                    let defaults = dup_scalars(&en.case.payload);
                                    apply_format(f, defaults, &empty_senv, ctx)
                                },
                                Option::None => {
                                    if en.case.payload.len() >= 2 {
                                        Result::Err(SpecError::UnsupportedPayloadArity)
                                    } else {
                                        Result::Ok(payload_text(&en.case.payload, 0))
                                    }
                                },
                            };
                            match content {
                                Result::Err(e) => Result::Err(e),
                                Result::Ok(c) => {
                                    let inner: String = match &en.case.tag {
                                        Option::Some(ct) => wrap_with_pair(
                                            ct.as_str(),
                                            "",
                                            c.as_str(),
                                        ),
                                        Option::None => c,
                                    };
                                    proof {
                                        reveal_strlit("");
                                        assert(""@ =~= Seq::<char>::empty());
                                    }
                                    Result::Ok(
                                        wrap_with_pair(tag.as_str(), at.as_str(), inner.as_str()),
                                    )
                                },
                            }
                        },
                    }
                },
            }
        },
    }
}

/// Finish a named-fields composite: attributes, attribute-marked
/// fields, then the tag wrap.
fn finish_struct(
    spec: &ElementSpec,
    fields: &Vec<Field>,
    env: &TemplateEnv,
    sigs: &TemplateEnv,
    content: Result<String, SpecError>,
    ctx: &RenderContext,
) -> (r: Result<String, SpecError>)
    requires
        ctx.wf(),
        fields_wf(fields@, 0),
    ensures
        ({
            let gcontent: Result<Seq<char>, GSpecErr> = match content {
                Result::Ok(t) => Result::Ok(t@),
                Result::Err(e) => Result::Err(e@),
            };
            let expected: Result<Seq<char>, GSpecErr> = match spec.tag {
                Option::None => gcontent,
                Option::Some(tag) => match spec_render_attrs(
                    spec.attrs@,
                    0,
                    env@,
                    sigs@,
                    ctx.selectors@,
                    ctx.exprs@,
                ) {
                    Result::Err(e) => Result::Err(e),
                    Result::Ok(at) => match spec_field_attrs(fields@, 0) {
                        Result::Err(e) => Result::Err(e),
                        Result::Ok(ft) => match gcontent {
                            Result::Err(e) => Result::Err(e),
                            Result::Ok(c) => Result::Ok(spec_wrap_tag(tag@, at + ft, c)),
                        },
                    },
                },
            };
            match r {
                Result::Ok(t) => expected == Result::Ok::<Seq<char>, GSpecErr>(t@),
                Result::Err(e) => expected == Result::Err::<Seq<char>, GSpecErr>(e@),
            }
        }),
{
    match &spec.tag {
        Option::None => content,
        Option::Some(tag) => {
            match render_attrs(&spec.attrs, 0, env, sigs, ctx) {
                Result::Err(e) => Result::Err(e),
                Result::Ok(at) => {
                    match render_field_attrs(fields, 0) {
                        Result::Err(e) => Result::Err(e),
                        Result::Ok(ft) => {
                            match content {
                                Result::Err(e) => Result::Err(e),
                                Result::Ok(c) => {
                                    let allat = at.concat(ft.as_str());
                                    Result::Ok(
                                        wrap_with_tag(tag.as_str(), allat.as_str(), c.as_str()),
                                    )
                                },
                            }
                        },
                    }
                },
            }
        },
    }
}

fn dup_scalars(v: &Vec<Scalar>) -> (r: Vec<Scalar>)
    ensures
        r@ == v@,
{
    let mut out: Vec<Scalar> = Vec::new();
    let mut i: usize = 0;
    while i < v.len()
        invariant
            i <= v@.len(),
            out@ == v@.take(i as int),
        decreases v@.len() - i,
    {
        out.push(scalar_dup(&v[i]));
        proof {
            assert(v@.take((i + 1) as int) =~= v@.take(i as int).push(v@[i as int]));
        }
        i = i + 1;
    }
    proof {
        assert(v@.take(v@.len() as int) =~= v@);
    }
    out
}

impl Node {
    /// Render this value against a context.
    pub fn render(&self, ctx: &RenderContext) -> (r: Result<String, SpecError>)
        requires
            ctx.wf(),
            node_wf(*self),
        ensures
            match r {
                Result::Ok(t) => spec_render_node(*self, ctx.selectors@, ctx.exprs@)
                    == Result::Ok::<Seq<char>, GSpecErr>(t@),
                Result::Err(e) => spec_render_node(*self, ctx.selectors@, ctx.exprs@)
                    == Result::Err::<Seq<char>, GSpecErr>(e@),
            },
    {
        render_node(self, ctx)
    }

    /// Check the value's specification without keeping the text:
    /// succeeds exactly where [`Self::render`] does, and reports
    /// exactly the same specification-build-time fault otherwise.
    pub fn validate(&self, ctx: &RenderContext) -> (r: Result<(), SpecError>)
        requires
            ctx.wf(),
            node_wf(*self),
        ensures
            r is Ok <==> spec_render_node(*self, ctx.selectors@, ctx.exprs@) is Ok,
            r matches Result::Err(e) ==> spec_render_node(*self, ctx.selectors@, ctx.exprs@)
                == Result::Err::<Seq<char>, GSpecErr>(e@),
    {
        match render_node(self, ctx) {
            Result::Ok(_) => Result::Ok(()),
            Result::Err(e) => Result::Err(e),
        }
    }
}

} // verus!

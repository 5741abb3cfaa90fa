//! The specification model: the typed attribute items that the
//! attribute-list grammar parses into, the per-type and per-field
//! specifications built from a type's annotations, and the
//! specification-build-time error taxonomy.

use vstd::prelude::*;

use crate::attrparse::{
    spec_items, spec_split_args, GAttrItem, AttrItem, parse_items, split_args,
};
use crate::interp::spec_has_field;

verus! {

/// An attribute key: a fixed literal, or a template interpolated at
/// render time.
pub enum GAttrKey {
    Literal(Seq<char>),
    Interpolated(Seq<char>),
}

#[derive(Clone, Debug)]
pub enum AttrKey {
    Literal(String),
    Interpolated(String),
}

impl View for AttrKey {
    type V = GAttrKey;

    open spec fn view(&self) -> GAttrKey {
        match self {
            AttrKey::Literal(s) => GAttrKey::Literal(s@),
            AttrKey::Interpolated(s) => GAttrKey::Interpolated(s@),
        }
    }
}

/// An attribute value: a literal or interpolated template, a
/// boolean, a path reference resolved to its name at render time, a
/// signal field binding, or an opaque expression evaluated by the
/// host.
pub enum GAttrValue {
    Literal(Seq<char>),
    Interpolated(Seq<char>),
    Bool(bool),
    Path(Seq<char>),
    SignalFieldBinding(Seq<char>),
    Expr(Seq<char>),
}

#[derive(Clone, Debug)]
pub enum AttrValue {
    Literal(String),
    Interpolated(String),
    Bool(bool),
    Path(String),
    SignalFieldBinding(String),
    Expr(String),
}

impl View for AttrValue {
    type V = GAttrValue;

    open spec fn view(&self) -> GAttrValue {
        match self {
            AttrValue::Literal(s) => GAttrValue::Literal(s@),
            AttrValue::Interpolated(s) => GAttrValue::Interpolated(s@),
            AttrValue::Bool(b) => GAttrValue::Bool(*b),
            AttrValue::Path(s) => GAttrValue::Path(s@),
            AttrValue::SignalFieldBinding(s) => GAttrValue::SignalFieldBinding(s@),
            AttrValue::Expr(s) => GAttrValue::Expr(s@),
        }
    }
}

pub struct GAttrSpec {
    pub key: GAttrKey,
    pub value: GAttrValue,
}

/// One attribute of an element: a classified key and value.
#[derive(Clone, Debug)]
pub struct AttrSpec {
    pub key: AttrKey,
    pub value: AttrValue,
}

impl View for AttrSpec {
    type V = GAttrSpec;

    open spec fn view(&self) -> GAttrSpec {
        GAttrSpec { key: self.key@, value: self.value@ }
    }
}

pub struct GFormatSpec {
    pub format_string: Seq<char>,
    pub args: Option<Seq<Seq<char>>>,
}

/// A format template plus an optional explicit argument list that
/// overrides the default all-fields-by-name binding.
#[derive(Clone, Debug)]
pub struct FormatSpec {
    pub format_string: String,
    pub args: Option<Vec<String>>,
}

impl View for FormatSpec {
    type V = GFormatSpec;

    open spec fn view(&self) -> GFormatSpec {
        GFormatSpec {
            format_string: self.format_string@,
            args: match &self.args {
                Option::None => Option::None,
                Option::Some(v) => Option::Some(v@.map_values(|t: String| t@)),
            },
        }
    }
}

pub struct GElementSpec {
    pub tag: Option<Seq<char>>,
    pub attrs: Seq<GAttrSpec>,
    pub format: Option<GFormatSpec>,
    pub map_or: Option<Seq<char>>,
}

/// The type-level specification: wrapper tag, attribute list,
/// format template, and optional-fallback literal.
#[derive(Clone, Debug)]
pub struct ElementSpec {
    pub tag: Option<String>,
    pub attrs: Vec<AttrSpec>,
    pub format: Option<FormatSpec>,
    pub map_or: Option<String>,
}

impl View for ElementSpec {
    type V = GElementSpec;

    open spec fn view(&self) -> GElementSpec {
        GElementSpec {
            tag: match &self.tag {
                Option::None => Option::None,
                Option::Some(t) => Option::Some(t@),
            },
            attrs: self.attrs@.map_values(|a: AttrSpec| a@),
            format: match &self.format {
                Option::None => Option::None,
                Option::Some(f) => Option::Some(f@),
            },
            map_or: match &self.map_or {
                Option::None => Option::None,
                Option::Some(m) => Option::Some(m@),
            },
        }
    }
}

pub struct GFieldSpec {
    pub tag: Option<Seq<char>>,
    pub should_render: bool,
    pub attrs: Seq<GAttrSpec>,
    pub format: Option<GFormatSpec>,
    pub map_or: Option<Seq<char>>,
    pub is_attr: bool,
    pub attr_rename: Option<Seq<char>>,
}

/// The per-field specification: the field's own tag and attributes,
/// whether it renders at all, whether it is itself one attribute of
/// its parent, and under what name.
#[derive(Clone, Debug)]
pub struct FieldSpec {
    pub tag: Option<String>,
    pub should_render: bool,
    pub attrs: Vec<AttrSpec>,
    pub format: Option<FormatSpec>,
    pub map_or: Option<String>,
    pub is_attr: bool,
    pub attr_rename: Option<String>,
}

impl View for FieldSpec {
    type V = GFieldSpec;

    open spec fn view(&self) -> GFieldSpec {
        GFieldSpec {
            tag: match &self.tag {
                Option::None => Option::None,
                Option::Some(t) => Option::Some(t@),
            },
            should_render: self.should_render,
            attrs: self.attrs@.map_values(|a: AttrSpec| a@),
            format: match &self.format {
                Option::None => Option::None,
                Option::Some(f) => Option::Some(f@),
            },
            map_or: match &self.map_or {
                Option::None => Option::None,
                Option::Some(m) => Option::Some(m@),
            },
            is_attr: self.is_attr,
            attr_rename: match &self.attr_rename {
                Option::None => Option::None,
                Option::Some(m) => Option::Some(m@),
            },
        }
    }
}

/// The specification-build-time errors. They are fatal: nothing is
/// deferred to render time.
pub enum GSpecErr {
    MalformedAttrList,
    MalformedAnnotation,
    AttrsWithoutTag,
    EnumWithoutTag,
    RenameWithValues,
    UnsupportedPayloadArity,
    SignalBindingNotSignalField(Seq<char>),
    UnknownPath(Seq<char>),
    UnknownExpr(Seq<char>),
    UnsupportedShape(Seq<char>),
    BadFormat(Seq<char>),
}

#[derive(Clone, Debug, PartialEq)]
pub enum SpecError {
    /// The attribute grammar did not parse.
    MalformedAttrList,
    /// An annotation misses its required string literal.
    MalformedAnnotation,
    /// A type-level attribute list with no declared tag.
    AttrsWithoutTag,
    /// A variant type with no declared tag.
    EnumWithoutTag,
    /// A rename item mixed with value items.
    RenameWithValues,
    /// A variant case carrying two or more payload values with no
    /// format template to consume them.
    UnsupportedPayloadArity,
    /// A field-reference binding pointing at a field the type
    /// lacks or one that is not signal-typed.
    SignalBindingNotSignalField(String),
    /// A path reference the context cannot resolve.
    UnknownPath(String),
    /// An expression value the context holds no evaluation for.
    UnknownExpr(String),
    /// A field or payload shape the planner does not support.
    UnsupportedShape(String),
    /// A format template that is malformed or unresolvable.
    BadFormat(String),
}

impl View for SpecError {
    type V = GSpecErr;

    open spec fn view(&self) -> GSpecErr {
        match self {
            SpecError::MalformedAttrList => GSpecErr::MalformedAttrList,
            SpecError::MalformedAnnotation => GSpecErr::MalformedAnnotation,
            SpecError::AttrsWithoutTag => GSpecErr::AttrsWithoutTag,
            SpecError::EnumWithoutTag => GSpecErr::EnumWithoutTag,
            SpecError::RenameWithValues => GSpecErr::RenameWithValues,
            SpecError::UnsupportedPayloadArity => GSpecErr::UnsupportedPayloadArity,
            SpecError::SignalBindingNotSignalField(s) => GSpecErr::SignalBindingNotSignalField(s@),
            SpecError::UnknownPath(s) => GSpecErr::UnknownPath(s@),
            SpecError::UnknownExpr(s) => GSpecErr::UnknownExpr(s@),
            SpecError::UnsupportedShape(s) => GSpecErr::UnsupportedShape(s@),
            SpecError::BadFormat(s) => GSpecErr::BadFormat(s@),
        }
    }
}

/// One annotation of a type or field declaration, as the host
/// declares it: a wrapper tag, a format template, an optional
/// fallback, or an attribute list.
pub enum GAnnotation {
    Element,
    ElementTag(Seq<char>),
    Format(Seq<char>, Option<Seq<char>>),
    MapOr(Seq<char>),
    Attr(Seq<char>),
    AttrMarker,
}

#[derive(Clone, Debug)]
pub enum Annotation {
    /// A bare element marker: the field renders, without a tag.
    Element,
    /// An element marker with a wrapper tag.
    ElementTag(String),
    /// A format template, with the raw text of its explicit
    /// argument list if one is given.
    Format(String, Option<String>),
    /// A fallback literal for an absent optional value.
    MapOr(String),
    /// An attribute list, as its raw text.
    Attr(String),
    /// A bare attribute marker: the field is itself one attribute.
    AttrMarker,
}

impl View for Annotation {
    type V = GAnnotation;

    open spec fn view(&self) -> GAnnotation {
        match self {
            Annotation::Element => GAnnotation::Element,
            Annotation::ElementTag(t) => GAnnotation::ElementTag(t@),
            Annotation::Format(f, a) => GAnnotation::Format(
                f@,
                match a {
                    Option::None => Option::None,
                    Option::Some(t) => Option::Some(t@),
                },
            ),
            Annotation::MapOr(m) => GAnnotation::MapOr(m@),
            Annotation::Attr(l) => GAnnotation::Attr(l@),
            Annotation::AttrMarker => GAnnotation::AttrMarker,
        }
    }
}

/// A key is interpolated exactly when it holds a field reference.
pub open spec fn spec_classify_key(k: Seq<char>) -> GAttrKey {
    if spec_has_field(k) {
        GAttrKey::Interpolated(k)
    } else {
        GAttrKey::Literal(k)
    }
}

pub open spec fn spec_classify_value(v: Seq<char>) -> GAttrValue {
    if spec_has_field(v) {
        GAttrValue::Interpolated(v)
    } else {
        GAttrValue::Literal(v)
    }
}

/// Classify a key string as literal or interpolated.
pub fn classify_key(key: &str) -> (r: AttrKey)
    ensures
        r@ == spec_classify_key(key@),
{
    if crate::interp::has_interpolation(key) {
        AttrKey::Interpolated(key.to_owned())
    } else {
        AttrKey::Literal(key.to_owned())
    }
}

/// Classify a value string as literal or interpolated.
pub fn classify_value(val: &str) -> (r: AttrValue)
    ensures
        r@ == spec_classify_value(val@),
{
    if crate::interp::has_interpolation(val) {
        AttrValue::Interpolated(val.to_owned())
    } else {
        AttrValue::Literal(val.to_owned())
    }
}

/// What attribute a parsed item contributes: a boolean `false`
/// suppresses its attribute entirely, a bare key is a bare boolean
/// attribute under its unclassified key, and a rename item
/// contributes none.
pub open spec fn convert_item(it: GAttrItem) -> Option<GAttrSpec> {
    match it {
        GAttrItem::KeyValue { key, value } => Option::Some(
            GAttrSpec { key: spec_classify_key(key), value: spec_classify_value(value) },
        ),
        GAttrItem::KeyBool { key, value } => if value {
            Option::Some(GAttrSpec { key: spec_classify_key(key), value: GAttrValue::Bool(true) })
        } else {
            Option::None
        },
        GAttrItem::KeyPath { key, path } => Option::Some(
            GAttrSpec { key: spec_classify_key(key), value: GAttrValue::Path(path) },
        ),
        GAttrItem::KeySignalField { key, field } => Option::Some(
            GAttrSpec { key: spec_classify_key(key), value: GAttrValue::SignalFieldBinding(field) },
        ),
        GAttrItem::KeyExpr { key, expr } => Option::Some(
            GAttrSpec { key: spec_classify_key(key), value: GAttrValue::Expr(expr) },
        ),
        GAttrItem::BareKey { key } => Option::Some(
            GAttrSpec { key: GAttrKey::Literal(key), value: GAttrValue::Bool(true) },
        ),
        GAttrItem::Rename { name } => Option::None,
    }
}

pub open spec fn convert_items(items: Seq<GAttrItem>) -> Seq<GAttrSpec>
    decreases items.len(),
{
    if items.len() == 0 {
        Seq::empty()
    } else {
        convert_items(items.drop_last()) + match convert_item(items.last()) {
            Option::Some(a) => seq![a],
            Option::None => Seq::empty(),
        }
    }
}

/// The rename that wins: the last one of the list.
pub open spec fn last_rename(items: Seq<GAttrItem>) -> Option<Seq<char>>
    decreases items.len(),
{
    if items.len() == 0 {
        Option::None
    } else {
        match items.last() {
            GAttrItem::Rename { name } => Option::Some(name),
            _ => last_rename(items.drop_last()),
        }
    }
}

fn convert_one(it: &AttrItem) -> (r: Option<AttrSpec>)
    ensures
        match convert_item(it@) {
            Option::Some(g) => r matches Option::Some(a) && a@ == g,
            Option::None => r is None,
        },
{
    match it {
        AttrItem::KeyValue { key, value } => {
            let k = classify_key(key.as_str());
            let v = classify_value(value.as_str());
            Option::Some(AttrSpec { key: k, value: v })
        },
        AttrItem::KeyBool { key, value } => {
            if *value {
                let k = classify_key(key.as_str());
                Option::Some(AttrSpec { key: k, value: AttrValue::Bool(true) })
            } else {
                Option::None
            }
        },
        AttrItem::KeyPath { key, path } => {
            let k = classify_key(key.as_str());
            Option::Some(AttrSpec { key: k, value: AttrValue::Path(path.clone()) })
        },
        AttrItem::KeySignalField { key, field } => {
            let k = classify_key(key.as_str());
            Option::Some(AttrSpec { key: k, value: AttrValue::SignalFieldBinding(field.clone()) })
        },
        AttrItem::KeyExpr { key, expr } => {
            let k = classify_key(key.as_str());
            Option::Some(AttrSpec { key: k, value: AttrValue::Expr(expr.clone()) })
        },
        AttrItem::BareKey { key } => Option::Some(
            AttrSpec { key: AttrKey::Literal(key.clone()), value: AttrValue::Bool(true) },
        ),
        AttrItem::Rename { name } => Option::None,
    }
}

fn convert_vec(items: Vec<AttrItem>) -> (r: (Option<String>, Vec<AttrSpec>))
    ensures
        ({
            let g = items@.map_values(|it: AttrItem| it@);
            &&& r.1@.map_values(|a: AttrSpec| a@) == convert_items(g)
            &&& match last_rename(g) {
                Option::Some(n) => r.0 matches Option::Some(s) && s@ == n,
                Option::None => r.0 is None,
            }
        }),
{
    let ghost g = items@.map_values(|it: AttrItem| it@);
    let mut rename: Option<String> = Option::None;
    let mut out: Vec<AttrSpec> = Vec::new();
    let mut i: usize = 0;
    let n = items.len();
    proof {
        assert(g.take(0int) =~= Seq::<GAttrItem>::empty());
    }
    while i < n
        invariant
            i <= n,
            n == items@.len(),
            g == items@.map_values(|it: AttrItem| it@),
            out@.map_values(|a: AttrSpec| a@) == convert_items(g.take(i as int)),
            match last_rename(g.take(i as int)) {
                Option::Some(nm) => rename matches Option::Some(s) && s@ == nm,
                Option::None => rename is None,
            },
        decreases n - i,
    {
        let it = &items[i];
        proof {
            assert(g.take((i + 1) as int).drop_last() =~= g.take(i as int));
            assert(g.take((i + 1) as int).last() == g[i as int]);
            assert(g[i as int] == it@);
        }
        let ghost old_out = out@;
        match it {
            AttrItem::Rename { name } => {
                rename = Option::Some(name.clone());
                proof {
                    assert(out@.map_values(|a: AttrSpec| a@) =~= convert_items(
                        g.take((i + 1) as int),
                    ));
                }
            },
            other => {
                match convert_one(other) {
                    Option::Some(a) => {
                        let ghost ga = a@;
                        out.push(a);
                        proof {
                            assert(out@.map_values(|x: AttrSpec| x@) =~= old_out.map_values(
                                |x: AttrSpec| x@,
                            ).push(ga));
                            assert(out@.map_values(|x: AttrSpec| x@) =~= convert_items(
                                g.take((i + 1) as int),
                            ));
                        }
                    },
                    Option::None => {
                        proof {
                            assert(out@.map_values(|x: AttrSpec| x@) =~= convert_items(
                                g.take((i + 1) as int),
                            ));
                        }
                    },
                }
            },
        }
        i = i + 1;
    }
    proof {
        assert(g.take(n as int) =~= g);
    }
    (rename, out)
}

/// Parse a type-level attribute list into classified attributes.
pub fn parse_attr_list(list: &str) -> (r: Result<Vec<AttrSpec>, SpecError>)
    ensures
        match r {
            Result::Ok(attrs) => spec_items(list@, 0, false) matches Option::Some(g)
                && attrs@.map_values(|a: AttrSpec| a@) == convert_items(g),
            Result::Err(e) => spec_items(list@, 0, false) is None && e@
                == GSpecErr::MalformedAttrList,
        },
{
    match parse_items(list, false) {
        Option::None => Result::Err(SpecError::MalformedAttrList),
        Option::Some(items) => {
            let (_, attrs) = convert_vec(items);
            Result::Ok(attrs)
        },
    }
}

/// Parse a field-level attribute list: an optional rename plus the
/// classified attributes.
pub fn parse_field_attr_list(list: &str) -> (r: Result<
    (Option<String>, Vec<AttrSpec>),
    SpecError,
>)
    ensures
        match r {
            Result::Ok(p) => spec_items(list@, 0, true) matches Option::Some(g) && p.1@.map_values(
                |a: AttrSpec| a@,
            ) == convert_items(g) && (match last_rename(g) {
                Option::Some(n) => p.0 matches Option::Some(s) && s@ == n,
                Option::None => p.0 is None,
            }),
            Result::Err(e) => spec_items(list@, 0, true) is None && e@
                == GSpecErr::MalformedAttrList,
        },
{
    match parse_items(list, true) {
        Option::None => Result::Err(SpecError::MalformedAttrList),
        Option::Some(items) => Result::Ok(convert_vec(items)),
    }
}

pub open spec fn spec_format_of(f: Seq<char>, a: Option<Seq<char>>) -> GFormatSpec {
    GFormatSpec {
        format_string: f,
        args: match a {
            Option::None => Option::None,
            Option::Some(t) => Option::Some(spec_split_args(t, 0)),
        },
    }
}

pub open spec fn empty_element_spec() -> GElementSpec {
    GElementSpec {
        tag: Option::None,
        attrs: Seq::empty(),
        format: Option::None,
        map_or: Option::None,
    }
}

/// The left-to-right fold of the type-level annotations.
pub open spec fn spec_element_fold(annos: Seq<GAnnotation>, acc: GElementSpec) -> Result<
    GElementSpec,
    GSpecErr,
>
    decreases annos.len(),
{
    if annos.len() == 0 {
        Result::Ok(acc)
    } else {
        match annos[0] {
            GAnnotation::Element => Result::Err(GSpecErr::MalformedAnnotation),
            GAnnotation::AttrMarker => Result::Err(GSpecErr::MalformedAnnotation),
            GAnnotation::ElementTag(t) => spec_element_fold(
                annos.drop_first(),
                GElementSpec { tag: Option::Some(t), ..acc },
            ),
            GAnnotation::Format(f, a) => spec_element_fold(
                annos.drop_first(),
                GElementSpec { format: Option::Some(spec_format_of(f, a)), ..acc },
            ),
            GAnnotation::MapOr(m) => spec_element_fold(
                annos.drop_first(),
                GElementSpec { map_or: Option::Some(m), ..acc },
            ),
            GAnnotation::Attr(list) => match spec_items(list, 0, false) {
                Option::None => Result::Err(GSpecErr::MalformedAttrList),
                Option::Some(items) => spec_element_fold(
                    annos.drop_first(),
                    GElementSpec { attrs: acc.attrs + convert_items(items), ..acc },
                ),
            },
        }
    }
}

/// What a type-level specification is: the fold of its annotations,
/// rejected when attributes stand without a tag.
pub open spec fn spec_element_from(annos: Seq<GAnnotation>) -> Result<GElementSpec, GSpecErr> {
    match spec_element_fold(annos, empty_element_spec()) {
        Result::Err(e) => Result::Err(e),
        Result::Ok(sp) => if sp.attrs.len() > 0 && sp.tag is None {
            Result::Err(GSpecErr::AttrsWithoutTag)
        } else {
            Result::Ok(sp)
        },
    }
}

impl ElementSpec {
    /// Build the type-level specification from the declared
    /// annotations. A bare element or attribute marker is malformed
    /// at the type level, and an attribute list requires a tag.
    pub fn from_attrs(attrs: &Vec<Annotation>) -> (r: Result<ElementSpec, SpecError>)
        ensures
            match r {
                Result::Ok(sp) => spec_element_from(annos_view(attrs@)) == Result::Ok::<
                    GElementSpec,
                    GSpecErr,
                >(sp@),
                Result::Err(e) => spec_element_from(annos_view(attrs@)) == Result::Err::<
                    GElementSpec,
                    GSpecErr,
                >(e@),
            },
    {
        let ghost va = annos_view(attrs@);
        let mut acc = ElementSpec {
            tag: Option::None,
            attrs: Vec::new(),
            format: Option::None,
            map_or: Option::None,
        };
        let mut i: usize = 0;
        let n = attrs.len();
        proof {
            assert(va.skip(0int) =~= va);
            assert(acc@.attrs =~= Seq::<GAttrSpec>::empty());
        }
        while i < n
            invariant
                i <= n,
                n == attrs@.len(),
                va == annos_view(attrs@),
                spec_element_fold(va, empty_element_spec()) == spec_element_fold(
                    va.skip(i as int),
                    acc@,
                ),
            decreases n - i,
        {
            proof {
                assert(va.skip(i as int)[0] == va[i as int]);
                assert(va.skip(i as int).drop_first() =~= va.skip((i + 1) as int));
            }
            match &attrs[i] {
                Annotation::Element => {
                    return Result::Err(SpecError::MalformedAnnotation);
                },
                Annotation::AttrMarker => {
                    return Result::Err(SpecError::MalformedAnnotation);
                },
                Annotation::ElementTag(t) => {
                    acc.tag = Option::Some(t.clone());
                },
                Annotation::Format(f, a) => {
                    let args: Option<Vec<String>> = match a {
                        Option::None => Option::None,
                        Option::Some(text) => Option::Some(split_args(text.as_str())),
                    };
                    acc.format = Option::Some(
                        FormatSpec { format_string: f.clone(), args },
                    );
                },
                Annotation::MapOr(m) => {
                    acc.map_or = Option::Some(m.clone());
                },
                Annotation::Attr(list) => {
                    match parse_attr_list(list.as_str()) {
                        Result::Err(e) => {
                            return Result::Err(e);
                        },
                        Result::Ok(mut parsed) => {
                            let ghost before = acc@.attrs;
                            acc.attrs.append(&mut parsed);
                            proof {
                                assert(acc@.attrs =~= before + convert_items(
                                    spec_items(list@, 0, false).unwrap(),
                                ));
                            }
                        },
                    }
                },
            }
            i = i + 1;
        }
        proof {
            assert(va.skip(n as int) =~= Seq::<GAnnotation>::empty());
        }
        if acc.attrs.len() > 0 && acc.tag.is_none() {
            Result::Err(SpecError::AttrsWithoutTag)
        } else {
            Result::Ok(acc)
        }
    }
}

pub open spec fn annos_view(annos: Seq<Annotation>) -> Seq<GAnnotation> {
    annos.map_values(|a: Annotation| a@)
}

pub open spec fn empty_field_spec() -> GFieldSpec {
    GFieldSpec {
        tag: Option::None,
        should_render: false,
        attrs: Seq::empty(),
        format: Option::None,
        map_or: Option::None,
        is_attr: false,
        attr_rename: Option::None,
    }
}

/// The left-to-right fold of a field's annotations. A rename item
/// mixed with value items is an explicit build error rather than an
/// inferred choice.
pub open spec fn spec_field_fold(annos: Seq<GAnnotation>, acc: GFieldSpec) -> Result<
    GFieldSpec,
    GSpecErr,
>
    decreases annos.len(),
{
    if annos.len() == 0 {
        Result::Ok(acc)
    } else {
        match annos[0] {
            GAnnotation::Element => spec_field_fold(
                annos.drop_first(),
                GFieldSpec { should_render: true, tag: Option::None, ..acc },
            ),
            GAnnotation::ElementTag(t) => spec_field_fold(
                annos.drop_first(),
                GFieldSpec { should_render: true, tag: Option::Some(t), ..acc },
            ),
            GAnnotation::Format(f, a) => spec_field_fold(
                annos.drop_first(),
                GFieldSpec { format: Option::Some(spec_format_of(f, a)), ..acc },
            ),
            GAnnotation::MapOr(m) => spec_field_fold(
                annos.drop_first(),
                GFieldSpec { map_or: Option::Some(m), ..acc },
            ),
            GAnnotation::AttrMarker => spec_field_fold(
                annos.drop_first(),
                GFieldSpec { is_attr: true, attr_rename: Option::None, ..acc },
            ),
            GAnnotation::Attr(list) => match spec_items(list, 0, true) {
                Option::None => Result::Err(GSpecErr::MalformedAttrList),
                Option::Some(items) => {
                    let ren = last_rename(items);
                    let conv = convert_items(items);
                    if ren is Some && conv.len() > 0 {
                        Result::Err(GSpecErr::RenameWithValues)
                    } else if conv.len() > 0 {
                        spec_field_fold(
                            annos.drop_first(),
                            GFieldSpec { attrs: acc.attrs + conv, ..acc },
                        )
                    } else {
                        spec_field_fold(
                            annos.drop_first(),
                            GFieldSpec { is_attr: true, attr_rename: ren, ..acc },
                        )
                    }
                },
            },
        }
    }
}

pub open spec fn spec_field_from(annos: Seq<GAnnotation>) -> Result<GFieldSpec, GSpecErr> {
    spec_field_fold(annos, empty_field_spec())
}

impl FieldSpec {
    /// Build a field's specification from its annotations.
    pub fn from_attrs(attrs: &Vec<Annotation>) -> (r: Result<FieldSpec, SpecError>)
        ensures
            match r {
                Result::Ok(sp) => spec_field_from(annos_view(attrs@)) == Result::Ok::<
                    GFieldSpec,
                    GSpecErr,
                >(sp@),
                Result::Err(e) => spec_field_from(annos_view(attrs@)) == Result::Err::<
                    GFieldSpec,
                    GSpecErr,
                >(e@),
            },
    {
        let ghost va = annos_view(attrs@);
        let mut acc = FieldSpec {
            tag: Option::None,
            should_render: false,
            attrs: Vec::new(),
            format: Option::None,
            map_or: Option::None,
            is_attr: false,
            attr_rename: Option::None,
        };
        let mut i: usize = 0;
        let n = attrs.len();
        proof {
            assert(va.skip(0int) =~= va);
            assert(acc@.attrs =~= Seq::<GAttrSpec>::empty());
        }
        while i < n
            invariant
                i <= n,
                n == attrs@.len(),
                va == annos_view(attrs@),
                spec_field_fold(va, empty_field_spec()) == spec_field_fold(
                    va.skip(i as int),
                    acc@,
                ),
            decreases n - i,
        {
            proof {
                assert(va.skip(i as int)[0] == va[i as int]);
                assert(va.skip(i as int).drop_first() =~= va.skip((i + 1) as int));
            }
            match &attrs[i] {
                Annotation::Element => {
                    acc.should_render = true;
                    acc.tag = Option::None;
                },
                Annotation::ElementTag(t) => {
                    acc.should_render = true;
                    acc.tag = Option::Some(t.clone());
                },
                Annotation::Format(f, a) => {
                    let args: Option<Vec<String>> = match a {
                        Option::None => Option::None,
                        Option::Some(text) => Option::Some(split_args(text.as_str())),
                    };
                    acc.format = Option::Some(
                        FormatSpec { format_string: f.clone(), args },
                    );
                },
                Annotation::MapOr(m) => {
                    acc.map_or = Option::Some(m.clone());
                },
                Annotation::AttrMarker => {
                    acc.is_attr = true;
                    acc.attr_rename = Option::None;
                },
                Annotation::Attr(list) => {
                    match parse_field_attr_list(list.as_str()) {
                        Result::Err(e) => {
                            return Result::Err(e);
                        },
                        Result::Ok((rename, mut parsed)) => {
                            if rename.is_some() && parsed.len() > 0 {
                                return Result::Err(SpecError::RenameWithValues);
                            }
                            if parsed.len() > 0 {
                                let ghost before = acc@.attrs;
                                acc.attrs.append(&mut parsed);
                                proof {
                                    assert(acc@.attrs =~= before + convert_items(
                                        spec_items(list@, 0, true).unwrap(),
                                    ));
                                }
                            } else {
                                acc.is_attr = true;
                                acc.attr_rename = rename;
                            }
                        },
                    }
                },
            }
            i = i + 1;
        }
        proof {
            assert(va.skip(n as int) =~= Seq::<GAnnotation>::empty());
        }
        Result::Ok(acc)
    }
}

} // verus!

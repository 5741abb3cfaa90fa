//! The attribute-list grammar: a comma-separated sequence of items,
//! each a bare key, `key = "string"`, `key = true|false`, or
//! `key = expression`, where the key is a bare identifier
//! (underscores normalized to dashes) or a quoted literal. In the
//! field-level variant of the grammar, `name = "literal"` renames
//! the surrounding field's attribute.
//!
//! The parse result is defined by spec functions over the character
//! sequence; the executable parser is proved to return exactly that.

use vstd::prelude::*;

use crate::text::{spec_ident_char, spec_ident_start};
use crate::interp::spec_valid_ident;

verus! {

/// A parsed attribute item, at the specification level.
pub enum GAttrItem {
    KeyValue { key: Seq<char>, value: Seq<char> },
    KeyBool { key: Seq<char>, value: bool },
    KeyPath { key: Seq<char>, path: Seq<char> },
    KeySignalField { key: Seq<char>, field: Seq<char> },
    KeyExpr { key: Seq<char>, expr: Seq<char> },
    BareKey { key: Seq<char> },
    Rename { name: Seq<char> },
}

/// A parsed attribute item: one entry of a comma-separated
/// attribute list.
pub enum AttrItem {
    KeyValue { key: String, value: String },
    KeyBool { key: String, value: bool },
    KeyPath { key: String, path: String },
    KeySignalField { key: String, field: String },
    KeyExpr { key: String, expr: String },
    BareKey { key: String },
    Rename { name: String },
}

impl View for AttrItem {
    type V = GAttrItem;

    open spec fn view(&self) -> GAttrItem {
        match self {
            AttrItem::KeyValue { key, value } => GAttrItem::KeyValue {
                key: key@,
                value: value@,
            },
            AttrItem::KeyBool { key, value } => GAttrItem::KeyBool { key: key@, value: *value },
            AttrItem::KeyPath { key, path } => GAttrItem::KeyPath { key: key@, path: path@ },
            AttrItem::KeySignalField { key, field } => GAttrItem::KeySignalField {
                key: key@,
                field: field@,
            },
            AttrItem::KeyExpr { key, expr } => GAttrItem::KeyExpr { key: key@, expr: expr@ },
            AttrItem::BareKey { key } => GAttrItem::BareKey { key: key@ },
            AttrItem::Rename { name } => GAttrItem::Rename { name: name@ },
        }
    }
}

pub open spec fn is_ws(c: char) -> bool {
    c == ' ' || c == '\t' || c == '\n' || c == '\r'
}

/// First index at or after `i` holding a non-whitespace character.
pub open spec fn spec_ws(s: Seq<char>, i: int) -> int
    decreases s.len() - i,
{
    if 0 <= i < s.len() && is_ws(s[i]) {
        spec_ws(s, i + 1)
    } else {
        i
    }
}

pub proof fn lemma_ws_bounds(s: Seq<char>, i: int)
    requires
        0 <= i <= s.len(),
    ensures
        i <= spec_ws(s, i) <= s.len(),
        forall|k: int| i <= k < spec_ws(s, i) ==> is_ws(s[k]),
        spec_ws(s, i) < s.len() ==> !is_ws(s[spec_ws(s, i)]),
    decreases s.len() - i,
{
    if i < s.len() && is_ws(s[i]) {
        lemma_ws_bounds(s, i + 1);
    }
}

/// End of the identifier-character run beginning at `i`.
pub open spec fn ident_run(s: Seq<char>, i: int) -> int
    decreases s.len() - i,
{
    if 0 <= i < s.len() && spec_ident_char(s[i]) {
        ident_run(s, i + 1)
    } else {
        i
    }
}

pub proof fn lemma_ident_run_bounds(s: Seq<char>, i: int)
    requires
        0 <= i <= s.len(),
    ensures
        i <= ident_run(s, i) <= s.len(),
        forall|k: int| i <= k < ident_run(s, i) ==> spec_ident_char(s[k]),
        ident_run(s, i) < s.len() ==> !spec_ident_char(s[ident_run(s, i)]),
    decreases s.len() - i,
{
    if i < s.len() && spec_ident_char(s[i]) {
        lemma_ident_run_bounds(s, i + 1);
    }
}

/// The character an escape `\c` stands for inside a quoted literal.
pub open spec fn spec_esc(c: char) -> char {
    if c == 'n' {
        '\n'
    } else if c == 't' {
        '\t'
    } else {
        c
    }
}

/// The body of a quoted literal from index `i` (just past the
/// opening quote): its unescaped content and the index just past
/// the closing quote.
pub open spec fn spec_string_body(s: Seq<char>, i: int) -> Option<(Seq<char>, int)>
    decreases s.len() - i,
{
    if i < 0 || i >= s.len() {
        Option::None
    } else if s[i] == '"' {
        Option::Some((Seq::empty(), i + 1))
    } else if s[i] == '\\' {
        if i + 1 < s.len() {
            match spec_string_body(s, i + 2) {
                Option::None => Option::None,
                Option::Some((t, j)) => Option::Some((seq![spec_esc(s[i + 1])] + t, j)),
            }
        } else {
            Option::None
        }
    } else {
        match spec_string_body(s, i + 1) {
            Option::None => Option::None,
            Option::Some((t, j)) => Option::Some((seq![s[i]] + t, j)),
        }
    }
}

/// A quoted literal standing at index `i`.
pub open spec fn spec_string(s: Seq<char>, i: int) -> Option<(Seq<char>, int)> {
    if 0 <= i < s.len() && s[i] == '"' {
        spec_string_body(s, i + 1)
    } else {
        Option::None
    }
}

pub proof fn lemma_string_body_advances(s: Seq<char>, i: int)
    requires
        0 <= i,
    ensures
        match spec_string_body(s, i) {
            Option::Some(p) => i < p.1 <= s.len(),
            Option::None => true,
        },
    decreases s.len() - i,
{
    if 0 <= i < s.len() {
        if s[i] == '"' {
        } else if s[i] == '\\' {
            if i + 1 < s.len() {
                lemma_string_body_advances(s, i + 2);
            }
        } else {
            lemma_string_body_advances(s, i + 1);
        }
    }
}

pub proof fn lemma_string_advances(s: Seq<char>, i: int)
    requires
        0 <= i,
    ensures
        match spec_string(s, i) {
            Option::Some(p) => i < p.1 <= s.len(),
            Option::None => true,
        },
{
    if 0 <= i < s.len() && s[i] == '"' {
        lemma_string_body_advances(s, i + 1);
    }
}

/// End of an expression value: the first comma outside every
/// bracket pair and quoted literal, or the end of the text.
pub open spec fn spec_expr_end(s: Seq<char>, i: int, depth: int) -> int
    decreases s.len() - i,
    via spec_expr_end_decreases
{
    if i < 0 || i >= s.len() {
        if i < 0 {
            0
        } else {
            s.len() as int
        }
    } else if s[i] == '"' {
        match spec_string(s, i) {
            Option::None => s.len() as int,
            Option::Some((_, j)) => spec_expr_end(s, j, depth),
        }
    } else if s[i] == ',' && depth == 0 {
        i
    } else if s[i] == '(' || s[i] == '[' || s[i] == '{' {
        spec_expr_end(s, i + 1, depth + 1)
    } else if (s[i] == ')' || s[i] == ']' || s[i] == '}') && depth > 0 {
        spec_expr_end(s, i + 1, depth - 1)
    } else {
        spec_expr_end(s, i + 1, depth)
    }
}

#[via_fn]
proof fn spec_expr_end_decreases(s: Seq<char>, i: int, depth: int) {
    if 0 <= i < s.len() && s[i] == '"' {
        lemma_string_advances(s, i);
    }
}

pub proof fn lemma_expr_end_bounds(s: Seq<char>, i: int, depth: int)
    requires
        0 <= i <= s.len(),
    ensures
        i <= spec_expr_end(s, i, depth) <= s.len(),
    decreases s.len() - i,
{
    if i < s.len() {
        if s[i] == '"' {
            lemma_string_advances(s, i);
            match spec_string(s, i) {
                Option::None => {},
                Option::Some((_, j)) => {
                    lemma_expr_end_bounds(s, j, depth);
                },
            }
        } else if s[i] == ',' && depth == 0 {
        } else if s[i] == '(' || s[i] == '[' || s[i] == '{' {
            lemma_expr_end_bounds(s, i + 1, depth + 1);
        } else if (s[i] == ')' || s[i] == ']' || s[i] == '}') && depth > 0 {
            lemma_expr_end_bounds(s, i + 1, depth - 1);
        } else {
            lemma_expr_end_bounds(s, i + 1, depth);
        }
    }
}

/// Index just past the last non-whitespace character of `s.take(e)`.
pub open spec fn last_non_ws(s: Seq<char>, e: int) -> int
    decreases e,
{
    if e <= 0 {
        0
    } else if 0 < e <= s.len() && is_ws(s[e - 1]) {
        last_non_ws(s, e - 1)
    } else {
        e
    }
}

/// `s` with leading and trailing whitespace removed.
pub open spec fn spec_trim(s: Seq<char>) -> Seq<char> {
    let l = spec_ws(s, 0);
    let e = last_non_ws(s, s.len() as int);
    if l >= e {
        Seq::empty()
    } else {
        s.subrange(l, e)
    }
}

/// Underscores become dashes: `data_bind` and `data-bind` name the
/// same attribute.
pub open spec fn spec_normalize(s: Seq<char>) -> Seq<char> {
    s.map_values(
        |c: char|
            if c == '_' {
                '-'
            } else {
                c
            },
    )
}

pub open spec fn name_seq() -> Seq<char> {
    seq!['n', 'a', 'm', 'e']
}

pub open spec fn true_seq() -> Seq<char> {
    seq!['t', 'r', 'u', 'e']
}

pub open spec fn false_seq() -> Seq<char> {
    seq!['f', 'a', 'l', 's', 'e']
}

/// The two spellings of the signal-binding key.
pub open spec fn spec_is_signal_binding_key(k: Seq<char>) -> bool {
    k == seq!['d', 'a', 't', 'a', '-', 'b', 'i', 'n', 'd'] || k == seq![
        'd',
        'a',
        't',
        'a',
        '_',
        'b',
        'i',
        'n',
        'd',
    ]
}

/// The lexical field-name heuristic: a binding value that is one
/// identifier starting with a lowercase letter names a field.
pub open spec fn is_lower(c: char) -> bool {
    crate::text::char_lowercase(c)
}

/// A bare path: identifiers joined by `::`.
pub open spec fn spec_valid_path(s: Seq<char>, i: int) -> bool
    decreases s.len() - i,
    via spec_valid_path_decreases
{
    if i < 0 || i >= s.len() {
        false
    } else if !spec_ident_start(s[i]) {
        false
    } else {
        let k = ident_run(s, i);
        if k == s.len() {
            true
        } else if k + 1 < s.len() && s[k] == ':' && s[k + 1] == ':' {
            spec_valid_path(s, k + 2)
        } else {
            false
        }
    }
}

#[via_fn]
proof fn spec_valid_path_decreases(s: Seq<char>, i: int) {
    if 0 <= i < s.len() && spec_ident_start(s[i]) {
        lemma_ident_run_bounds(s, i);
    }
}

/// What value stands after `key =`, classified: quoted literals and
/// booleans by their form, a lone lower-case identifier after a
/// binding key as a signal field reference, any other bare path as
/// a path reference, and everything else as an opaque expression.
pub open spec fn spec_value_item(s: Seq<char>, j3: int, key: Seq<char>) -> Option<
    (GAttrItem, int),
> {
    if 0 <= j3 < s.len() && s[j3] == '"' {
        match spec_string(s, j3) {
            Option::None => Option::None,
            Option::Some((v, e)) => Option::Some((GAttrItem::KeyValue { key, value: v }, e)),
        }
    } else {
        let e = spec_expr_end(s, j3, 0);
        let t = spec_trim(s.subrange(j3, e));
        if t.len() == 0 {
            Option::None
        } else if t == true_seq() {
            Option::Some((GAttrItem::KeyBool { key, value: true }, e))
        } else if t == false_seq() {
            Option::Some((GAttrItem::KeyBool { key, value: false }, e))
        } else if spec_is_signal_binding_key(key) && spec_valid_ident(t) && is_lower(t[0]) {
            Option::Some((GAttrItem::KeySignalField { key, field: t }, e))
        } else if spec_valid_path(t, 0) {
            Option::Some((GAttrItem::KeyPath { key, path: t }, e))
        } else {
            Option::Some((GAttrItem::KeyExpr { key, expr: t }, e))
        }
    }
}

/// One attribute item standing at index `i` (whitespace already
/// skipped). In the field grammar (`allow_rename`), a bare
/// identifier `name` with a `=` must be followed by a quoted
/// literal and renames the field's attribute.
pub open spec fn spec_item(s: Seq<char>, i: int, allow_rename: bool) -> Option<(GAttrItem, int)> {
    if i < 0 || i >= s.len() {
        Option::None
    } else if s[i] == '"' {
        match spec_string(s, i) {
            Option::None => Option::None,
            Option::Some((key, j)) => spec_item_after_key(s, j, key, false, allow_rename),
        }
    } else if spec_ident_start(s[i]) {
        let k = ident_run(s, i);
        let raw = s.subrange(i, k);
        spec_item_after_key(s, k, spec_normalize(raw), raw == name_seq(), allow_rename)
    } else {
        Option::None
    }
}

pub open spec fn spec_item_after_key(
    s: Seq<char>,
    j: int,
    key: Seq<char>,
    is_name_ident: bool,
    allow_rename: bool,
) -> Option<(GAttrItem, int)> {
    let j2 = spec_ws(s, j);
    if j2 < s.len() && s[j2] == '=' {
        let j3 = spec_ws(s, j2 + 1);
        if allow_rename && is_name_ident {
            if j3 < s.len() && s[j3] == '"' {
                match spec_string(s, j3) {
                    Option::None => Option::None,
                    Option::Some((v, e)) => Option::Some((GAttrItem::Rename { name: v }, e)),
                }
            } else {
                Option::None
            }
        } else {
            spec_value_item(s, j3, key)
        }
    } else {
        Option::Some((GAttrItem::BareKey { key }, j))
    }
}

pub proof fn lemma_item_advances(s: Seq<char>, i: int, allow_rename: bool)
    requires
        0 <= i <= s.len(),
    ensures
        match spec_item(s, i, allow_rename) {
            Option::Some(p) => i < p.1 <= s.len(),
            Option::None => true,
        },
{
    if i < s.len() {
        if s[i] == '"' {
            lemma_string_advances(s, i);
            match spec_string(s, i) {
                Option::None => {},
                Option::Some((key, j)) => {
                    lemma_item_after_key_advances(s, j, key, false, allow_rename);
                },
            }
        } else if spec_ident_start(s[i]) {
            lemma_ident_run_bounds(s, i);
            let k = ident_run(s, i);
            let raw = s.subrange(i, k);
            lemma_item_after_key_advances(
                s,
                k,
                spec_normalize(raw),
                raw == name_seq(),
                allow_rename,
            );
        }
    }
}

proof fn lemma_item_after_key_advances(
    s: Seq<char>,
    j: int,
    key: Seq<char>,
    is_name_ident: bool,
    allow_rename: bool,
)
    requires
        0 < j <= s.len(),
    ensures
        match spec_item_after_key(s, j, key, is_name_ident, allow_rename) {
            Option::Some(p) => j <= p.1 <= s.len(),
            Option::None => true,
        },
{
    lemma_ws_bounds(s, j);
    let j2 = spec_ws(s, j);
    if j2 < s.len() && s[j2] == '=' {
        lemma_ws_bounds(s, j2 + 1);
        let j3 = spec_ws(s, j2 + 1);
        if allow_rename && is_name_ident {
            lemma_string_advances(s, j3);
        } else {
            lemma_string_advances(s, j3);
            lemma_expr_end_bounds(s, j3, 0);
        }
    }
}

/// The whole item list: items separated by commas, a trailing comma
/// allowed, possibly empty. `None` is a malformed list.
pub open spec fn spec_items(s: Seq<char>, i: int, allow_rename: bool) -> Option<Seq<GAttrItem>>
    decreases s.len() - i,
    via spec_items_decreases
{
    if i < 0 {
        Option::None
    } else {
        let j = spec_ws(s, i);
        if j >= s.len() {
            Option::Some(Seq::empty())
        } else {
            match spec_item(s, j, allow_rename) {
                Option::None => Option::None,
                Option::Some((it, k)) => {
                    let l = spec_ws(s, k);
                    if l >= s.len() {
                        Option::Some(seq![it])
                    } else if s[l] == ',' {
                        match spec_items(s, l + 1, allow_rename) {
                            Option::None => Option::None,
                            Option::Some(rest) => Option::Some(seq![it] + rest),
                        }
                    } else {
                        Option::None
                    }
                },
            }
        }
    }
}

#[via_fn]
proof fn spec_items_decreases(s: Seq<char>, i: int, allow_rename: bool) {
    if 0 <= i <= s.len() {
        lemma_ws_bounds(s, i);
        let j = spec_ws(s, i);
        if j < s.len() {
            lemma_item_advances(s, j, allow_rename);
            match spec_item(s, j, allow_rename) {
                Option::None => {},
                Option::Some((it, k)) => {
                    lemma_ws_bounds(s, k);
                },
            }
        }
    }
}

/// An explicit format-argument list, split at the commas that stand
/// outside every bracket pair and quoted literal, each argument
/// trimmed.
pub open spec fn spec_split_args(s: Seq<char>, i: int) -> Seq<Seq<char>>
    decreases s.len() - i,
    via spec_split_args_decreases
{
    let e = spec_expr_end(s, i, 0);
    let t = spec_trim(s.subrange(if i < 0 {
        0
    } else if i > s.len() {
        s.len() as int
    } else {
        i
    }, e));
    if e >= s.len() {
        if t.len() == 0 {
            Seq::empty()
        } else {
            seq![t]
        }
    } else {
        seq![t] + spec_split_args(s, e + 1)
    }
}

#[via_fn]
proof fn spec_split_args_decreases(s: Seq<char>, i: int) {
    if 0 <= i <= s.len() {
        lemma_expr_end_bounds(s, i, 0);
    }
}

// ------------------------------------------------------------------
// The executable parser, proved to return exactly the parse that the
// spec functions above define.
// ------------------------------------------------------------------

fn ws_end(s: &Vec<char>, i: usize) -> (r: usize)
    requires
        i <= s@.len(),
    ensures
        r as int == spec_ws(s@, i as int),
        i <= r <= s@.len(),
{
    let mut j = i;
    while j < s.len() && (s[j] == ' ' || s[j] == '\t' || s[j] == '\n' || s[j] == '\r')
        invariant
            i <= j <= s@.len(),
            spec_ws(s@, i as int) == spec_ws(s@, j as int),
        decreases s@.len() - j,
    {
        j = j + 1;
    }
    j
}

fn ident_end(s: &Vec<char>, i: usize) -> (r: usize)
    requires
        i <= s@.len(),
    ensures
        r as int == ident_run(s@, i as int),
        i <= r <= s@.len(),
{
    let mut j = i;
    while j < s.len() && crate::text::is_ident_char(s[j])
        invariant
            i <= j <= s@.len(),
            ident_run(s@, i as int) == ident_run(s@, j as int),
        decreases s@.len() - j,
    {
        j = j + 1;
    }
    j
}

/// Copy the characters `i..j` into a fresh vector.
fn subrange_vec(s: &Vec<char>, i: usize, j: usize) -> (r: Vec<char>)
    requires
        i <= j <= s@.len(),
    ensures
        r@ == s@.subrange(i as int, j as int),
{
    let mut out: Vec<char> = Vec::new();
    let mut k = i;
    while k < j
        invariant
            i <= k <= j <= s@.len(),
            out@ == s@.subrange(i as int, k as int),
        decreases j - k,
    {
        out.push(s[k]);
        proof {
            assert(s@.subrange(i as int, (k + 1) as int) =~= s@.subrange(i as int, k as int).push(
                s@[k as int],
            ));
        }
        k = k + 1;
    }
    out
}

fn esc_char(c: char) -> (r: char)
    ensures
        r == spec_esc(c),
{
    if c == 'n' {
        '\n'
    } else if c == 't' {
        '\t'
    } else {
        c
    }
}

fn parse_string_body(s: &Vec<char>, i: usize) -> (r: Option<(String, usize)>)
    requires
        i <= s@.len(),
    ensures
        (r is Some) == (spec_string_body(s@, i as int) is Some),
        r is Some ==> {
            let p = spec_string_body(s@, i as int).unwrap();
            r.unwrap().0@ == p.0 && r.unwrap().1 as int == p.1 && i < r.unwrap().1 <= s@.len()
        },
    decreases s@.len() - i,
{
    proof {
        lemma_string_body_advances(s@, i as int);
    }
    if i >= s.len() {
        Option::None
    } else if s[i] == '"' {
        Option::Some((String::new(), i + 1))
    } else if s[i] == '\\' {
        if i + 1 < s.len() {
            let c = esc_char(s[i + 1]);
            match parse_string_body(s, i + 2) {
                Option::None => Option::None,
                Option::Some((t, j)) => {
                    let mut out = String::new();
                    crate::text::push_char(&mut out, c);
                    let out = out.concat(t.as_str());
                    proof {
                        assert(out@ =~= spec_string_body(s@, i as int).unwrap().0);
                    }
                    Option::Some((out, j))
                },
            }
        } else {
            Option::None
        }
    } else {
        let c = s[i];
        match parse_string_body(s, i + 1) {
            Option::None => Option::None,
            Option::Some((t, j)) => {
                let mut out = String::new();
                crate::text::push_char(&mut out, c);
                let out = out.concat(t.as_str());
                proof {
                    assert(out@ =~= spec_string_body(s@, i as int).unwrap().0);
                }
                Option::Some((out, j))
            },
        }
    }
}

fn parse_string(s: &Vec<char>, i: usize) -> (r: Option<(String, usize)>)
    requires
        i <= s@.len(),
    ensures
        (r is Some) == (spec_string(s@, i as int) is Some),
        r is Some ==> {
            let p = spec_string(s@, i as int).unwrap();
            r.unwrap().0@ == p.0 && r.unwrap().1 as int == p.1 && i < r.unwrap().1 <= s@.len()
        },
{
    if i < s.len() && s[i] == '"' {
        parse_string_body(s, i + 1)
    } else {
        Option::None
    }
}

fn expr_end(s: &Vec<char>, start: usize) -> (r: usize)
    requires
        start <= s@.len(),
    ensures
        r as int == spec_expr_end(s@, start as int, 0),
        start <= r <= s@.len(),
{
    proof {
        lemma_expr_end_bounds(s@, start as int, 0);
    }
    let mut i = start;
    let mut depth: usize = 0;
    loop
        invariant
            start <= i <= s@.len(),
            depth <= i,
            spec_expr_end(s@, start as int, 0) == spec_expr_end(s@, i as int, depth as int),
            spec_expr_end(s@, start as int, 0) <= s@.len(),
        decreases s@.len() - i,
    {
        if i >= s.len() {
            return i;
        }
        let c = s[i];
        if c == '"' {
            match parse_string(s, i) {
                Option::None => {
                    return s.len();
                },
                Option::Some((_, j)) => {
                    i = j;
                },
            }
        } else if c == ',' && depth == 0 {
            return i;
        } else if c == '(' || c == '[' || c == '{' {
            i = i + 1;
            depth = depth + 1;
        } else if (c == ')' || c == ']' || c == '}') && depth > 0 {
            i = i + 1;
            depth = depth - 1;
        } else {
            i = i + 1;
        }
    }
}

/// Trim whitespace from both ends of a character vector, producing
/// the text as a string.
fn trim_string(v: &Vec<char>) -> (r: String)
    ensures
        r@ == spec_trim(v@),
{
    let l = ws_end(v, 0);
    let mut e = v.len();
    while e > l && (v[e - 1] == ' ' || v[e - 1] == '\t' || v[e - 1] == '\n' || v[e - 1] == '\r')
        invariant
            l <= e <= v@.len(),
            l as int == spec_ws(v@, 0),
            l <= v@.len(),
            last_non_ws(v@, v@.len() as int) == last_non_ws(v@, e as int),
        decreases e,
    {
        e = e - 1;
    }
    proof {
        lemma_ws_bounds(v@, 0);
    }
    if l >= e {
        proof {
            if e == l && l > 0 {
                lemma_last_non_ws_all_ws(v@, e as int, l as int);
            }
            assert(spec_trim(v@) =~= Seq::<char>::empty());
        }
        String::new()
    } else {
        let sub = subrange_vec(v, l, e);
        let r = crate::text::chars_string(&sub);
        proof {
            assert(last_non_ws(v@, e as int) == e);
        }
        r
    }
}

proof fn lemma_last_non_ws_all_ws(s: Seq<char>, e: int, l: int)
    requires
        0 <= e <= s.len(),
        e <= l,
        forall|k: int| 0 <= k < l ==> is_ws(s[k]),
    ensures
        last_non_ws(s, e) == 0,
    decreases e,
{
    if e > 0 {
        lemma_last_non_ws_all_ws(s, e - 1, l);
    }
}

/// Is the string one of the two spellings of the signal-binding
/// key?
pub fn is_signal_field_binding_key(key: &str) -> (r: bool)
    ensures
        r == spec_is_signal_binding_key(key@),
{
    let a = crate::text::str_eq(key, "data-bind");
    let b = crate::text::str_eq(key, "data_bind");
    proof {
        reveal_strlit("data-bind");
        reveal_strlit("data_bind");
        assert("data-bind"@ =~= seq!['d', 'a', 't', 'a', '-', 'b', 'i', 'n', 'd']);
        assert("data_bind"@ =~= seq!['d', 'a', 't', 'a', '_', 'b', 'i', 'n', 'd']);
    }
    a || b
}

/// Replace every underscore of a bare key with a dash.
pub fn normalize_attr_key(key: &str) -> (r: String)
    ensures
        r@ == spec_normalize(key@),
{
    let n = key.unicode_len();
    let mut out = String::new();
    let mut i: usize = 0;
    while i < n
        invariant
            i <= n,
            n == key@.len(),
            out@ == spec_normalize(key@.take(i as int)),
        decreases n - i,
    {
        let c = key.get_char(i);
        if c == '_' {
            crate::text::push_char(&mut out, '-');
        } else {
            crate::text::push_char(&mut out, c);
        }
        proof {
            assert(spec_normalize(key@.take(i + 1 as int)) =~= spec_normalize(
                key@.take(i as int),
            ).push(if key@[i as int] == '_' {
                '-'
            } else {
                key@[i as int]
            }));
        }
        i = i + 1;
    }
    proof {
        assert(key@.take(n as int) =~= key@);
    }
    out
}

fn valid_path_str(t: &Vec<char>) -> (r: bool)
    ensures
        r == spec_valid_path(t@, 0),
{
    let mut i: usize = 0;
    loop
        invariant
            i <= t@.len(),
            spec_valid_path(t@, 0) == spec_valid_path(t@, i as int),
        decreases t@.len() - i,
    {
        if i >= t.len() {
            return false;
        }
        if !crate::text::is_ident_start(t[i]) {
            return false;
        }
        let k = ident_end(t, i);
        if k == t.len() {
            return true;
        }
        if k + 1 < t.len() && t[k] == ':' && t[k + 1] == ':' {
            proof {
                lemma_ident_run_bounds(t@, i as int);
            }
            i = k + 2;
        } else {
            return false;
        }
    }
}

fn parse_value_item(s: &Vec<char>, j3: usize, key: String) -> (r: Option<(AttrItem, usize)>)
    requires
        j3 <= s@.len(),
    ensures
        (r is Some) == (spec_value_item(s@, j3 as int, key@) is Some),
        r is Some ==> {
            let p = spec_value_item(s@, j3 as int, key@).unwrap();
            r.unwrap().0@ == p.0 && r.unwrap().1 as int == p.1 && r.unwrap().1 <= s@.len()
        },
{
    if j3 < s.len() && s[j3] == '"' {
        match parse_string(s, j3) {
            Option::None => Option::None,
            Option::Some((v, e)) => Option::Some((AttrItem::KeyValue { key, value: v }, e)),
        }
    } else {
        let e = expr_end(s, j3);
        let sub = subrange_vec(s, j3, e);
        let t = trim_string(&sub);
        if t.as_str().unicode_len() == 0 {
            Option::None
        } else if crate::text::str_eq(t.as_str(), "true") {
            proof {
                reveal_strlit("true");
                assert("true"@ =~= true_seq());
            }
            Option::Some((AttrItem::KeyBool { key, value: true }, e))
        } else if crate::text::str_eq(t.as_str(), "false") {
            proof {
                reveal_strlit("true");
                reveal_strlit("false");
                assert("true"@ =~= true_seq());
                assert("false"@ =~= false_seq());
            }
            Option::Some((AttrItem::KeyBool { key, value: false }, e))
        } else {
            proof {
                reveal_strlit("true");
                reveal_strlit("false");
                assert("true"@ =~= true_seq());
                assert("false"@ =~= false_seq());
            }
            let is_sig = is_signal_field_binding_key(key.as_str());
            let tv = crate::text::str_chars(t.as_str());
            if is_sig && crate::interp::is_valid_identifier(t.as_str()) && crate::text::is_lowercase(
                t.as_str().get_char(0),
            ) {
                Option::Some((AttrItem::KeySignalField { key, field: t }, e))
            } else if valid_path_str(&tv) {
                Option::Some((AttrItem::KeyPath { key, path: t }, e))
            } else {
                Option::Some((AttrItem::KeyExpr { key, expr: t }, e))
            }
        }
    }
}

fn parse_item_after_key(
    s: &Vec<char>,
    j: usize,
    key: String,
    is_name_ident: bool,
    allow_rename: bool,
) -> (r: Option<(AttrItem, usize)>)
    requires
        0 < j <= s@.len(),
    ensures
        (r is Some) == (spec_item_after_key(s@, j as int, key@, is_name_ident, allow_rename)
            is Some),
        r is Some ==> {
            let p = spec_item_after_key(
                s@,
                j as int,
                key@,
                is_name_ident,
                allow_rename,
            ).unwrap();
            r.unwrap().0@ == p.0 && r.unwrap().1 as int == p.1 && j <= r.unwrap().1 <= s@.len()
        },
{
    let j2 = ws_end(s, j);
    if j2 < s.len() && s[j2] == '=' {
        let j3 = ws_end(s, j2 + 1);
        if allow_rename && is_name_ident {
            if j3 < s.len() && s[j3] == '"' {
                match parse_string(s, j3) {
                    Option::None => Option::None,
                    Option::Some((v, e)) => Option::Some((AttrItem::Rename { name: v }, e)),
                }
            } else {
                Option::None
            }
        } else {
            let r = parse_value_item(s, j3, key);
            proof {
                if spec_value_item(s@, j3 as int, key@) is Some {
                    lemma_expr_end_bounds(s@, j3 as int, 0);
                    lemma_string_advances(s@, j3 as int);
                }
            }
            r
        }
    } else {
        Option::Some((AttrItem::BareKey { key }, j))
    }
}

fn parse_item(s: &Vec<char>, i: usize, allow_rename: bool) -> (r: Option<(AttrItem, usize)>)
    requires
        i <= s@.len(),
    ensures
        (r is Some) == (spec_item(s@, i as int, allow_rename) is Some),
        r is Some ==> {
            let p = spec_item(s@, i as int, allow_rename).unwrap();
            r.unwrap().0@ == p.0 && r.unwrap().1 as int == p.1 && i < r.unwrap().1 <= s@.len()
        },
{
    proof {
        lemma_item_advances(s@, i as int, allow_rename);
    }
    if i >= s.len() {
        Option::None
    } else if s[i] == '"' {
        match parse_string(s, i) {
            Option::None => Option::None,
            Option::Some((key, j)) => parse_item_after_key(s, j, key, false, allow_rename),
        }
    } else if crate::text::is_ident_start(s[i]) {
        let k = ident_end(s, i);
        proof {
            lemma_ident_run_bounds(s@, i as int);
        }
        let rawv = subrange_vec(s, i, k);
        let raw = crate::text::chars_string(&rawv);
        let key = normalize_attr_key(raw.as_str());
        let is_name = crate::text::str_eq(raw.as_str(), "name");
        proof {
            reveal_strlit("name");
            assert("name"@ =~= name_seq());
        }
        parse_item_after_key(s, k, key, is_name, allow_rename)
    } else {
        Option::None
    }
}

/// Split an explicit format-argument list into its arguments.
pub fn split_args(text: &str) -> (r: Vec<String>)
    ensures
        r@.map_values(|t: String| t@) == spec_split_args(text@, 0),
{
    let s = crate::text::str_chars(text);
    let mut out: Vec<String> = Vec::new();
    let mut i: usize = 0;
    loop
        invariant
            i <= s@.len(),
            s@ == text@,
            spec_split_args(text@, 0) == out@.map_values(|t: String| t@) + spec_split_args(
                text@,
                i as int,
            ),
        decreases s@.len() - i,
    {
        let e = expr_end(&s, i);
        let sub = subrange_vec(&s, i, e);
        let t = trim_string(&sub);
        if e >= s.len() {
            if t.as_str().unicode_len() == 0 {
                proof {
                    assert(out@.map_values(|x: String| x@) + Seq::<Seq<char>>::empty()
                        =~= out@.map_values(|x: String| x@));
                }
                return out;
            }
            let ghost old_out = out@;
            out.push(t);
            proof {
                assert(out@.map_values(|x: String| x@) =~= old_out.map_values(|x: String| x@)
                    + spec_split_args(text@, i as int));
            }
            return out;
        }
        let ghost old_out = out@;
        out.push(t);
        proof {
            assert(old_out.map_values(|x: String| x@) + spec_split_args(text@, i as int)
                =~= out@.map_values(|x: String| x@) + spec_split_args(text@, (e + 1) as int));
        }
        i = e + 1;
    }
}

/// Parse a whole attribute-item list. `None` is a malformed list,
/// a specification-build-time error.
pub fn parse_items(list: &str, allow_rename: bool) -> (r: Option<Vec<AttrItem>>)
    ensures
        (r is Some) == (spec_items(list@, 0, allow_rename) is Some),
        r is Some ==> r.unwrap()@.map_values(|it: AttrItem| it@) == spec_items(
            list@,
            0,
            allow_rename,
        ).unwrap(),
{
    let s = crate::text::str_chars(list);
    let mut out: Vec<AttrItem> = Vec::new();
    let mut i: usize = 0;
    loop
        invariant
            i <= s@.len(),
            s@ == list@,
            match spec_items(list@, 0, allow_rename) {
                Option::Some(whole) => spec_items(list@, i as int, allow_rename) matches Option
                    ::Some(rest) && whole == out@.map_values(|it: AttrItem| it@) + rest,
                Option::None => spec_items(list@, i as int, allow_rename) is None,
            },
        decreases s@.len() - i,
    {
        let j = ws_end(&s, i);
        if j >= s.len() {
            proof {
                if spec_items(list@, 0, allow_rename) is Some {
                    assert(out@.map_values(|it: AttrItem| it@) + Seq::<GAttrItem>::empty()
                        =~= out@.map_values(|it: AttrItem| it@));
                }
            }
            return Option::Some(out);
        }
        match parse_item(&s, j, allow_rename) {
            Option::None => {
                return Option::None;
            },
            Option::Some((it, k)) => {
                let l = ws_end(&s, k);
                let ghost old_out = out@;
                out.push(it);
                proof {
                    assert(out@.map_values(|x: AttrItem| x@) =~= old_out.map_values(
                        |x: AttrItem| x@,
                    ).push(it@));
                }
                if l >= s.len() {
                    proof {
                        if spec_items(list@, 0, allow_rename) is Some {
                            let whole = spec_items(list@, 0, allow_rename).unwrap();
                            assert(spec_items(list@, i as int, allow_rename).unwrap() =~= seq![it@]);
                            assert(whole =~= out@.map_values(|x: AttrItem| x@));
                        }
                    }
                    return Option::Some(out);
                }
                if s[l] == ',' {
                    proof {
                        if spec_items(list@, 0, allow_rename) is Some {
                            let whole = spec_items(list@, 0, allow_rename).unwrap();
                            let rest = spec_items(list@, i as int, allow_rename).unwrap();
                            let tail = spec_items(list@, (l + 1) as int, allow_rename).unwrap();
                            assert(rest =~= seq![it@] + tail);
                            assert(old_out.map_values(|x: AttrItem| x@) + rest =~= out@.map_values(
                                |x: AttrItem| x@,
                            ) + tail);
                        }
                    }
                    i = l + 1;
                } else {
                    return Option::None;
                }
            },
        }
    }
}

} // verus!

//! The interpolation mini-language used inside literal strings of a
//! specification: `{{` and `}}` collapse to single braces, and a
//! single `{` followed by a valid identifier and a matching `}` is a
//! field reference, replaced at render time by the named field's
//! current text. A brace whose contents are not an identifier is an
//! ordinary literal character.
//!
//! The same lexer serves attribute keys and attribute values.

use vstd::prelude::*;

use crate::text::{spec_ident_char, spec_ident_start};

verus! {

/// Index of the first `}` in `s`, if any.
pub open spec fn find_close(s: Seq<char>) -> Option<int>
    decreases s.len(),
{
    if s.len() == 0 {
        Option::None
    } else if s[0] == '}' {
        Option::Some(0int)
    } else {
        match find_close(s.drop_first()) {
            Option::None => Option::None,
            Option::Some(i) => Option::Some(i + 1),
        }
    }
}

pub proof fn lemma_find_close_some(s: Seq<char>, m: int)
    requires
        0 <= m < s.len(),
        s[m] == '}',
        forall|k: int| 0 <= k < m ==> s[k] != '}',
    ensures
        find_close(s) == Option::Some(m),
    decreases s.len(),
{
    if m > 0 {
        lemma_find_close_some(s.drop_first(), m - 1);
    }
}

pub proof fn lemma_find_close_none(s: Seq<char>)
    requires
        forall|k: int| 0 <= k < s.len() ==> s[k] != '}',
    ensures
        find_close(s) == Option::None::<int>,
    decreases s.len(),
{
    if s.len() > 0 {
        lemma_find_close_none(s.drop_first());
    }
}

pub proof fn lemma_find_close_bounds(s: Seq<char>)
    ensures
        match find_close(s) {
            Option::Some(m) => 0 <= m < s.len() && s[m] == '}' && (forall|k: int|
                0 <= k < m ==> s[k] != '}'),
            Option::None => forall|k: int| 0 <= k < s.len() ==> s[k] != '}',
        },
    decreases s.len(),
{
    if s.len() > 0 && s[0] != '}' {
        lemma_find_close_bounds(s.drop_first());
        match find_close(s.drop_first()) {
            Option::Some(m) => {
                assert forall|k: int| 0 <= k < m + 1 implies s[k] != '}' by {
                    if k > 0 {
                        assert(s[k] == s.drop_first()[k - 1]);
                    }
                }
            },
            Option::None => {
                assert forall|k: int| 0 <= k < s.len() implies s[k] != '}' by {
                    if k > 0 {
                        assert(s[k] == s.drop_first()[k - 1]);
                    }
                }
            },
        }
    }
}

/// A valid field identifier: a letter or `_` first, letters, digits
/// or `_` after.
pub open spec fn spec_valid_ident(s: Seq<char>) -> bool {
    s.len() > 0 && spec_ident_start(s[0]) && (forall|i: int|
        1 <= i < s.len() ==> spec_ident_char(s[i]))
}

/// Whether the template, read at its start, stands on a field
/// reference: a `{`, then a valid identifier, then the first `}`.
pub open spec fn field_at(s: Seq<char>) -> bool {
    &&& s.len() >= 2
    &&& s[0] == '{'
    &&& match find_close(s.drop_first()) {
        Option::None => false,
        Option::Some(i) => spec_valid_ident(s.drop_first().take(i)),
    }
}

/// An interpolation environment: field names bound to their current
/// texts, later bindings shadowing earlier ones of the same name.
pub struct TemplateEnv {
    pub entries: Vec<(String, String)>,
}

pub open spec fn env_map(entries: Seq<(String, String)>) -> Map<Seq<char>, Seq<char>>
    decreases entries.len(),
{
    if entries.len() == 0 {
        Map::empty()
    } else {
        env_map(entries.drop_last()).insert(entries.last().0@, entries.last().1@)
    }
}

impl View for TemplateEnv {
    type V = Map<Seq<char>, Seq<char>>;

    open spec fn view(&self) -> Map<Seq<char>, Seq<char>> {
        env_map(self.entries@)
    }
}

proof fn lemma_env_map_found(entries: Seq<(String, String)>, i: int)
    requires
        0 <= i < entries.len(),
        forall|j: int| i < j < entries.len() ==> entries[j].0@ != entries[i].0@,
    ensures
        env_map(entries).contains_key(entries[i].0@),
        env_map(entries)[entries[i].0@] == entries[i].1@,
    decreases entries.len(),
{
    if i + 1 < entries.len() {
        assert(entries.drop_last()[i] == entries[i]);
        lemma_env_map_found(entries.drop_last(), i);
    }
}

proof fn lemma_env_map_absent(entries: Seq<(String, String)>, name: Seq<char>)
    requires
        forall|j: int| 0 <= j < entries.len() ==> entries[j].0@ != name,
    ensures
        !env_map(entries).contains_key(name),
    decreases entries.len(),
{
    if entries.len() > 0 {
        lemma_env_map_absent(entries.drop_last(), name);
    }
}

impl TemplateEnv {
    pub fn new() -> (r: TemplateEnv)
        ensures
            r@ == Map::<Seq<char>, Seq<char>>::empty(),
            r.entries@.len() == 0,
    {
        TemplateEnv { entries: Vec::new() }
    }

    pub fn bind(&mut self, name: String, value: String)
        ensures
            final(self)@ == old(self)@.insert(name@, value@),
            final(self).entries@ == old(self).entries@.push((name, value)),
    {
        let ghost before = self.entries@;
        self.entries.push((name, value));
        proof {
            assert(self.entries@.drop_last() =~= before);
        }
    }

    /// Look the name up; the latest binding of the name wins.
    pub fn lookup(&self, name: &str) -> (r: Option<&String>)
        ensures
            match r {
                Option::Some(v) => self@.contains_key(name@) && v@ == self@[name@],
                Option::None => !self@.contains_key(name@),
            },
    {
        let n = self.entries.len();
        let mut i: usize = n;
        while i > 0
            invariant
                i <= n,
                n == self.entries@.len(),
                forall|j: int| i <= j < n ==> self.entries@[j].0@ != name@,
            decreases i,
        {
            i = i - 1;
            if crate::text::str_eq(self.entries[i].0.as_str(), name) {
                proof {
                    lemma_env_map_found(self.entries@, i as int);
                }
                return Option::Some(&self.entries[i].1);
            }
        }
        proof {
            lemma_env_map_absent(self.entries@, name@);
        }
        Option::None
    }
}

pub open spec fn env_get(env: Map<Seq<char>, Seq<char>>, name: Seq<char>) -> Seq<char> {
    if env.contains_key(name) {
        env[name]
    } else {
        Seq::empty()
    }
}

/// The interpolation pass: `{{`/`}}` collapse to one brace, a
/// field reference becomes the bound text, a brace group whose
/// contents are not an identifier stands as ordinary literal
/// characters through its closing `}` (only its own brace escapes
/// collapsed), and everything else is copied through.
pub open spec fn spec_interp(s: Seq<char>, env: Map<Seq<char>, Seq<char>>) -> Seq<char>
    decreases s.len(),
    via spec_interp_decreases
{
    if s.len() == 0 {
        Seq::empty()
    } else if s.len() >= 2 && s[0] == '{' && s[1] == '{' {
        seq!['{'] + spec_interp(s.skip(2), env)
    } else if s.len() >= 2 && s[0] == '}' && s[1] == '}' {
        seq!['}'] + spec_interp(s.skip(2), env)
    } else if field_at(s) {
        let i = find_close(s.drop_first()).unwrap();
        env_get(env, s.drop_first().take(i)) + spec_interp(s.skip(i + 2), env)
    } else if s[0] == '{' && find_close(s.drop_first()) is Some {
        let i = find_close(s.drop_first()).unwrap();
        seq!['{'] + spec_collapse(s.drop_first().take(i)) + seq!['}'] + spec_interp(
            s.skip(i + 2),
            env,
        )
    } else {
        seq![s[0]] + spec_interp(s.drop_first(), env)
    }
}

#[via_fn]
proof fn spec_interp_decreases(s: Seq<char>, env: Map<Seq<char>, Seq<char>>) {
    if s.len() >= 2 && s[0] == '{' && s[1] == '{' {
    } else if s.len() >= 2 && s[0] == '}' && s[1] == '}' {
    } else if s.len() > 0 && s[0] == '{' {
        lemma_find_close_bounds(s.drop_first());
    }
}

/// What interpolating a template against an environment produces:
/// a template with no field reference stays a literal — only its
/// brace escapes collapse — and one with a field reference goes
/// through the interpolation pass.
pub open spec fn spec_render_template(s: Seq<char>, env: Map<Seq<char>, Seq<char>>) -> Seq<char> {
    if spec_has_field(s) {
        spec_interp(s, env)
    } else {
        spec_collapse(s)
    }
}

/// Whether the template holds at least one field reference. The
/// contents of a rejected brace group are ordinary literals: a
/// reference is looked for again only past the group's closing `}`.
pub open spec fn spec_has_field(s: Seq<char>) -> bool
    decreases s.len(),
    via spec_has_field_decreases
{
    if s.len() == 0 {
        false
    } else if s.len() >= 2 && s[0] == '{' && s[1] == '{' {
        spec_has_field(s.skip(2))
    } else if s.len() >= 2 && s[0] == '}' && s[1] == '}' {
        spec_has_field(s.skip(2))
    } else if field_at(s) {
        true
    } else if s[0] == '{' && find_close(s.drop_first()) is Some {
        spec_has_field(s.skip(find_close(s.drop_first()).unwrap() + 2))
    } else {
        spec_has_field(s.drop_first())
    }
}

#[via_fn]
proof fn spec_has_field_decreases(s: Seq<char>) {
    if s.len() >= 2 && s[0] == '{' && s[1] == '{' {
    } else if s.len() >= 2 && s[0] == '}' && s[1] == '}' {
    } else if s.len() > 0 && s[0] == '{' {
        lemma_find_close_bounds(s.drop_first());
    }
}

/// Collapsing the brace escapes of a literal template: `{{` and `}}`
/// become one brace each; everything else is copied through.
pub open spec fn spec_collapse(s: Seq<char>) -> Seq<char>
    decreases s.len(),
{
    if s.len() == 0 {
        Seq::empty()
    } else if s.len() >= 2 && s[0] == '{' && s[1] == '{' {
        seq!['{'] + spec_collapse(s.skip(2))
    } else if s.len() >= 2 && s[0] == '}' && s[1] == '}' {
        seq!['}'] + spec_collapse(s.skip(2))
    } else {
        seq![s[0]] + spec_collapse(s.drop_first())
    }
}

/// A template with no field reference renders to its source text
/// with the brace escapes collapsed, whatever the environment — and
/// with no escaping of any kind applied.
pub proof fn lemma_literal_template_collapses(s: Seq<char>, env: Map<Seq<char>, Seq<char>>)
    requires
        !spec_has_field(s),
    ensures
        spec_render_template(s, env) == spec_collapse(s),
{
}

/// Is the string a valid field identifier?
pub fn is_valid_identifier(s: &str) -> (r: bool)
    ensures
        r == spec_valid_ident(s@),
{
    let n = s.unicode_len();
    if n == 0 {
        return false;
    }
    if !crate::text::is_ident_start(s.get_char(0)) {
        return false;
    }
    let mut i: usize = 1;
    while i < n
        invariant
            1 <= i <= n,
            n == s@.len(),
            forall|j: int| 1 <= j < i ==> spec_ident_char(s@[j]),
        decreases n - i,
    {
        if !crate::text::is_ident_char(s.get_char(i)) {
            return false;
        }
        i = i + 1;
    }
    true
}

/// First `}` at or after `start`, if any.
pub(crate) fn find_close_from(s: &str, start: usize) -> (r: Option<usize>)
    requires
        start <= s@.len(),
    ensures
        match r {
            Option::Some(j) => start <= j < s@.len() && s@[j as int] == '}' && (forall|k: int|
                start <= k < j ==> s@[k] != '}') && find_close(s@.skip(start as int))
                == Option::Some(j - start),
            Option::None => find_close(s@.skip(start as int)) == Option::None::<int>,
        },
{
    let n = s.unicode_len();
    let mut j: usize = start;
    while j < n
        invariant
            start <= j <= n,
            n == s@.len(),
            forall|k: int| start <= k < j ==> s@[k] != '}',
        decreases n - j,
    {
        if s.get_char(j) == '}' {
            proof {
                let t = s@.skip(start as int);
                lemma_find_close_some(t, j - start);
            }
            return Option::Some(j);
        }
        j = j + 1;
    }
    proof {
        lemma_find_close_none(s@.skip(start as int));
    }
    Option::None
}

/// Does the string hold at least one field reference? Literal-only
/// strings are kept as plain literals by the parser; interpolated
/// ones are compiled into a template.
pub fn has_interpolation(s: &str) -> (r: bool)
    ensures
        r == spec_has_field(s@),
{
    let n = s.unicode_len();
    let mut i: usize = 0;
    proof {
        assert(s@.skip(0int) =~= s@);
    }
    while i < n
        invariant
            i <= n,
            n == s@.len(),
            spec_has_field(s@) == spec_has_field(s@.skip(i as int)),
        decreases n - i,
    {
        let ghost suffix = s@.skip(i as int);
        let c = s.get_char(i);
        if c == '{' && i + 1 < n && s.get_char(i + 1) == '{' {
            proof {
                assert(suffix.skip(2) =~= s@.skip(i + 2));
            }
            i = i + 2;
        } else if c == '}' && i + 1 < n && s.get_char(i + 1) == '}' {
            proof {
                assert(suffix.skip(2) =~= s@.skip(i + 2));
            }
            i = i + 2;
        } else if c == '{' {
            let close = find_close_from(s, i + 1);
            proof {
                assert(suffix.drop_first() =~= s@.skip(i + 1));
            }
            match close {
                Option::Some(j) => {
                    let name = s.substring_char(i + 1, j);
                    proof {
                        assert(name@ =~= suffix.drop_first().take((j - i - 1) as int));
                    }
                    if is_valid_identifier(name) {
                        assert(field_at(suffix));
                        return true;
                    }
                    proof {
                        assert(!field_at(suffix));
                        assert(suffix.skip((j - i - 1) + 2) =~= s@.skip(j + 1));
                    }
                    i = j + 1;
                },
                Option::None => {
                    proof {
                        assert(!field_at(suffix));
                    }
                    i = i + 1;
                },
            }
        } else {
            proof {
                assert(!field_at(suffix));
                assert(suffix.drop_first() =~= s@.skip(i + 1));
            }
            i = i + 1;
        }
    }
    proof {
        assert(s@.skip(n as int) =~= Seq::<char>::empty());
    }
    false
}

/// Collapse `{{` and `}}` to single braces, leaving everything else
/// in place.
pub fn unescape_double_braces(value: &str) -> (r: String)
    ensures
        r@ == spec_collapse(value@),
{
    let n = value.unicode_len();
    let mut out = String::new();
    let mut i: usize = 0;
    proof {
        assert(value@.skip(0int) =~= value@);
    }
    while i < n
        invariant
            i <= n,
            n == value@.len(),
            spec_collapse(value@) == out@ + spec_collapse(value@.skip(i as int)),
        decreases n - i,
    {
        let ghost suffix = value@.skip(i as int);
        let c = value.get_char(i);
        if c == '{' && i + 1 < n && value.get_char(i + 1) == '{' {
            crate::text::push_char(&mut out, '{');
            proof {
                assert(suffix.skip(2) =~= value@.skip(i + 2));
                assert(out@ + spec_collapse(value@.skip(i + 2)) =~= spec_collapse(value@));
            }
            i = i + 2;
        } else if c == '}' && i + 1 < n && value.get_char(i + 1) == '}' {
            crate::text::push_char(&mut out, '}');
            proof {
                assert(suffix.skip(2) =~= value@.skip(i + 2));
                assert(out@ + spec_collapse(value@.skip(i + 2)) =~= spec_collapse(value@));
            }
            i = i + 2;
        } else {
            crate::text::push_char(&mut out, c);
            proof {
                assert(suffix.drop_first() =~= value@.skip(i + 1));
                assert(out@ + spec_collapse(value@.skip(i + 1)) =~= spec_collapse(value@));
            }
            i = i + 1;
        }
    }
    proof {
        assert(value@.skip(n as int) =~= Seq::<char>::empty());
        assert(out@ =~= spec_collapse(value@));
    }
    out
}

/// Interpolate a template against an environment. A template with
/// no field reference only has its brace escapes collapsed; in one
/// with field references, each reference becomes the bound text (or
/// nothing, for a name the environment does not hold), and a
/// rejected brace group stands literally through its closing `}`.
pub fn render_template(template: &str, env: &TemplateEnv) -> (r: String)
    ensures
        r@ == spec_render_template(template@, env@),
{
    if !has_interpolation(template) {
        return unescape_double_braces(template);
    }
    let n = template.unicode_len();
    let mut out = String::new();
    let mut i: usize = 0;
    proof {
        assert(template@.skip(0int) =~= template@);
    }
    while i < n
        invariant
            i <= n,
            n == template@.len(),
            spec_interp(template@, env@) == out@ + spec_interp(template@.skip(i as int), env@),
        decreases n - i,
    {
        let ghost suffix = template@.skip(i as int);
        let c = template.get_char(i);
        if c == '{' && i + 1 < n && template.get_char(i + 1) == '{' {
            crate::text::push_char(&mut out, '{');
            proof {
                assert(suffix.skip(2) =~= template@.skip(i + 2));
                assert(out@ + spec_interp(template@.skip(i + 2), env@) =~= spec_interp(
                    template@,
                    env@,
                ));
            }
            i = i + 2;
        } else if c == '}' && i + 1 < n && template.get_char(i + 1) == '}' {
            crate::text::push_char(&mut out, '}');
            proof {
                assert(suffix.skip(2) =~= template@.skip(i + 2));
                assert(out@ + spec_interp(template@.skip(i + 2), env@) =~= spec_interp(
                    template@,
                    env@,
                ));
            }
            i = i + 2;
        } else if c == '{' {
            let close = find_close_from(template, i + 1);
            proof {
                assert(suffix.drop_first() =~= template@.skip(i + 1));
            }
            match close {
                Option::Some(j) => {
                    let name = template.substring_char(i + 1, j);
                    proof {
                        assert(name@ =~= suffix.drop_first().take((j - i - 1) as int));
                    }
                    if is_valid_identifier(name) {
                        assert(field_at(suffix));
                        match env.lookup(name) {
                            Option::Some(v) => {
                                out.append(v.as_str());
                            },
                            Option::None => {},
                        }
                        proof {
                            assert(suffix.skip((j - i - 1) + 2) =~= template@.skip(j + 1));
                            assert(out@ + spec_interp(template@.skip(j + 1), env@) =~= spec_interp(
                                template@,
                                env@,
                            ));
                        }
                        i = j + 1;
                    } else {
                        crate::text::push_char(&mut out, '{');
                        let collapsed = unescape_double_braces(name);
                        out.append(collapsed.as_str());
                        crate::text::push_char(&mut out, '}');
                        proof {
                            assert(!field_at(suffix));
                            assert(suffix.skip((j - i - 1) + 2) =~= template@.skip(j + 1));
                            assert(out@ + spec_interp(template@.skip(j + 1), env@) =~= spec_interp(
                                template@,
                                env@,
                            ));
                        }
                        i = j + 1;
                    }
                },
                Option::None => {
                    crate::text::push_char(&mut out, c);
                    proof {
                        assert(!field_at(suffix));
                        assert(out@ + spec_interp(template@.skip(i + 1), env@) =~= spec_interp(
                            template@,
                            env@,
                        ));
                    }
                    i = i + 1;
                },
            }
        } else {
            crate::text::push_char(&mut out, c);
            proof {
                assert(!field_at(suffix));
                assert(suffix.drop_first() =~= template@.skip(i + 1));
                assert(out@ + spec_interp(template@.skip(i + 1), env@) =~= spec_interp(
                    template@,
                    env@,
                ));
            }
            i = i + 1;
        }
    }
    proof {
        assert(template@.skip(n as int) =~= Seq::<char>::empty());
        assert(out@ =~= spec_interp(template@, env@));
    }
    out
}

} // verus!

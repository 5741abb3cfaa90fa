//! Format templates: `{}` and `{name}` slots, with an optional
//! precision (`{:.4}`), filled from a positional argument list and
//! a named binding. The brace escapes `{{` and `}}` collapse to
//! single braces, exactly as in the interpolation lexer. The text a
//! slot's value contributes is HTML-escaped, exactly once; the
//! template's own literal text is the specification's and stands
//! unescaped.

use vstd::prelude::*;

use crate::html::escape_text;
use crate::interp::{find_close, lemma_find_close_bounds, spec_valid_ident};
use crate::value::{spec_scalar_fmt, Scalar};

verus! {

/// Index of the first `:` in `s`, if any.
pub open spec fn find_colon(s: Seq<char>) -> Option<int>
    decreases s.len(),
{
    if s.len() == 0 {
        Option::None
    } else if s[0] == ':' {
        Option::Some(0int)
    } else {
        match find_colon(s.drop_first()) {
            Option::None => Option::None,
            Option::Some(i) => Option::Some(i + 1),
        }
    }
}

proof fn lemma_find_colon_some(s: Seq<char>, m: int)
    requires
        0 <= m < s.len(),
        s[m] == ':',
        forall|k: int| 0 <= k < m ==> s[k] != ':',
    ensures
        find_colon(s) == Option::Some(m),
    decreases s.len(),
{
    if m > 0 {
        lemma_find_colon_some(s.drop_first(), m - 1);
    }
}

proof fn lemma_find_colon_none(s: Seq<char>)
    requires
        forall|k: int| 0 <= k < s.len() ==> s[k] != ':',
    ensures
        find_colon(s) == Option::None::<int>,
    decreases s.len(),
{
    if s.len() > 0 {
        lemma_find_colon_none(s.drop_first());
    }
}

proof fn lemma_spec_num_bound(t: Seq<char>)
    requires
        all_digits(t),
    ensures
        0 <= spec_num(t) < crate::value::pow10(t.len()),
    decreases t.len(),
{
    if t.len() > 0 {
        assert(all_digits(t.drop_last()));
        lemma_spec_num_bound(t.drop_last());
        assert(crate::value::pow10(t.len()) == 10 * crate::value::pow10((t.len() - 1) as nat));
    }
}

pub open spec fn spec_digit_val(c: char) -> int {
    if c == '0' {
        0
    } else if c == '1' {
        1
    } else if c == '2' {
        2
    } else if c == '3' {
        3
    } else if c == '4' {
        4
    } else if c == '5' {
        5
    } else if c == '6' {
        6
    } else if c == '7' {
        7
    } else if c == '8' {
        8
    } else if c == '9' {
        9
    } else {
        -1
    }
}

pub open spec fn all_digits(s: Seq<char>) -> bool {
    forall|k: int| 0 <= k < s.len() ==> spec_digit_val(s[k]) >= 0
}

/// The number a digit string denotes.
pub open spec fn spec_num(s: Seq<char>) -> int
    decreases s.len(),
{
    if s.len() == 0 {
        0
    } else {
        spec_num(s.drop_last()) * 10 + spec_digit_val(s.last())
    }
}

/// What stands between the braces of a slot: an optional field
/// name, and an optional precision after `:.`. The outer `None` is
/// a malformed slot.
pub open spec fn spec_slot(inner: Seq<char>) -> Option<(Option<Seq<char>>, Option<int>)> {
    let name_part = match find_colon(inner) {
        Option::Some(c) => inner.take(c),
        Option::None => inner,
    };
    let name: Option<Option<Seq<char>>> = if name_part.len() == 0 {
        Option::Some(Option::None)
    } else if spec_valid_ident(name_part) {
        Option::Some(Option::Some(name_part))
    } else {
        Option::None
    };
    match name {
        Option::None => Option::None,
        Option::Some(nm) => match find_colon(inner) {
            Option::None => Option::Some((nm, Option::None)),
            Option::Some(c) => {
                let sp = inner.skip(c + 1);
                if sp.len() == 0 {
                    Option::Some((nm, Option::None))
                } else if sp[0] == '.' && sp.len() >= 2 && sp.len() <= 7 && all_digits(
                    sp.drop_first(),
                ) {
                    Option::Some((nm, Option::Some(spec_num(sp.drop_first()))))
                } else {
                    Option::None
                }
            },
        },
    }
}

/// What rendering the format template from index `i` produces, with
/// `k` positional arguments already consumed. `None` is a malformed
/// template, a slot past the argument list, or a name the binding
/// does not hold — all specification-build-time failures.
pub open spec fn spec_render_fmt(
    s: Seq<char>,
    i: int,
    k: int,
    pos: Seq<Scalar>,
    named: Map<Seq<char>, Scalar>,
) -> Option<Seq<char>>
    decreases s.len() - i,
    via spec_render_fmt_decreases
{
    if i < 0 || i >= s.len() {
        Option::Some(Seq::empty())
    } else if s.len() >= i + 2 && s[i] == '{' && s[i + 1] == '{' {
        match spec_render_fmt(s, i + 2, k, pos, named) {
            Option::None => Option::None,
            Option::Some(t) => Option::Some(seq!['{'] + t),
        }
    } else if s.len() >= i + 2 && s[i] == '}' && s[i + 1] == '}' {
        match spec_render_fmt(s, i + 2, k, pos, named) {
            Option::None => Option::None,
            Option::Some(t) => Option::Some(seq!['}'] + t),
        }
    } else if s[i] == '{' {
        match find_close(s.skip(i + 1)) {
            Option::None => Option::None,
            Option::Some(j) => {
                let close = i + 1 + j;
                match spec_slot(s.subrange(i + 1, close)) {
                    Option::None => Option::None,
                    Option::Some((name, prec)) => {
                        let value: Option<Scalar> = match name {
                            Option::Some(nm) => if named.contains_key(nm) {
                                Option::Some(named[nm])
                            } else {
                                Option::None
                            },
                            Option::None => if 0 <= k < pos.len() {
                                Option::Some(pos[k])
                            } else {
                                Option::None
                            },
                        };
                        let k2 = if name is Some {
                            k
                        } else {
                            k + 1
                        };
                        match value {
                            Option::None => Option::None,
                            Option::Some(v) => match spec_render_fmt(s, close + 1, k2, pos, named) {
                                Option::None => Option::None,
                                Option::Some(t) => Option::Some(
                                    escape_text(
                                        spec_scalar_fmt(
                                            v,
                                            match prec {
                                                Option::None => Option::None,
                                                Option::Some(p) => Option::Some(p as nat),
                                            },
                                        ),
                                    ) + t,
                                ),
                            },
                        }
                    },
                }
            },
        }
    } else if s[i] == '}' {
        Option::None
    } else {
        match spec_render_fmt(s, i + 1, k, pos, named) {
            Option::None => Option::None,
            Option::Some(t) => Option::Some(seq![s[i]] + t),
        }
    }
}

#[via_fn]
proof fn spec_render_fmt_decreases(
    s: Seq<char>,
    i: int,
    k: int,
    pos: Seq<Scalar>,
    named: Map<Seq<char>, Scalar>,
) {
    if 0 <= i < s.len() {
        lemma_find_close_bounds(s.skip(i + 1));
    }
}

/// A named binding of scalars, later bindings shadowing earlier
/// ones.
pub struct ScalarEnv {
    pub entries: Vec<(String, Scalar)>,
}

pub open spec fn scalar_env_map(entries: Seq<(String, Scalar)>) -> Map<Seq<char>, Scalar>
    decreases entries.len(),
{
    if entries.len() == 0 {
        Map::empty()
    } else {
        scalar_env_map(entries.drop_last()).insert(entries.last().0@, entries.last().1)
    }
}

impl View for ScalarEnv {
    type V = Map<Seq<char>, Scalar>;

    open spec fn view(&self) -> Map<Seq<char>, Scalar> {
        scalar_env_map(self.entries@)
    }
}

proof fn lemma_scalar_env_found(entries: Seq<(String, Scalar)>, i: int)
    requires
        0 <= i < entries.len(),
        forall|j: int| i < j < entries.len() ==> entries[j].0@ != entries[i].0@,
    ensures
        scalar_env_map(entries).contains_key(entries[i].0@),
        scalar_env_map(entries)[entries[i].0@] == entries[i].1,
    decreases entries.len(),
{
    if i + 1 < entries.len() {
        assert(entries.drop_last()[i] == entries[i]);
        lemma_scalar_env_found(entries.drop_last(), i);
    }
}

proof fn lemma_scalar_env_absent(entries: Seq<(String, Scalar)>, name: Seq<char>)
    requires
        forall|j: int| 0 <= j < entries.len() ==> entries[j].0@ != name,
    ensures
        !scalar_env_map(entries).contains_key(name),
    decreases entries.len(),
{
    if entries.len() > 0 {
        lemma_scalar_env_absent(entries.drop_last(), name);
    }
}

impl ScalarEnv {
    /// All held scalars are well-formed.
    pub open spec fn wf(&self) -> bool {
        forall|j: int| 0 <= j < self.entries@.len() ==> (#[trigger] self.entries@[j].1).wf()
    }

    pub fn new() -> (r: ScalarEnv)
        ensures
            r@ == Map::<Seq<char>, Scalar>::empty(),
            r.wf(),
            r.entries@.len() == 0,
    {
        ScalarEnv { entries: Vec::new() }
    }

    pub fn bind(&mut self, name: String, value: Scalar)
        requires
            value.wf(),
            old(self).wf(),
        ensures
            final(self)@ == old(self)@.insert(name@, value),
            final(self).wf(),
    {
        let ghost before = self.entries@;
        self.entries.push((name, value));
        proof {
            assert(self.entries@.drop_last() =~= before);
        }
    }

    pub fn lookup(&self, name: &str) -> (r: Option<&Scalar>)
        ensures
            match r {
                Option::Some(v) => self@.contains_key(name@) && *v == self@[name@] && (self.wf()
                    ==> v.wf()),
                Option::None => !self@.contains_key(name@),
            },
    {
        let n = self.entries.len();
        let mut i: usize = n;
        while i > 0
            invariant
                i <= n,
                n == self.entries@.len(),
                forall|j: int| i <= j < n ==> self.entries@[j].0@ != name@,
            decreases i,
        {
            i = i - 1;
            if crate::text::str_eq(self.entries[i].0.as_str(), name) {
                proof {
                    lemma_scalar_env_found(self.entries@, i as int);
                }
                return Option::Some(&self.entries[i].1);
            }
        }
        proof {
            lemma_scalar_env_absent(self.entries@, name@);
        }
        Option::None
    }
}

fn parse_slot(inner: &str) -> (r: Option<(Option<String>, Option<usize>)>)
    ensures
        (r is Some) == (spec_slot(inner@) is Some),
        r is Some ==> {
            let p = spec_slot(inner@).unwrap();
            &&& match (r.unwrap().0, p.0) {
                (Option::Some(a), Option::Some(b)) => a@ == b,
                (Option::None, Option::None) => true,
                _ => false,
            }
            &&& match (r.unwrap().1, p.1) {
                (Option::Some(a), Option::Some(b)) => a as int == b,
                (Option::None, Option::None) => true,
                _ => false,
            }
        },
{
    let n = inner.unicode_len();
    let mut x: usize = 0;
    while x < n && inner.get_char(x) != ':'
        invariant
            x <= n,
            n == inner@.len(),
            forall|j: int| 0 <= j < x ==> inner@[j] != ':',
        decreases n - x,
    {
        x = x + 1;
    }
    let ci: Option<usize> = if x < n {
        proof {
            lemma_find_colon_some(inner@, x as int);
        }
        Option::Some(x)
    } else {
        proof {
            lemma_find_colon_none(inner@);
        }
        Option::None
    };
    let name_end = match ci {
        Option::Some(c) => c,
        Option::None => n,
    };
    let name_part = inner.substring_char(0, name_end);
    proof {
        match find_colon(inner@) {
            Option::Some(c) => {
                assert(name_part@ =~= inner@.take(c));
            },
            Option::None => {
                assert(name_part@ =~= inner@);
            },
        }
    }
    let name: Option<String> = if name_part.unicode_len() == 0 {
        Option::None
    } else if crate::interp::is_valid_identifier(name_part) {
        Option::Some(name_part.to_owned())
    } else {
        return Option::None;
    };
    match ci {
        Option::None => Option::Some((name, Option::None)),
        Option::Some(c) => {
            let splen = n - (c + 1);
            let ghost sp = inner@.skip(c + 1);
            proof {
                assert(sp.len() == splen);
            }
            if splen == 0 {
                Option::Some((name, Option::None))
            } else if inner.get_char(c + 1) == '.' && splen >= 2 && splen <= 7 {
                proof {
                    assert(sp[0] == inner@[(c + 1) as int]);
                    assert(inner@.subrange((c + 2) as int, n as int) =~= sp.drop_first());
                    reveal_with_fuel(crate::value::pow10, 8);
                }
                let mut val: usize = 0;
                let mut y: usize = c + 2;
                while y < n
                    invariant
                        c + 2 <= y <= n,
                        n == inner@.len(),
                        c + 2 + 6 >= n,
                        sp == inner@.skip((c + 1) as int),
                        n - (c + 1) >= 2,
                        find_colon(inner@) == Option::Some(c as int),
                        sp[0] == '.',
                        val == spec_num(inner@.subrange((c + 2) as int, y as int)),
                        all_digits(inner@.subrange((c + 2) as int, y as int)),
                        crate::value::pow10(6) == 1000000,
                    decreases n - y,
                {
                    let ch = inner.get_char(y);
                    let d: usize = if ch == '0' {
                        0
                    } else if ch == '1' {
                        1
                    } else if ch == '2' {
                        2
                    } else if ch == '3' {
                        3
                    } else if ch == '4' {
                        4
                    } else if ch == '5' {
                        5
                    } else if ch == '6' {
                        6
                    } else if ch == '7' {
                        7
                    } else if ch == '8' {
                        8
                    } else if ch == '9' {
                        9
                    } else {
                        proof {
                            assert(inner@.subrange((c + 2) as int, n as int) =~= sp.drop_first());
                            assert(sp.drop_first()[(y - (c + 2)) as int] == inner@[y as int]);
                            assert(!all_digits(sp.drop_first()));
                        }
                        return Option::None;
                    };
                    let ghost prefix = inner@.subrange((c + 2) as int, y as int);
                    proof {
                        lemma_spec_num_bound(prefix);
                        crate::value::lemma_pow10_le(prefix.len(), 5);
                        assert(inner@.subrange((c + 2) as int, (y + 1) as int) =~= prefix.push(
                            inner@[y as int],
                        ));
                        assert(inner@.subrange((c + 2) as int, (y + 1) as int).drop_last()
                            =~= prefix);
                    }
                    val = val * 10 + d;
                    y = y + 1;
                }
                Option::Some((name, Option::Some(val)))
            } else {
                return Option::None;
            }
        },
    }
}

/// Render a format template against a positional argument list and
/// a named binding. An error is a malformed template, a positional
/// slot past the arguments, or a name the binding does not hold.
pub fn render_format(fmt: &str, pos: &Vec<Scalar>, named: &ScalarEnv) -> (r: Result<
    String,
    crate::attributes::SpecError,
>)
    requires
        named.wf(),
        forall|j: int| 0 <= j < pos@.len() ==> (#[trigger] pos@[j]).wf(),
    ensures
        match r {
            Result::Ok(t) => spec_render_fmt(fmt@, 0, 0, pos@, named@) == Option::Some(t@),
            Result::Err(e) => spec_render_fmt(fmt@, 0, 0, pos@, named@) is None && e@
                == crate::attributes::GSpecErr::BadFormat(fmt@),
        },
{
    let n = fmt.unicode_len();
    let mut out = String::new();
    let mut i: usize = 0;
    let mut k: usize = 0;
    while i < n
        invariant
            i <= n,
            k <= i,
            n == fmt@.len(),
            named.wf(),
            forall|j: int| 0 <= j < pos@.len() ==> (#[trigger] pos@[j]).wf(),
            (spec_render_fmt(fmt@, 0, 0, pos@, named@) is Some) == (spec_render_fmt(
                fmt@,
                i as int,
                k as int,
                pos@,
                named@,
            ) is Some),
            spec_render_fmt(fmt@, i as int, k as int, pos@, named@) matches Option::Some(t)
                ==> spec_render_fmt(fmt@, 0, 0, pos@, named@) == Option::Some(out@ + t),
        decreases n - i,
    {
        let ghost old_out = out@;
        let ghost suf_old = spec_render_fmt(fmt@, i as int, k as int, pos@, named@);
        let c = fmt.get_char(i);
        if c == '{' && i + 1 < n && fmt.get_char(i + 1) == '{' {
            crate::text::push_char(&mut out, '{');
            proof {
                match spec_render_fmt(fmt@, (i + 2) as int, k as int, pos@, named@) {
                    Option::Some(t) => {
                        assert(suf_old == Option::Some(seq!['{'] + t));
                        assert(out@ + t =~= old_out + (seq!['{'] + t));
                    },
                    Option::None => {},
                }
            }
            i = i + 2;
        } else if c == '}' && i + 1 < n && fmt.get_char(i + 1) == '}' {
            crate::text::push_char(&mut out, '}');
            proof {
                match spec_render_fmt(fmt@, (i + 2) as int, k as int, pos@, named@) {
                    Option::Some(t) => {
                        assert(suf_old == Option::Some(seq!['}'] + t));
                        assert(out@ + t =~= old_out + (seq!['}'] + t));
                    },
                    Option::None => {},
                }
            }
            i = i + 2;
        } else if c == '{' {
            let close = crate::interp::find_close_from(fmt, i + 1);
            match close {
                Option::None => {
                    proof {
                        assert(suf_old is None);
                    }
                    return Result::Err(crate::attributes::SpecError::BadFormat(fmt.to_owned()));
                },
                Option::Some(j) => {
                    proof {
                        assert(find_close(fmt@.skip((i + 1) as int)) == Option::Some(
                            j - (i + 1),
                        ));
                    }
                    let inner = fmt.substring_char(i + 1, j);
                    proof {
                        assert(inner@ =~= fmt@.subrange((i + 1) as int, j as int));
                    }
                    match parse_slot(inner) {
                        Option::None => {
                            proof {
                                assert(suf_old is None);
                            }
                            return Result::Err(
                                crate::attributes::SpecError::BadFormat(fmt.to_owned()),
                            );
                        },
                        Option::Some((name, prec)) => {
                            let value: Option<&Scalar> = match &name {
                                Option::Some(nm) => named.lookup(nm.as_str()),
                                Option::None => {
                                    if k < pos.len() {
                                        Option::Some(&pos[k])
                                    } else {
                                        Option::None
                                    }
                                },
                            };
                            match value {
                                Option::None => {
                                    proof {
                                        assert(suf_old is None);
                                    }
                                    return Result::Err(
                                        crate::attributes::SpecError::BadFormat(fmt.to_owned()),
                                    );
                                },
                                Option::Some(v) => {
                                    let raw = crate::value::scalar_format(v, prec);
                                    let piece = crate::html::escape_attr_str(raw.as_str());
                                    out.append(piece.as_str());
                                    let ghost k2: int = if name is Some {
                                        k as int
                                    } else {
                                        k as int + 1
                                    };
                                    proof {
                                        match spec_render_fmt(
                                            fmt@,
                                            (j + 1) as int,
                                            k2,
                                            pos@,
                                            named@,
                                        ) {
                                            Option::Some(t) => {
                                                assert(suf_old == Option::Some(piece@ + t));
                                                assert(out@ + t =~= old_out + (piece@ + t));
                                            },
                                            Option::None => {
                                                assert(suf_old is None);
                                            },
                                        }
                                    }
                                    if name.is_none() {
                                        k = k + 1;
                                    }
                                    i = j + 1;
                                },
                            }
                        },
                    }
                },
            }
        } else if c == '}' {
            proof {
                assert(suf_old is None);
            }
            return Result::Err(crate::attributes::SpecError::BadFormat(fmt.to_owned()));
        } else {
            crate::text::push_char(&mut out, c);
            proof {
                match spec_render_fmt(fmt@, (i + 1) as int, k as int, pos@, named@) {
                    Option::Some(t) => {
                        assert(suf_old == Option::Some(seq![fmt@[i as int]] + t));
                        assert(out@ + t =~= old_out + (seq![fmt@[i as int]] + t));
                    },
                    Option::None => {},
                }
            }
            i = i + 1;
        }
    }
    proof {
        assert(out@ + Seq::<char>::empty() =~= out@);
    }
    Result::Ok(out)
}

} // verus!

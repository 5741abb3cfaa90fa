//! Framing of already-rendered text into line-oriented patch
//! events, and the interval attribute helper. The core only
//! supplies text here: reading requests and writing responses
//! belong to the surrounding host code.

use vstd::prelude::*;

use crate::text::{lemma_find_char_bounds, spec_find_char};
use crate::value::spec_digits;

verus! {

/// How patched elements are applied on the client.
#[derive(Clone, Copy, Debug, PartialEq, Eq, Structural)]
pub enum PatchMode {
    Outer,
    Inner,
    Replace,
    Prepend,
    Append,
    Before,
    After,
    Remove,
}

pub open spec fn spec_patch_mode_text(m: PatchMode) -> Seq<char> {
    match m {
        PatchMode::Outer => "outer"@,
        PatchMode::Inner => "inner"@,
        PatchMode::Replace => "replace"@,
        PatchMode::Prepend => "prepend"@,
        PatchMode::Append => "append"@,
        PatchMode::Before => "before"@,
        PatchMode::After => "after"@,
        PatchMode::Remove => "remove"@,
    }
}

impl PatchMode {
    /// The wire name of the mode: the kebab-cased variant name.
    pub fn as_str(&self) -> (r: &'static str)
        ensures
            r@ == spec_patch_mode_text(*self),
    {
        match self {
            PatchMode::Outer => "outer",
            PatchMode::Inner => "inner",
            PatchMode::Replace => "replace",
            PatchMode::Prepend => "prepend",
            PatchMode::Append => "append",
            PatchMode::Before => "before",
            PatchMode::After => "after",
            PatchMode::Remove => "remove",
        }
    }
}

/// The markup namespace of patched elements.
#[derive(Clone, Copy, Debug, PartialEq, Eq, Structural)]
pub enum PatchNamespace {
    Svg,
    MathML,
}

pub open spec fn spec_patch_namespace_text(n: PatchNamespace) -> Seq<char> {
    match n {
        PatchNamespace::Svg => "Svg"@,
        PatchNamespace::MathML => "MathML"@,
    }
}

impl PatchNamespace {
    /// The wire name of the namespace: the variant name verbatim.
    pub fn as_str(&self) -> (r: &'static str)
        ensures
            r@ == spec_patch_namespace_text(*self),
    {
        match self {
            PatchNamespace::Svg => "Svg",
            PatchNamespace::MathML => "MathML",
        }
    }
}

pub open spec fn spec_bool_text(b: bool) -> Seq<char> {
    if b {
        "true"@
    } else {
        "false"@
    }
}

fn bool_str(b: bool) -> (r: &'static str)
    ensures
        r@ == spec_bool_text(b),
{
    if b {
        "true"
    } else {
        "false"
    }
}

/// The lines of a text: split at `\n`, a `\r` just before the
/// split stripped, and no final empty line for a trailing newline.
pub open spec fn spec_lines(s: Seq<char>) -> Seq<Seq<char>>
    decreases s.len(),
    via spec_lines_decreases
{
    if s.len() == 0 {
        Seq::empty()
    } else {
        let e = spec_find_char(s, 0, '\n');
        if e >= s.len() {
            seq![s]
        } else {
            seq![strip_cr(s.take(e))] + spec_lines(s.skip(e + 1))
        }
    }
}

pub open spec fn strip_cr(t: Seq<char>) -> Seq<char> {
    if t.len() > 0 && t.last() == '\r' {
        t.drop_last()
    } else {
        t
    }
}

#[via_fn]
proof fn spec_lines_decreases(s: Seq<char>) {
    if s.len() > 0 {
        lemma_find_char_bounds(s, 0, '\n');
    }
}

/// Split a text into its lines.
pub fn lines_of(s: &str) -> (r: Vec<String>)
    ensures
        r@.map_values(|t: String| t@) == spec_lines(s@),
{
    let n = s.unicode_len();
    let mut out: Vec<String> = Vec::new();
    let mut i: usize = 0;
    proof {
        assert(s@.skip(0int) =~= s@);
    }
    loop
        invariant
            i <= n,
            n == s@.len(),
            spec_lines(s@) == out@.map_values(|t: String| t@) + spec_lines(s@.skip(i as int)),
        decreases n + 1 - i,
    {
        let ghost suffix = s@.skip(i as int);
        if i >= n {
            proof {
                assert(out@.map_values(|t: String| t@) + Seq::<Seq<char>>::empty()
                    =~= out@.map_values(|t: String| t@));
            }
            return out;
        }
        let e = crate::text::find_char(s, i, '\n');
        proof {
            lemma_find_char_bounds(s@, i as int, '\n');
            assert(spec_find_char(suffix, 0, '\n') == spec_find_char(s@, i as int, '\n') - i) by {
                lemma_find_shift(s@, i as int, '\n');
            }
        }
        if e >= n {
            let line = s.substring_char(i, n);
            proof {
                assert(line@ =~= suffix);
                assert(spec_lines(suffix) =~= seq![suffix]);
            }
            let ghost old_out = out@;
            out.push(line.to_owned());
            proof {
                assert(out@.map_values(|t: String| t@) =~= old_out.map_values(|t: String| t@)
                    + spec_lines(suffix));
            }
            return out;
        }
        let line_end: usize = if e > i && s.get_char(e - 1) == '\r' {
            e - 1
        } else {
            e
        };
        let line = s.substring_char(i, line_end);
        proof {
            assert(line@ =~= s@.subrange(i as int, line_end as int));
            assert(suffix.take((e - i) as int) =~= s@.subrange(i as int, e as int));
            assert(strip_cr(suffix.take((e - i) as int)) =~= line@);
        }
        let ghost old_out = out@;
        out.push(line.to_owned());
        proof {
            assert(suffix.skip((e - i) + 1) =~= s@.skip((e + 1) as int));
            assert(out@.map_values(|t: String| t@) =~= old_out.map_values(|t: String| t@).push(
                line@,
            ));
            assert(out@.map_values(|t: String| t@) + spec_lines(s@.skip((e + 1) as int))
                =~= old_out.map_values(|t: String| t@) + spec_lines(suffix));
        }
        i = e + 1;
    }
}

proof fn lemma_find_shift(s: Seq<char>, i: int, c: char)
    requires
        0 <= i <= s.len(),
    ensures
        spec_find_char(s.skip(i), 0, c) == spec_find_char(s, i, c) - i,
{
    lemma_find_char_bounds(s, i, c);
    let r = spec_find_char(s, i, c);
    let t = s.skip(i);
    if r < s.len() {
        assert(t[r - i] == s[r]);
        assert forall|k: int| 0 <= k < r - i implies t[k] != c by {
            assert(t[k] == s[k + i]);
        }
        lemma_find_char_is(t, r - i, c);
    } else {
        assert forall|k: int| 0 <= k < t.len() implies t[k] != c by {
            assert(t[k] == s[k + i]);
        }
        lemma_find_char_is_none(t, c);
    }
}

proof fn lemma_find_char_is(t: Seq<char>, m: int, c: char)
    requires
        0 <= m < t.len(),
        t[m] == c,
        forall|k: int| 0 <= k < m ==> t[k] != c,
    ensures
        spec_find_char(t, 0, c) == m,
    decreases m,
{
    lemma_find_char_is_from(t, 0, m, c);
}

proof fn lemma_find_char_is_from(t: Seq<char>, i: int, m: int, c: char)
    requires
        0 <= i <= m < t.len(),
        t[m] == c,
        forall|k: int| i <= k < m ==> t[k] != c,
    ensures
        spec_find_char(t, i, c) == m,
    decreases m - i,
{
    if i < m {
        lemma_find_char_is_from(t, i + 1, m, c);
    }
}

proof fn lemma_find_char_is_none(t: Seq<char>, c: char)
    requires
        forall|k: int| 0 <= k < t.len() ==> t[k] != c,
    ensures
        spec_find_char(t, 0, c) == t.len(),
{
    lemma_find_char_none_from(t, 0, c);
}

proof fn lemma_find_char_none_from(t: Seq<char>, i: int, c: char)
    requires
        0 <= i <= t.len(),
        forall|k: int| i <= k < t.len() ==> t[k] != c,
    ensures
        spec_find_char(t, i, c) == t.len(),
    decreases t.len() - i,
{
    if i < t.len() {
        lemma_find_char_none_from(t, i + 1, c);
    }
}

/// A patch-elements event: rendered elements, with an optional
/// target selector, mode, namespace and view-transition flag.
pub struct PatchElements {
    pub selector: Option<String>,
    pub mode: Option<PatchMode>,
    pub namespace: Option<PatchNamespace>,
    pub use_view_transition: Option<bool>,
    pub elements: Vec<String>,
}

/// The `data: elements` lines of one rendered element: one line of
/// the event per line of the element's text.
pub open spec fn spec_element_lines(lines: Seq<Seq<char>>, i: int) -> Seq<char>
    decreases lines.len() - i,
{
    if i < 0 || i >= lines.len() {
        Seq::empty()
    } else {
        "data: elements "@ + lines[i] + "\n"@ + spec_element_lines(lines, i + 1)
    }
}

pub open spec fn spec_elements_text(elements: Seq<String>, i: int) -> Seq<char>
    decreases elements.len() - i,
{
    if i < 0 || i >= elements.len() {
        Seq::empty()
    } else {
        spec_element_lines(spec_lines(elements[i]@), 0) + spec_elements_text(elements, i + 1)
    }
}

/// The full wire text of a patch-elements event.
pub open spec fn spec_patch_elements_text(pe: PatchElements) -> Seq<char> {
    "event: datastar-patch-elements\n"@ + (match pe.selector {
        Option::Some(s) => "data: selector "@ + s@ + "\n"@,
        Option::None => Seq::empty(),
    }) + (match pe.mode {
        Option::Some(m) => "data: mode "@ + spec_patch_mode_text(m) + "\n"@,
        Option::None => Seq::empty(),
    }) + (match pe.namespace {
        Option::Some(n) => "data: namespace "@ + spec_patch_namespace_text(n) + "\n"@,
        Option::None => Seq::empty(),
    }) + (match pe.use_view_transition {
        Option::Some(b) => "data: useViewTransition "@ + spec_bool_text(b) + "\n"@,
        Option::None => Seq::empty(),
    }) + spec_elements_text(pe.elements@, 0) + "\n"@
}

impl PatchElements {
    /// A patch-elements event around rendered elements, with no
    /// options set.
    pub fn new(elements: Vec<String>) -> (r: PatchElements)
        ensures
            r.selector is None,
            r.mode is None,
            r.namespace is None,
            r.use_view_transition is None,
            r.elements == elements,
    {
        PatchElements {
            selector: Option::None,
            mode: Option::None,
            namespace: Option::None,
            use_view_transition: Option::None,
            elements,
        }
    }

    /// The event's wire text.
    #[verifier::rlimit(50)]
    pub fn event_string(&self) -> (r: String)
        ensures
            r@ == spec_patch_elements_text(*self),
    {
        let mut out = String::new();
        out.append("event: datastar-patch-elements\n");
        match &self.selector {
            Option::Some(s) => {
                out.append("data: selector ");
                out.append(s.as_str());
                out.append("\n");
            },
            Option::None => {},
        }
        match &self.mode {
            Option::Some(m) => {
                out.append("data: mode ");
                out.append(m.as_str());
                out.append("\n");
            },
            Option::None => {},
        }
        match &self.namespace {
            Option::Some(n) => {
                out.append("data: namespace ");
                out.append(n.as_str());
                out.append("\n");
            },
            Option::None => {},
        }
        match &self.use_view_transition {
            Option::Some(b) => {
                out.append("data: useViewTransition ");
                out.append(bool_str(*b));
                out.append("\n");
            },
            Option::None => {},
        }
        let body = elements_text(&self.elements, 0);
        out.append(body.as_str());
        out.append("\n");
        proof {
            assert(out@ =~= spec_patch_elements_text(*self));
        }
        out
    }
}

fn element_lines(lines: &Vec<String>, i: usize) -> (r: String)
    requires
        i <= lines@.len(),
    ensures
        r@ == spec_element_lines(lines@.map_values(|t: String| t@), i as int),
    decreases lines@.len() - i,
{
    if i >= lines.len() {
        String::new()
    } else {
        let mut out = String::new();
        out.append("data: elements ");
        out.append(lines[i].as_str());
        out.append("\n");
        let rest = element_lines(lines, i + 1);
        let out = out.concat(rest.as_str());
        proof {
            assert(lines@.map_values(|t: String| t@)[i as int] == lines@[i as int]@);
            assert(out@ =~= spec_element_lines(lines@.map_values(|t: String| t@), i as int));
        }
        out
    }
}

fn elements_text(elements: &Vec<String>, i: usize) -> (r: String)
    requires
        i <= elements@.len(),
    ensures
        r@ == spec_elements_text(elements@, i as int),
    decreases elements@.len() - i,
{
    if i >= elements.len() {
        String::new()
    } else {
        let lines = lines_of(elements[i].as_str());
        let first = element_lines(&lines, 0);
        let rest = elements_text(elements, i + 1);
        let out = first.concat(rest.as_str());
        proof {
            assert(out@ =~= spec_elements_text(elements@, i as int));
        }
        out
    }
}

/// The full wire text of a patch-signals event around an
/// already-serialized signal mapping.
pub open spec fn spec_patch_signals_text(only_if_missing: Option<bool>, signals_json: Seq<
    char,
>) -> Seq<char> {
    "event: datastar-patch-signals\n"@ + (match only_if_missing {
        Option::Some(b) => "data: onlyIfMissing "@ + spec_bool_text(b) + "\n"@,
        Option::None => Seq::empty(),
    }) + "data: signals "@ + signals_json + "\n"@ + "\n"@
}

/// Frame a serialized signal mapping as a patch-signals event.
pub fn patch_signals_event(only_if_missing: Option<bool>, signals_json: &str) -> (r: String)
    ensures
        r@ == spec_patch_signals_text(only_if_missing, signals_json@),
{
    let mut out = String::new();
    out.append("event: datastar-patch-signals\n");
    match only_if_missing {
        Option::Some(b) => {
            out.append("data: onlyIfMissing ");
            out.append(bool_str(b));
            out.append("\n");
        },
        Option::None => {},
    }
    out.append("data: signals ");
    out.append(signals_json);
    out.append("\n");
    out.append("\n");
    proof {
        assert(out@ =~= spec_patch_signals_text(only_if_missing, signals_json@));
    }
    out
}

/// The interval attribute: a duration with optional leading and
/// view-transition modifiers.
pub struct DatastarInterval {
    pub duration_ms: u64,
    pub leading: bool,
    pub view_transition: bool,
}

/// The duration's text: whole seconds where the duration is a
/// positive whole number of seconds, milliseconds otherwise.
pub open spec fn spec_interval_duration(ms: u64) -> Seq<char> {
    if ms >= 1000 && ms % 1000 == 0 {
        spec_digits((ms / 1000) as nat) + "s"@
    } else {
        spec_digits(ms as nat) + "ms"@
    }
}

pub open spec fn spec_interval_text(it: DatastarInterval) -> Seq<char> {
    "data-on-interval__duration."@ + spec_interval_duration(it.duration_ms) + (if it.leading {
        ".leading"@
    } else {
        Seq::empty()
    }) + (if it.view_transition {
        "__viewtransition"@
    } else {
        Seq::empty()
    })
}

impl DatastarInterval {
    /// An interval of the given duration, with no modifiers.
    pub fn new(duration_ms: u64) -> (r: DatastarInterval)
        ensures
            r.duration_ms == duration_ms,
            !r.leading,
            !r.view_transition,
    {
        DatastarInterval { duration_ms, leading: false, view_transition: false }
    }

    /// Fire at the leading edge too.
    pub fn leading(self) -> (r: DatastarInterval)
        ensures
            r.duration_ms == self.duration_ms,
            r.leading,
            r.view_transition == self.view_transition,
    {
        DatastarInterval { leading: true, ..self }
    }

    /// Wrap patches in a view transition.
    pub fn viewtransition(self) -> (r: DatastarInterval)
        ensures
            r.duration_ms == self.duration_ms,
            r.leading == self.leading,
            r.view_transition,
    {
        DatastarInterval { view_transition: true, ..self }
    }

    /// The attribute text of the interval.
    pub fn attr_string(&self) -> (r: String)
        ensures
            r@ == spec_interval_text(*self),
    {
        let mut out = String::new();
        out.append("data-on-interval__duration.");
        if self.duration_ms >= 1000 && self.duration_ms % 1000 == 0 {
            let secs = crate::value::u64_to_string(self.duration_ms / 1000);
            out.append(secs.as_str());
            out.append("s");
        } else {
            let ms = crate::value::u64_to_string(self.duration_ms);
            out.append(ms.as_str());
            out.append("ms");
        }
        if self.leading {
            out.append(".leading");
        }
        if self.view_transition {
            out.append("__viewtransition");
        }
        proof {
            assert(out@ =~= spec_interval_text(*self));
        }
        out
    }
}

} // verus!

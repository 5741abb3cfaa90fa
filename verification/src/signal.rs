//! Signals: named, typed pieces of client-observable state. A
//! signal declaration compiles each case into a selector carrying
//! the canonical signal name — camel-cased from the case identifier
//! unless an explicit override is given — and a signal instance
//! pairs such a name with a JSON payload. Merging an ordered list
//! of instances yields one entry per distinct name, the last
//! occurrence winning.

use vstd::prelude::*;

verus! {

/// The payload type signals carry through the library; the library
/// never looks inside it.
#[verifier::external_type_specification]
#[verifier::external_body]
pub struct ExJsonValue(serde_json::Value);

/// The lower-camel-case form of an identifier; it depends on the
/// characters alone.
pub uninterp spec fn lower_camel_of(s: Seq<char>) -> Seq<char>;

/// Relies on heck's `to_lower_camel_case`: a pure conversion of the
/// input string, used to derive a signal name from a case
/// identifier.
#[verifier::external_body]
fn lower_camel(s: &str) -> (r: String)
    ensures
        r@ == lower_camel_of(s@),
{
    heck::ToLowerCamelCase::to_lower_camel_case(s)
}

/// One declared case of a signal-bearing variant type: its
/// identifier, and an explicit signal-name override if one was
/// given.
pub struct SignalCase {
    pub ident: String,
    pub rename: Option<String>,
}

/// The canonical signal name of a case.
pub open spec fn spec_signal_name(ident: Seq<char>, rename: Option<Seq<char>>) -> Seq<char> {
    match rename {
        Option::Some(n) => n,
        Option::None => lower_camel_of(ident),
    }
}

/// A compiled selector: the nominal marker of one signal case,
/// carrying its fixed canonical name.
pub struct SignalSelector {
    pub ident: String,
    pub name: String,
}

impl SignalSelector {
    /// Compile one declared case: the explicit override wins, else
    /// the camel-cased identifier.
    pub fn for_case(case: &SignalCase) -> (r: SignalSelector)
        ensures
            r.ident@ == case.ident@,
            r.name@ == spec_signal_name(
                case.ident@,
                match case.rename {
                    Option::Some(n) => Option::Some(n@),
                    Option::None => Option::None,
                },
            ),
    {
        let name = match &case.rename {
            Option::Some(n) => n.clone(),
            Option::None => lower_camel(case.ident.as_str()),
        };
        SignalSelector { ident: case.ident.clone(), name }
    }

    /// Wrap a payload into an instance of this selector's case.
    pub fn wrap(&self, value: serde_json::Value) -> (r: SignalInstance)
        ensures
            r.name@ == self.name@,
            r.value == value,
    {
        SignalInstance { name: self.name.clone(), value }
    }

    /// The payload, if the instance is this selector's case.
    pub fn extract<'a>(&self, instance: &'a SignalInstance) -> (r: Option<&'a serde_json::Value>)
        ensures
            match r {
                Option::Some(v) => instance.name@ == self.name@ && *v == instance.value,
                Option::None => instance.name@ != self.name@,
            },
    {
        if crate::text::str_eq(instance.name.as_str(), self.name.as_str()) {
            Option::Some(&instance.value)
        } else {
            Option::None
        }
    }

    /// The owning form of [`Self::extract`].
    pub fn into_inner(&self, instance: SignalInstance) -> (r: Option<serde_json::Value>)
        ensures
            match r {
                Option::Some(v) => instance.name@ == self.name@ && v == instance.value,
                Option::None => instance.name@ != self.name@,
            },
    {
        if crate::text::str_eq(instance.name.as_str(), self.name.as_str()) {
            Option::Some(instance.value)
        } else {
            Option::None
        }
    }
}

/// A whole signal declaration: one selector per case.
pub struct SignalDecl {
    pub selectors: Vec<SignalSelector>,
}

impl SignalDecl {
    /// Compile a signal declaration, one selector per declared
    /// case, in order.
    pub fn build(cases: &Vec<SignalCase>) -> (r: SignalDecl)
        ensures
            r.selectors@.len() == cases@.len(),
            forall|i: int|
                0 <= i < cases@.len() ==> (#[trigger] r.selectors@[i]).ident@ == cases@[i].ident@
                    && r.selectors@[i].name@ == spec_signal_name(
                    cases@[i].ident@,
                    match cases@[i].rename {
                        Option::Some(n) => Option::Some(n@),
                        Option::None => Option::None,
                    },
                ),
    {
        let mut selectors: Vec<SignalSelector> = Vec::new();
        let mut i: usize = 0;
        while i < cases.len()
            invariant
                i <= cases@.len(),
                selectors@.len() == i,
                forall|j: int|
                    0 <= j < i ==> (#[trigger] selectors@[j]).ident@ == cases@[j].ident@
                        && selectors@[j].name@ == spec_signal_name(
                        cases@[j].ident@,
                        match cases@[j].rename {
                            Option::Some(n) => Option::Some(n@),
                            Option::None => Option::None,
                        },
                    ),
            decreases cases@.len() - i,
        {
            selectors.push(SignalSelector::for_case(&cases[i]));
            i = i + 1;
        }
        SignalDecl { selectors }
    }
}

/// A live signal: its canonical name and its serialized payload.
/// As a whole it stands for the single-entry mapping
/// `{ name: payload }`.
pub struct SignalInstance {
    pub name: String,
    pub value: serde_json::Value,
}

impl SignalInstance {
    /// The active case's canonical signal name.
    pub fn signal_name(&self) -> (r: &String)
        ensures
            r@ == self.name@,
    {
        &self.name
    }

    /// The active case's payload.
    pub fn to_json_value(&self) -> (r: &serde_json::Value)
        ensures
            *r == self.value,
    {
        &self.value
    }
}

/// A signal-typed value bound to a selector: the wrapper a field
/// holds when it binds to a signal by field reference.
pub struct SignalValue {
    pub selector: SignalSelector,
    pub value: serde_json::Value,
}

impl SignalValue {
    pub fn new(selector: SignalSelector, value: serde_json::Value) -> (r: SignalValue)
        ensures
            r.selector == selector,
            r.value == value,
    {
        SignalValue { selector, value }
    }

    /// The held payload.
    pub fn into_inner(self) -> (r: serde_json::Value)
        ensures
            r == self.value,
    {
        self.value
    }

    /// The instance this value stands for.
    pub fn into_enum(self) -> (r: SignalInstance)
        ensures
            r.name@ == self.selector.name@,
            r.value == self.value,
    {
        SignalInstance { name: self.selector.name, value: self.value }
    }
}

/// An optional value's text: the inner value's text when present,
/// nothing otherwise.
pub trait OptDisplay {
    spec fn opt_spec(&self) -> Seq<char>;

    fn opt_text(&self) -> (r: String)
        ensures
            r@ == self.opt_spec(),
    ;
}

impl OptDisplay for Option<String> {
    open spec fn opt_spec(&self) -> Seq<char> {
        match self {
            Option::Some(v) => v@,
            Option::None => Seq::empty(),
        }
    }

    fn opt_text(&self) -> (r: String)
        ensures
            r@ == self.opt_spec(),
    {
        match self {
            Option::Some(v) => v.clone(),
            Option::None => String::new(),
        }
    }
}

impl OptDisplay for Option<u64> {
    open spec fn opt_spec(&self) -> Seq<char> {
        match self {
            Option::Some(v) => crate::value::spec_digits(*v as nat),
            Option::None => Seq::empty(),
        }
    }

    fn opt_text(&self) -> (r: String)
        ensures
            r@ == self.opt_spec(),
    {
        match self {
            Option::Some(v) => crate::value::u64_to_string(*v),
            Option::None => String::new(),
        }
    }
}

// ------------------------------------------------------------------
// Merging.
// ------------------------------------------------------------------

/// The mapping an ordered list of signals denotes: each name bound
/// to the payload of its last occurrence.
pub open spec fn merged_map(s: Seq<SignalInstance>) -> Map<Seq<char>, serde_json::Value>
    decreases s.len(),
{
    if s.len() == 0 {
        Map::empty()
    } else {
        merged_map(s.drop_last()).insert(s.last().name@, s.last().value)
    }
}

/// The first entry of the list carrying the name, if any.
pub open spec fn find_entry(entries: Seq<SignalInstance>, name: Seq<char>) -> Option<int>
    decreases entries.len(),
{
    if entries.len() == 0 {
        Option::None
    } else if entries[0].name@ == name {
        Option::Some(0int)
    } else {
        match find_entry(entries.drop_first(), name) {
            Option::None => Option::None,
            Option::Some(i) => Option::Some(i + 1),
        }
    }
}

/// The merged entry list: each incoming signal replaces the entry
/// of its name, or opens a new one; distinct names keep the order
/// of their first occurrence.
pub open spec fn merged_list(s: Seq<SignalInstance>) -> Seq<SignalInstance>
    decreases s.len(),
{
    if s.len() == 0 {
        Seq::empty()
    } else {
        let prev = merged_list(s.drop_last());
        let x = s.last();
        match find_entry(prev, x.name@) {
            Option::Some(k) => prev.update(k, x),
            Option::None => prev.push(x),
        }
    }
}

proof fn lemma_find_entry_bounds(entries: Seq<SignalInstance>, name: Seq<char>)
    ensures
        match find_entry(entries, name) {
            Option::Some(k) => 0 <= k < entries.len() && entries[k].name@ == name && (forall|j: int|
                0 <= j < k ==> entries[j].name@ != name),
            Option::None => forall|j: int| 0 <= j < entries.len() ==> entries[j].name@ != name,
        },
    decreases entries.len(),
{
    if entries.len() > 0 && entries[0].name@ != name {
        lemma_find_entry_bounds(entries.drop_first(), name);
        match find_entry(entries.drop_first(), name) {
            Option::Some(k) => {
                assert forall|j: int| 0 <= j < k + 1 implies entries[j].name@ != name by {
                    if j > 0 {
                        assert(entries[j] == entries.drop_first()[j - 1]);
                    }
                }
            },
            Option::None => {
                assert forall|j: int| 0 <= j < entries.len() implies entries[j].name@ != name by {
                    if j > 0 {
                        assert(entries[j] == entries.drop_first()[j - 1]);
                    }
                }
            },
        }
    }
}

/// The merged list never holds two entries of one name.
pub open spec fn names_unique(entries: Seq<SignalInstance>) -> bool {
    forall|i: int, j: int|
        0 <= i < j < entries.len() ==> (#[trigger] entries[i].name@) != (
        #[trigger] entries[j].name@)
}

proof fn lemma_merged_list_unique(s: Seq<SignalInstance>)
    ensures
        names_unique(merged_list(s)),
    decreases s.len(),
{
    if s.len() > 0 {
        lemma_merged_list_unique(s.drop_last());
        let prev = merged_list(s.drop_last());
        let x = s.last();
        lemma_find_entry_bounds(prev, x.name@);
        match find_entry(prev, x.name@) {
            Option::Some(k) => {
                assert(names_unique(prev.update(k, x)));
            },
            Option::None => {
                assert(names_unique(prev.push(x)));
            },
        }
    }
}

proof fn lemma_merged_list_map(s: Seq<SignalInstance>)
    ensures
        merged_map(merged_list(s)) == merged_map(s),
    decreases s.len(),
{
    if s.len() > 0 {
        lemma_merged_list_map(s.drop_last());
        lemma_merged_list_unique(s.drop_last());
        let prev = merged_list(s.drop_last());
        let x = s.last();
        lemma_find_entry_bounds(prev, x.name@);
        match find_entry(prev, x.name@) {
            Option::Some(k) => {
                assert forall|j: int| k < j < prev.len() implies prev[j].name@ != x.name@ by {
                    assert(prev[k].name@ != prev[j].name@);
                }
                lemma_merged_update(prev, k, x);
                assert(merged_map(merged_list(s)) =~= merged_map(s));
            },
            Option::None => {
                assert(merged_list(s).drop_last() =~= prev);
                assert(merged_map(merged_list(s)) =~= merged_map(s));
            },
        }
    }
}

proof fn lemma_merged_update(entries: Seq<SignalInstance>, k: int, x: SignalInstance)
    requires
        0 <= k < entries.len(),
        entries[k].name@ == x.name@,
        forall|j: int| k < j < entries.len() ==> entries[j].name@ != x.name@,
    ensures
        merged_map(entries.update(k, x)) == merged_map(entries).insert(x.name@, x.value),
    decreases entries.len(),
{
    if k + 1 == entries.len() {
        assert(entries.update(k, x).drop_last() =~= entries.drop_last());
        assert(entries.update(k, x).last() == x);
        assert(merged_map(entries.update(k, x)) =~= merged_map(entries).insert(x.name@, x.value));
    } else {
        assert(entries.update(k, x).drop_last() =~= entries.drop_last().update(k, x));
        lemma_merged_update(entries.drop_last(), k, x);
        assert(entries.update(k, x).last() == entries.last());
        assert(merged_map(entries.update(k, x)) =~= merged_map(entries).insert(x.name@, x.value));
    }
}

/// The merged mapping holds exactly the names that occur in the
/// list.
pub proof fn lemma_merged_domain(s: Seq<SignalInstance>, name: Seq<char>)
    ensures
        merged_map(s).contains_key(name) <==> exists|i: int|
            0 <= i < s.len() && (#[trigger] s[i].name@) == name,
    decreases s.len(),
{
    if s.len() > 0 {
        lemma_merged_domain(s.drop_last(), name);
        if merged_map(s).contains_key(name) {
            if s.last().name@ == name {
                assert(s[s.len() - 1].name@ == name);
            } else {
                let i = choose|i: int|
                    0 <= i < s.drop_last().len() && (#[trigger] s.drop_last()[i].name@) == name;
                assert(s[i].name@ == name);
            }
        } else {
            assert forall|i: int| 0 <= i < s.len() implies (#[trigger] s[i].name@) != name by {
                if i < s.len() - 1 {
                    assert(s.drop_last()[i] == s[i]);
                }
            }
        }
    }
}

/// The law of the merge: for each name that occurs, the merged
/// mapping binds it to the payload of its last occurrence.
pub proof fn lemma_merge_last_wins(s: Seq<SignalInstance>, i: int)
    requires
        0 <= i < s.len(),
        forall|j: int| i < j < s.len() ==> (#[trigger] s[j].name@) != s[i].name@,
    ensures
        merged_map(s).contains_key(s[i].name@),
        merged_map(s)[s[i].name@] == s[i].value,
    decreases s.len(),
{
    if i + 1 < s.len() {
        assert(s.drop_last()[i] == s[i]);
        lemma_merge_last_wins(s.drop_last(), i);
    }
}

/// Merge an ordered list of signals into one mapping: exactly one
/// entry per distinct name, the value from the last occurrence of
/// that name, distinct names in first-occurrence order.
pub fn merge_signals(signals: Vec<SignalInstance>) -> (r: Vec<SignalInstance>)
    ensures
        r@ == merged_list(signals@),
        names_unique(r@),
        merged_map(r@) == merged_map(signals@),
{
    let mut signals = signals;
    let ghost whole = signals@;
    let mut out: Vec<SignalInstance> = Vec::new();
    let mut i: usize = 0;
    let total = signals.len();
    proof {
        assert(whole.len() == total);
        assert(whole.take(0int) =~= Seq::<SignalInstance>::empty());
        assert(whole.skip(0int) =~= whole);
    }
    while signals.len() > 0
        invariant
            i + signals@.len() == whole.len(),
            whole.len() <= usize::MAX,
            signals@ == whole.skip(i as int),
            out@ == merged_list(whole.take(i as int)),
        decreases signals@.len(),
    {
        let ghost before = signals@;
        let x = signals.remove(0);
        proof {
            assert(x == whole[i as int]);
            assert(signals@ =~= whole.skip((i + 1) as int));
            assert(whole.take((i + 1) as int).drop_last() =~= whole.take(i as int));
            assert(whole.take((i + 1) as int).last() == whole[i as int]);
        }
        let pos = find_position(&out, x.name.as_str());
        match pos {
            Option::Some(k) => {
                proof {
                    lemma_find_entry_bounds(out@, x.name@);
                }
                out.set(k, x);
            },
            Option::None => {
                out.push(x);
            },
        }
        i = i + 1;
    }
    proof {
        assert(whole.take(whole.len() as int) =~= whole);
        lemma_merged_list_unique(whole);
        lemma_merged_list_map(whole);
    }
    out
}

fn find_position(entries: &Vec<SignalInstance>, name: &str) -> (r: Option<usize>)
    ensures
        match r {
            Option::Some(k) => find_entry(entries@, name@) == Option::Some(k as int),
            Option::None => find_entry(entries@, name@) == Option::None::<int>,
        },
{
    let mut i: usize = 0;
    while i < entries.len()
        invariant
            i <= entries@.len(),
            forall|j: int| 0 <= j < i ==> (#[trigger] entries@[j].name@) != name@,
        decreases entries@.len() - i,
    {
        if crate::text::str_eq(entries[i].name.as_str(), name) {
            proof {
                lemma_find_entry_first(entries@, name@, i as int);
            }
            return Option::Some(i);
        }
        i = i + 1;
    }
    proof {
        lemma_find_entry_none(entries@, name@);
    }
    Option::None
}

proof fn lemma_find_entry_first(entries: Seq<SignalInstance>, name: Seq<char>, k: int)
    requires
        0 <= k < entries.len(),
        entries[k].name@ == name,
        forall|j: int| 0 <= j < k ==> (#[trigger] entries[j].name@) != name,
    ensures
        find_entry(entries, name) == Option::Some(k),
    decreases entries.len(),
{
    if k > 0 {
        assert forall|j: int|
            0 <= j < k - 1 implies (#[trigger] entries.drop_first()[j].name@) != name by {
            assert(entries.drop_first()[j] == entries[j + 1]);
        }
        lemma_find_entry_first(entries.drop_first(), name, k - 1);
    }
}

proof fn lemma_find_entry_none(entries: Seq<SignalInstance>, name: Seq<char>)
    requires
        forall|j: int| 0 <= j < entries.len() ==> (#[trigger] entries[j].name@) != name,
    ensures
        find_entry(entries, name) == Option::None::<int>,
    decreases entries.len(),
{
    if entries.len() > 0 {
        assert forall|j: int|
            0 <= j < entries.drop_first().len() implies (#[trigger] entries.drop_first()[j].name@)
            != name by {
            assert(entries.drop_first()[j] == entries[j + 1]);
        }
        lemma_find_entry_none(entries.drop_first(), name);
    }
}

/// The value of the last entry carrying the name, if any.
pub open spec fn last_value(
    entries: Seq<(String, serde_json::Value)>,
    name: Seq<char>,
) -> Option<serde_json::Value>
    decreases entries.len(),
{
    if entries.len() == 0 {
        Option::None
    } else if entries.last().0@ == name {
        Option::Some(entries.last().1)
    } else {
        last_value(entries.drop_last(), name)
    }
}

/// Look a signal's payload up in a decoded name-to-payload
/// mapping, by the selector's canonical name; with several entries
/// of one name the last wins, as it does when such a mapping is
/// decoded from a JSON object.
pub fn signals_from_map<'a>(
    signals: &'a Vec<(String, serde_json::Value)>,
    selector: &SignalSelector,
) -> (r: Option<&'a serde_json::Value>)
    ensures
        match r {
            Option::Some(v) => last_value(signals@, selector.name@) == Option::Some(*v),
            Option::None => last_value(signals@, selector.name@) == Option::None::<
                serde_json::Value,
            >,
        },
{
    let n = signals.len();
    let mut i: usize = n;
    proof {
        assert(signals@.take(n as int) =~= signals@);
    }
    while i > 0
        invariant
            i <= n,
            n == signals@.len(),
            last_value(signals@, selector.name@) == last_value(
                signals@.take(i as int),
                selector.name@,
            ),
        decreases i,
    {
        i = i - 1;
        proof {
            assert(signals@.take((i + 1) as int).drop_last() =~= signals@.take(i as int));
            assert(signals@.take((i + 1) as int).last() == signals@[i as int]);
        }
        if crate::text::str_eq(signals[i].0.as_str(), selector.name.as_str()) {
            return Option::Some(&signals[i].1);
        }
    }
    proof {
        assert(signals@.take(0int) =~= Seq::<(String, serde_json::Value)>::empty());
    }
    Option::None
}

} // verus!

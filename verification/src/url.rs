//! A thin per-resource URL helper: a pattern with named
//! placeholders, and concrete paths from segment values.

use vstd::prelude::*;

verus! {

/// A route: a fixed prefix and the named parameters that follow
/// it, one path segment each.
pub struct UrlPattern {
    pub prefix: String,
    pub params: Vec<String>,
}

pub open spec fn spec_pattern_tail(params: Seq<String>, i: int) -> Seq<char>
    decreases params.len() - i,
{
    if i < 0 || i >= params.len() {
        Seq::empty()
    } else {
        "/{"@ + params[i]@ + "}"@ + spec_pattern_tail(params, i + 1)
    }
}

pub open spec fn spec_path_tail(values: Seq<String>, i: int) -> Seq<char>
    decreases values.len() - i,
{
    if i < 0 || i >= values.len() {
        Seq::empty()
    } else {
        "/"@ + values[i]@ + spec_path_tail(values, i + 1)
    }
}

impl UrlPattern {
    pub fn new(prefix: String, params: Vec<String>) -> (r: UrlPattern)
        ensures
            r.prefix == prefix,
            r.params == params,
    {
        UrlPattern { prefix, params }
    }

    /// The route's pattern: the prefix, then `/{name}` per
    /// parameter.
    pub fn pattern(&self) -> (r: String)
        ensures
            r@ == self.prefix@ + spec_pattern_tail(self.params@, 0),
    {
        let tail = pattern_tail(&self.params, 0);
        let r = self.prefix.clone().concat(tail.as_str());
        r
    }

    /// A concrete path: the prefix, then `/value` per supplied
    /// segment value.
    pub fn path(&self, values: &Vec<String>) -> (r: String)
        ensures
            r@ == self.prefix@ + spec_path_tail(values@, 0),
    {
        let tail = path_tail(values, 0);
        let r = self.prefix.clone().concat(tail.as_str());
        r
    }
}

fn pattern_tail(params: &Vec<String>, i: usize) -> (r: String)
    requires
        i <= params@.len(),
    ensures
        r@ == spec_pattern_tail(params@, i as int),
    decreases params@.len() - i,
{
    if i >= params.len() {
        String::new()
    } else {
        let mut out = String::new();
        out.append("/{");
        out.append(params[i].as_str());
        out.append("}");
        let rest = pattern_tail(params, i + 1);
        let out = out.concat(rest.as_str());
        proof {
            assert(out@ =~= spec_pattern_tail(params@, i as int));
        }
        out
    }
}

fn path_tail(values: &Vec<String>, i: usize) -> (r: String)
    requires
        i <= values@.len(),
    ensures
        r@ == spec_path_tail(values@, i as int),
    decreases values@.len() - i,
{
    if i >= values.len() {
        String::new()
    } else {
        let mut out = String::new();
        out.append("/");
        out.append(values[i].as_str());
        let rest = path_tail(values, i + 1);
        let out = out.concat(rest.as_str());
        proof {
            assert(out@ =~= spec_path_tail(values@, i as int));
        }
        out
    }
}

} // verus!

//! Minimal HTML attribute/text escaping.
//!
//! Every value that the rendering engine did not itself author as a
//! literal is run through [`escape_attr_str`] exactly once; the spec
//! function [`escape_text`] is the single definition of what escaping
//! means, and the rendering contracts in the rest of the crate are
//! stated in terms of it.

use vstd::prelude::*;

verus! {

/// The escape sequence emitted for one character: `"` becomes
/// `&quot;`, `&` becomes `&amp;`, `<` becomes `&lt;`, `>` becomes
/// `&gt;`, and every other character stands unchanged.
pub open spec fn escape_char(c: char) -> Seq<char> {
    if c == '"' {
        seq!['&', 'q', 'u', 'o', 't', ';']
    } else if c == '&' {
        seq!['&', 'a', 'm', 'p', ';']
    } else if c == '<' {
        seq!['&', 'l', 't', ';']
    } else if c == '>' {
        seq!['&', 'g', 't', ';']
    } else {
        seq![c]
    }
}

/// HTML-escaping of a whole text: each character replaced by its
/// escape sequence.
pub open spec fn escape_text(s: Seq<char>) -> Seq<char>
    decreases s.len(),
{
    if s.len() == 0 {
        Seq::empty()
    } else {
        escape_char(s[0]) + escape_text(s.drop_first())
    }
}

pub proof fn lemma_escape_text_push(s: Seq<char>, c: char)
    ensures
        escape_text(s.push(c)) == escape_text(s) + escape_char(c),
    decreases s.len(),
{
    if s.len() == 0 {
        assert(s.push(c)[0] == c);
        assert(s.push(c).drop_first() =~= Seq::<char>::empty());
        assert(escape_text(s.push(c)) =~= escape_char(c) + escape_text(Seq::<char>::empty()));
        assert(escape_char(c) + Seq::<char>::empty() =~= escape_char(c));
        assert(escape_text(s) + escape_char(c) =~= escape_char(c));
    } else {
        assert(s.push(c).drop_first() =~= s.drop_first().push(c));
        lemma_escape_text_push(s.drop_first(), c);
        assert(escape_text(s.push(c)) =~= escape_text(s) + escape_char(c));
    }
}

/// A value held for attribute emission: its text is escaped on the
/// way out, exactly once.
pub struct EscapedAttr(pub crate::value::Scalar);

impl EscapedAttr {
    /// The escaped text of the held value.
    pub fn text(&self) -> (r: String)
        requires
            self.0.wf(),
        ensures
            r@ == escape_text(crate::value::spec_scalar_text(self.0)),
    {
        let raw = crate::value::scalar_to_text(&self.0);
        escape_attr_str(raw.as_str())
    }
}

/// Wrap a value for escaped attribute emission.
pub fn escape_attr(value: crate::value::Scalar) -> (r: EscapedAttr)
    ensures
        r.0 == value,
{
    EscapedAttr(value)
}

/// Escape a text for use inside a double-quoted attribute value (or
/// anywhere the markup alphabet must be kept clean).
pub fn escape_attr_str(value: &str) -> (r: String)
    ensures
        r@ == escape_text(value@),
{
    let n = value.unicode_len();
    let mut out = String::new();
    let mut i: usize = 0;
    while i < n
        invariant
            i <= n,
            n == value@.len(),
            out@ == escape_text(value@.take(i as int)),
        decreases n - i,
    {
        let c = value.get_char(i);
        proof {
            lemma_escape_text_push(value@.take(i as int), c);
            assert(value@.take(i + 1 as int) =~= value@.take(i as int).push(c));
        }
        if c == '"' {
            out.append("&quot;");
            proof {
                reveal_strlit("&quot;");
                assert("&quot;"@ =~= escape_char(c));
            }
        } else if c == '&' {
            out.append("&amp;");
            proof {
                reveal_strlit("&amp;");
                assert("&amp;"@ =~= escape_char(c));
            }
        } else if c == '<' {
            out.append("&lt;");
            proof {
                reveal_strlit("&lt;");
                assert("&lt;"@ =~= escape_char(c));
            }
        } else if c == '>' {
            out.append("&gt;");
            proof {
                reveal_strlit("&gt;");
                assert("&gt;"@ =~= escape_char(c));
            }
        } else {
            crate::text::push_char(&mut out, c);
            proof {
                assert(escape_char(c) =~= seq![c]);
            }
        }
        i = i + 1;
    }
    proof {
        assert(value@.take(n as int) =~= value@);
    }
    out
}

} // verus!

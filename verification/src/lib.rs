//! A verified HTML templating core: an interpolation lexer, an
//! attribute-list parser, a specification model, and a rendering
//! engine that turns typed data plus a declarative element
//! specification into escaped markup text; with signals, patch
//! event framing, and a URL-pattern helper around it.

use vstd::prelude::*;

pub mod attributes;
pub mod attrparse;
pub mod datastar;
pub mod extractor;
pub mod fmtstr;
pub mod html;
pub mod interp;
pub mod laws;
pub mod render;
pub mod signal;
pub mod text;
pub mod url;
pub mod value;

verus! {

/// Anything with a compiled rendering procedure: a capability, not
/// a hierarchy. The procedure's exact output is its `render_spec`.
pub trait Render {
    spec fn render_spec(&self) -> Seq<char>;

    fn render(&self) -> (r: String)
        ensures
            r@ == self.render_spec(),
    ;
}

impl Render for String {
    open spec fn render_spec(&self) -> Seq<char> {
        self@
    }

    fn render(&self) -> (r: String)
        ensures
            r@ == self.render_spec(),
    {
        self.clone()
    }
}

pub open spec fn spec_render_all<T: Render>(items: Seq<T>, i: int) -> Seq<char>
    decreases items.len() - i,
{
    if i < 0 || i >= items.len() {
        Seq::empty()
    } else {
        items[i].render_spec() + spec_render_all(items, i + 1)
    }
}

fn render_all<T: Render>(items: &Vec<T>, i: usize) -> (r: String)
    requires
        i <= items@.len(),
    ensures
        r@ == spec_render_all(items@, i as int),
    decreases items@.len() - i,
{
    if i >= items.len() {
        String::new()
    } else {
        let first = items[i].render();
        let rest = render_all(items, i + 1);
        let out = first.concat(rest.as_str());
        out
    }
}

/// A stylesheet link: `<link rel="stylesheet" [id="…"] href="…"/>`
/// — a void element, always self-closed.
pub struct Link {
    pub id: Option<String>,
    pub href: String,
}

impl Render for Link {
    open spec fn render_spec(&self) -> Seq<char> {
        "<link rel=\"stylesheet\""@ + (match self.id {
            Option::Some(id) => " id=\""@ + crate::html::escape_text(id@) + "\""@,
            Option::None => Seq::empty(),
        }) + " href=\""@ + crate::html::escape_text(self.href@) + "\"/>"@
    }

    fn render(&self) -> (r: String)
        ensures
            r@ == self.render_spec(),
    {
        let mut out = String::new();
        out.append("<link rel=\"stylesheet\"");
        match &self.id {
            Option::Some(id) => {
                out.append(" id=\"");
                let escaped = crate::html::escape_attr_str(id.as_str());
                out.append(escaped.as_str());
                out.append("\"");
            },
            Option::None => {},
        }
        out.append(" href=\"");
        let escaped = crate::html::escape_attr_str(self.href.as_str());
        out.append(escaped.as_str());
        out.append("\"/>");
        proof {
            assert(out@ =~= self.render_spec());
        }
        out
    }
}

/// A script element: `<script src="…" [async] type="…"></script>`.
pub struct Script {
    pub src: String,
    pub async_: bool,
    pub type_: String,
}

impl Render for Script {
    open spec fn render_spec(&self) -> Seq<char> {
        "<script src=\""@ + crate::html::escape_text(self.src@) + "\""@ + (if self.async_ {
            " async"@
        } else {
            Seq::empty()
        }) + " type=\""@ + crate::html::escape_text(self.type_@) + "\"></script>"@
    }

    fn render(&self) -> (r: String)
        ensures
            r@ == self.render_spec(),
    {
        let mut out = String::new();
        out.append("<script src=\"");
        let escaped = crate::html::escape_attr_str(self.src.as_str());
        out.append(escaped.as_str());
        out.append("\"");
        if self.async_ {
            out.append(" async");
        }
        out.append(" type=\"");
        let escaped = crate::html::escape_attr_str(self.type_.as_str());
        out.append(escaped.as_str());
        out.append("\"></script>");
        proof {
            assert(out@ =~= self.render_spec());
        }
        out
    }
}

/// The head of a document: its links, then its scripts.
pub struct Head {
    pub link: Vec<Link>,
    pub script: Vec<Script>,
}

impl Render for Head {
    open spec fn render_spec(&self) -> Seq<char> {
        "<head>"@ + spec_render_all(self.link@, 0) + spec_render_all(self.script@, 0) + "</head>"@
    }

    fn render(&self) -> (r: String)
        ensures
            r@ == self.render_spec(),
    {
        let mut out = String::new();
        out.append("<head>");
        let links = render_all(&self.link, 0);
        out.append(links.as_str());
        let scripts = render_all(&self.script, 0);
        out.append(scripts.as_str());
        out.append("</head>");
        proof {
            assert(out@ =~= self.render_spec());
        }
        out
    }
}

/// The body of a document: a class and rendered children.
pub struct Body<T: Render> {
    pub class: String,
    pub children: Vec<T>,
}

impl<T: Render> Render for Body<T> {
    open spec fn render_spec(&self) -> Seq<char> {
        "<body class=\""@ + crate::html::escape_text(self.class@) + "\">"@ + spec_render_all(
            self.children@,
            0,
        ) + "</body>"@
    }

    fn render(&self) -> (r: String)
        ensures
            r@ == self.render_spec(),
    {
        let mut out = String::new();
        out.append("<body class=\"");
        let escaped = crate::html::escape_attr_str(self.class.as_str());
        out.append(escaped.as_str());
        out.append("\">");
        let children = render_all(&self.children, 0);
        out.append(children.as_str());
        out.append("</body>");
        proof {
            assert(out@ =~= self.render_spec());
        }
        out
    }
}

/// The root element: language, head and body.
pub struct Html<T: Render> {
    pub lang: String,
    pub head: Head,
    pub body: Body<T>,
}

impl<T: Render> Render for Html<T> {
    open spec fn render_spec(&self) -> Seq<char> {
        "<html lang=\""@ + crate::html::escape_text(self.lang@) + "\">"@ + self.head.render_spec()
            + self.body.render_spec() + "</html>"@
    }

    fn render(&self) -> (r: String)
        ensures
            r@ == self.render_spec(),
    {
        let mut out = String::new();
        out.append("<html lang=\"");
        let escaped = crate::html::escape_attr_str(self.lang.as_str());
        out.append(escaped.as_str());
        out.append("\">");
        let head = self.head.render();
        out.append(head.as_str());
        let body = self.body.render();
        out.append(body.as_str());
        out.append("</html>");
        proof {
            assert(out@ =~= self.render_spec());
        }
        out
    }
}

/// A whole document: the doctype preamble, then the root element —
/// a fragment with no wrapper of its own.
pub struct Document<T: Render> {
    pub doctype: String,
    pub html: Html<T>,
}

impl<T: Render> Document<T> {
    pub fn new(html: Html<T>) -> (r: Document<T>)
        ensures
            r.doctype@ == "<!doctype html>"@,
            r.html == html,
    {
        Document { doctype: "<!doctype html>".to_owned(), html }
    }
}

impl<T: Render> Render for Document<T> {
    open spec fn render_spec(&self) -> Seq<char> {
        self.doctype@ + self.html.render_spec()
    }

    fn render(&self) -> (r: String)
        ensures
            r@ == self.render_spec(),
    {
        let out = self.doctype.clone();
        let html = self.html.render();
        let out = out.concat(html.as_str());
        out
    }
}

} // verus!

use bluth::html::{escape_attr, escape_attr_str};
use bluth::value::Scalar;

#[test]
fn escape_double_quotes() {
    let input = r#"hello "world""#;
    let escaped = escape_attr_str(input);
    assert_eq!(escaped, "hello &quot;world&quot;");
}

#[test]
fn escape_ampersand() {
    let input = "foo & bar";
    let escaped = escape_attr_str(input);
    assert_eq!(escaped, "foo &amp; bar");
}

#[test]
fn escape_angle_brackets() {
    let input = "<script>alert('xss')</script>";
    let escaped = escape_attr_str(input);
    assert_eq!(escaped, "&lt;script&gt;alert('xss')&lt;/script&gt;");
}

#[test]
fn escape_mixed() {
    let input = r#"x = "a < b && c > d""#;
    let escaped = escape_attr_str(input);
    assert_eq!(escaped, "x = &quot;a &lt; b &amp;&amp; c &gt; d&quot;");
}

#[test]
fn no_escape_needed() {
    let input = "hello world 123";
    let escaped = escape_attr_str(input);
    assert_eq!(escaped, "hello world 123");
}

#[test]
fn escaped_attr_display() {
    let value = r#"say "hi""#;
    let escaped = escape_attr(Scalar::Str(value.to_string())).text();
    assert_eq!(escaped, "say &quot;hi&quot;");
}

#[test]
fn escaped_attr_with_number() {
    let value = 42;
    let escaped = escape_attr(Scalar::Uint(value)).text();
    assert_eq!(escaped, "42");
}

#[test]
fn escaping_is_not_idempotent() {
    // A second pass over already-escaped text double-escapes it, so
    // the renderer must apply the escape exactly once.
    assert_eq!(escape_attr_str("&quot;"), "&amp;quot;");
    assert_eq!(escape_attr_str(&escape_attr_str(r#"""#)), "&amp;quot;");
}

use template_ir::v_str::{StrOps, VStr};

#[test]
fn handler_key_after_camel_case() {
    let mut v = VStr::raw("click");
    v.be_handler().camelize();
    assert_eq!(v.into_string(), "onClick");
    let mut w = VStr::raw("update-value");
    w.camelize().be_handler();
    assert_eq!(w.into_string(), "onUpdateValue");
}

#[test]
fn decode_twice_same_as_once() {
    let mut once = VStr::raw("a &lt; b");
    once.decode(false);
    let mut twice = VStr::raw("a &lt; b");
    twice.decode(false).decode(false);
    assert!(once == twice);
    assert_eq!(once.into_string(), twice.into_string());
    assert_eq!(once.into_string(), "a < b");
    let mut attr = VStr::raw("x");
    attr.decode(true);
    assert!(attr.ops.contains(StrOps::IS_ATTR));
    assert!(attr.ops.contains(StrOps::DECODE_ENTITY));
}

#[test]
fn raw_has_no_ops() {
    let v = VStr::raw("hello  world");
    assert!(v.ops == StrOps::empty());
    assert_eq!(v.into_string(), "hello  world");
}

#[test]
fn decode_references() {
    let mut v = VStr::raw("&lt;div class=&quot;x&quot;&gt; &amp;amp; &#39;q&#39; &nbsp;");
    v.decode(false);
    assert_eq!(v.into_string(), "<div class=\"x\"> &amp; 'q' &nbsp;");
}

#[test]
fn compress_whitespace_runs() {
    let mut v = VStr::raw("  a \t\n b  c ");
    v.compress_whitespace();
    assert_eq!(v.into_string(), " a b c ");
}

#[test]
fn camel_and_pascal_case() {
    let mut v = VStr::raw("foo-bar-baz");
    v.camelize();
    assert_eq!(v.into_string(), "fooBarBaz");
    let mut p = VStr::raw("foo-bar");
    p.capitalize();
    assert_eq!(p.into_string(), "FooBar");
    let mut d = VStr::raw("a--b-");
    d.camelize();
    assert_eq!(d.into_string(), "a-B-");
}

#[test]
fn asset_and_self_suffix() {
    let mut v = VStr::raw("my-comp.x");
    v.be_asset();
    assert_eq!(v.into_string(), "my_comp_x");
    let mut s = VStr::raw("Foo");
    s.suffix_self();
    assert_eq!(s.into_string(), "Foo__self");
    let mut both = VStr::raw("my-comp");
    both.suffix_self().be_asset();
    assert_eq!(both.into_string(), "my_comp__self");
}

#[test]
fn handler_detection() {
    assert!(VStr::is_handler(&VStr::raw("onClick")));
    assert!(VStr::is_handler(&VStr::raw("on-click")));
    assert!(!VStr::is_handler(&VStr::raw("once")));
    assert!(!VStr::is_handler(&VStr::raw("on")));
    let mut v = VStr::raw("click");
    assert!(!VStr::is_handler(&v));
    v.be_handler();
    assert!(VStr::is_handler(&v));
}

#[test]
fn empty_handler_key_stays_empty() {
    let mut v = VStr::raw("");
    v.be_handler();
    assert_eq!(v.into_string(), "");
}

#[test]
fn satisfied_and_write_ops() {
    let mut ops = StrOps::empty();
    ops.insert(StrOps::CAMEL_CASE);
    assert!(ops.is_satisfied_by("fooBar"));
    assert!(!ops.is_satisfied_by("foo-bar"));
    let mut out = String::from("x:");
    ops.write_ops("a-b", &mut out);
    assert_eq!(out, "x:aB");
}

#[test]
fn decode_numeric_references() {
    let mut v = VStr::raw("&#60;b&#x3E; &#X41;&#x1F600; &#0; &#1114112; &#xD800; &#0000065; &#; &#x; &#65");
    v.decode(true);
    assert_eq!(
        v.into_string(),
        "<b> A\u{1F600} &#0; &#1114112; &#xD800; &#0000065; &#; &#x; &#65"
    );
}

use template_ir::emit::{preamble, hoisted_preamble, CompileError, EmitError, ErrorKind, ErrorSink};
use template_ir::flags::{HelperCollector, RuntimeHelper};

fn rh(id: u8) -> RuntimeHelper {
    RuntimeHelper::new(id)
}

fn ids(c: &HelperCollector) -> Vec<u8> {
    c.helpers().iter().map(|h| h.id()).collect()
}

#[test]
fn builtin_helper_names() {
    assert_eq!(rh(RuntimeHelper::FRAGMENT).helper_str(&[]), "Fragment");
    assert_eq!(rh(RuntimeHelper::CREATE_ELEMENT_VNODE).helper_str(&[]), "createElementVNode");
    assert_eq!(rh(RuntimeHelper::TO_DISPLAY_STRING).helper_str(&[]), "toDisplayString");
    assert_eq!(rh(RuntimeHelper::IS_MEMO_SAME).helper_str(&[]), "isMemoSame");
    assert_eq!(rh(RuntimeHelper::CREATE_COMMENT).helper_str(&[]), "createCommentVNode");
}

#[test]
fn custom_helper_names_come_from_the_table() {
    let map = ["ssrRender", "ssrInterpolate"];
    assert_eq!(rh(40).helper_str(&map), "ssrRender");
    assert_eq!(rh(41).helper_str(&map), "ssrInterpolate");
}

#[test]
fn new_collector_is_empty() {
    let c = HelperCollector::new();
    assert!(c.is_empty());
    assert!(!c.contains(rh(0)));
    assert!(c.helpers().is_empty());
}

#[test]
fn collect_and_contains() {
    let mut c = HelperCollector::new();
    c.collect(rh(RuntimeHelper::CREATE_VNODE));
    assert!(!c.is_empty());
    assert!(c.contains(rh(RuntimeHelper::CREATE_VNODE)));
    assert!(!c.contains(rh(RuntimeHelper::CREATE_TEXT)));
    c.collect(rh(63));
    assert!(c.contains(rh(63)));
}

#[test]
fn collecting_twice_equals_collecting_once() {
    let mut once = HelperCollector::new();
    once.collect(rh(7));
    once.collect(rh(22));
    let mut twice = HelperCollector::new();
    twice.collect(rh(7));
    twice.collect(rh(22));
    twice.collect(rh(22));
    assert!(once == twice);
    assert_eq!(ids(&once), ids(&twice));
    assert_eq!(once.contains(rh(22)), twice.contains(rh(22)));
}

#[test]
fn iteration_is_ascending() {
    let mut c = HelperCollector::new();
    c.collect(rh(36));
    c.collect(rh(5));
    c.collect(rh(8));
    assert_eq!(ids(&c), vec![5, 8, 36]);
    let mut it = c.into_iter();
    assert_eq!(it.next().map(|h| h.id()), Some(5));
    assert_eq!(it.next().map(|h| h.id()), Some(8));
    assert_eq!(it.next().map(|h| h.id()), Some(36));
    assert_eq!(it.next(), None);
}

#[test]
fn hoist_subset_keeps_only_hoistable_members() {
    let mut c = HelperCollector::new();
    c.collect(rh(RuntimeHelper::CREATE_VNODE));
    c.collect(rh(RuntimeHelper::CREATE_STATIC));
    c.collect(rh(RuntimeHelper::OPEN_BLOCK));
    c.collect(rh(RuntimeHelper::TO_DISPLAY_STRING));
    let h = c.hoist_helpers();
    assert_eq!(ids(&h), vec![8, 13]);
    for id in ids(&h) {
        assert!(c.contains(rh(id)));
    }
    assert!(HelperCollector::new().hoist_helpers().is_empty());
}

#[test]
fn ignore_missing_lists_nothing() {
    let mut c = HelperCollector::new();
    c.collect(rh(3));
    c.ignore_missing();
    assert!(c.ignores_missing());
    assert!(c.is_empty());
    assert!(c.contains(rh(50)));
    assert!(c.helpers().is_empty());
    assert_eq!(c.into_iter().next(), None);
}

#[test]
fn helper_names_in_order() {
    let mut c = HelperCollector::new();
    c.collect(rh(40));
    c.collect(rh(RuntimeHelper::TO_DISPLAY_STRING));
    c.collect(rh(RuntimeHelper::OPEN_BLOCK));
    assert_eq!(c.helper_names(&["custom"]), Ok(vec!["openBlock", "toDisplayString", "custom"]));
}

#[test]
fn helper_names_missing_custom_entry() {
    let mut c = HelperCollector::new();
    c.collect(rh(RuntimeHelper::OPEN_BLOCK));
    c.collect(rh(42));
    assert_eq!(c.helper_names(&["a", "b"]), Err(rh(42)));
}

#[test]
fn preamble_refuses_after_errors() {
    let mut sink = ErrorSink::new();
    let mut c = HelperCollector::new();
    c.collect(rh(RuntimeHelper::CREATE_VNODE));
    assert_eq!(preamble(&sink, &c, &[]), Ok(vec!["createVNode"]));
    sink.report(CompileError { kind: ErrorKind::Transform, start: 0, end: 4 });
    sink.report(CompileError { kind: ErrorKind::Conversion, start: 5, end: 9 });
    assert!(sink.has_errors());
    assert_eq!(sink.len(), 2);
    assert_eq!(preamble(&sink, &c, &[]), Err(EmitError::ErrorsRecorded));
}

#[test]
fn preamble_reports_missing_helper() {
    let sink = ErrorSink::new();
    let mut c = HelperCollector::new();
    c.collect(rh(45));
    assert_eq!(preamble(&sink, &c, &["x"]), Err(EmitError::MissingHelper(rh(45))));
}

#[test]
fn hoisted_preamble_uses_the_hoist_subset() {
    let sink = ErrorSink::new();
    let mut c = HelperCollector::new();
    c.collect(rh(RuntimeHelper::OPEN_BLOCK));
    c.collect(rh(RuntimeHelper::CREATE_ELEMENT_VNODE));
    c.collect(rh(RuntimeHelper::CREATE_TEXT));
    c.collect(rh(50));
    assert_eq!(hoisted_preamble(&sink, &c, &[]), Ok(vec!["createElementVNode", "createTextVNode"]));
}

#[test]
fn size_hint_counts_remaining() {
    let mut c = HelperCollector::new();
    c.collect(rh(1));
    c.collect(rh(9));
    c.collect(rh(60));
    let mut it = c.into_iter();
    assert_eq!(it.size_hint(), (3, Some(3)));
    it.next();
    assert_eq!(it.size_hint(), (2, Some(2)));
    let mut p = HelperCollector::new();
    p.ignore_missing();
    assert_eq!(p.into_iter().size_hint(), (0, Some(0)));
}

#[test]
fn default_collector_is_new() {
    let d = HelperCollector::default();
    assert!(d == HelperCollector::new());
    assert!(d.is_empty());
}

#[test]
fn full_collector_is_not_empty_and_lists_all() {
    let mut c = HelperCollector::new();
    for id in 0..64u8 {
        c.collect(rh(id));
        assert!(!c.is_empty());
    }
    assert!(!c.ignores_missing());
    assert_eq!(ids(&c), (0..64u8).collect::<Vec<u8>>());
    assert_eq!(c.into_iter().next().map(|h| h.id()), Some(0));
    assert_eq!(c.into_iter().size_hint(), (64, Some(64)));
}

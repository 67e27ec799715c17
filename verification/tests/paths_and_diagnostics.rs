use tf_provider::attribute_path::{AttributePath, AttributePathStep};
use tf_provider::diagnostics::{Diagnostic, Diagnostics};
use tf_provider::protocol::{diagnostics_to_proto, path_to_proto, Selector, Severity};

/// The detail of a diagnostic, once any captured backtrace is left aside
fn detail_is(d: &Diagnostic, expected: &str) -> bool {
    d.detail == expected || d.detail.starts_with(&format!("{expected}\n"))
}

#[test]
fn path_text_joins_attributes_keys_and_indices() {
    let path = AttributePath::new("a").attribute("b").key("c").index(3);
    assert_eq!(path.to_string(), "a.b[\"c\"][3]");
    assert_eq!(AttributePath::new("x").to_string(), "x");
    assert_eq!(AttributePath::default().to_string(), "");
    assert_eq!(AttributePath::function_argument(2).to_string(), "[2]");
    assert_eq!(AttributePath::new("m").index(-1).to_string(), "m[-1]");
}

#[test]
fn path_keys_are_quoted() {
    let path = AttributePath::new("m").key("a\"b");
    assert_eq!(path.to_string(), "m[\"a\\\"b\"]");
}

#[test]
fn path_building_in_place_matches_building_by_value() {
    let mut p = AttributePath::new("root");
    p.add_attribute("x");
    p.add_key("k");
    p.add_index(0);
    let q = AttributePath::new("root").attribute("x").key("k").index(0);
    assert_eq!(p.to_string(), q.to_string());
    let mut r = AttributePath::new("root");
    r.add_steps(AttributePath::new("x").key("k").index(0));
    assert_eq!(r.to_string(), q.to_string());
    let s = AttributePath::new("root").with_step(AttributePathStep::Attribute("x".to_string()));
    assert_eq!(s.to_string(), "root.x");
}

#[test]
fn step_then_step_is_a_path_of_two_steps() {
    let p = AttributePathStep::Attribute("a".to_string()).then(AttributePathStep::Index(1));
    assert_eq!(p.to_string(), "a[1]");
    assert_eq!(AttributePathStep::Key("k".to_string()).to_string(), "[\"k\"]");
}

#[test]
fn diagnostics_keep_errors_and_warnings_apart() {
    let mut diags = Diagnostics::default();
    diags.error("e1", "d1", AttributePath::new("a"));
    diags.root_warning("w1", "d2");
    diags.root_error_short("e2");
    diags.warning_short("w2", AttributePath::new("b"));
    assert_eq!(diags.errors.len(), 2);
    assert_eq!(diags.warnings.len(), 2);
    assert_eq!(diags.errors[0].summary, "e1");
    assert!(detail_is(&diags.errors[0], "d1"));
    assert_eq!(diags.errors[0].attribute.to_string(), "a");
    assert_eq!(diags.errors[1].summary, "e2");
    assert!(detail_is(&diags.errors[1], ""));
    assert_eq!(diags.warnings[0].summary, "w1");
    assert_eq!(diags.warnings[1].attribute.to_string(), "b");
}

#[test]
fn internal_error_is_added_once() {
    let mut diags = Diagnostics::default();
    diags.internal_error();
    assert_eq!(diags.errors.len(), 1);
    assert_eq!(diags.errors[0].summary, "Internal error");
    diags.internal_error();
    assert_eq!(diags.errors.len(), 1);
    let mut other = Diagnostics::default();
    other.root_error("first", "");
    other.internal_error();
    assert_eq!(other.errors.len(), 1);
    assert_eq!(other.errors[0].summary, "first");
}

#[test]
fn function_error_points_at_the_argument() {
    let mut diags = Diagnostics::default();
    diags.function_error(1, "bad argument");
    assert_eq!(diags.errors[0].summary, "bad argument");
    assert_eq!(diags.errors[0].attribute.to_string(), "[1]");
}

#[test]
fn added_diagnostics_come_after() {
    let mut a = Diagnostics::default();
    a.root_error_short("a");
    let mut b = Diagnostics::default();
    b.root_error_short("b");
    b.root_warning_short("w");
    a.add_diagnostics(b);
    assert_eq!(a.errors.len(), 2);
    assert_eq!(a.errors[1].summary, "b");
    assert_eq!(a.warnings.len(), 1);
}

#[test]
fn backtrace_is_appended_to_the_detail() {
    let d = Diagnostic::with_backtrace("s", "d", AttributePath::default(), Some("trace".to_string()));
    assert_eq!(d.detail, "d\ntrace");
    let e = Diagnostic::with_backtrace("s", "", AttributePath::default(), Some("trace".to_string()));
    assert_eq!(e.detail, "trace");
    let f = Diagnostic::with_backtrace("s", "d", AttributePath::default(), None);
    assert_eq!(f.detail, "d");
}

#[test]
fn protocol_diagnostics_list_errors_then_warnings() {
    let mut diags = Diagnostics::default();
    diags.root_warning_short("w");
    diags.error_short("e", AttributePath::new("a").key("k"));
    let proto = diagnostics_to_proto(diags);
    assert_eq!(proto.len(), 2);
    assert!(matches!(proto[0].severity, Severity::Error));
    assert_eq!(proto[0].summary, "e");
    assert!(matches!(proto[1].severity, Severity::Warning));
    assert_eq!(proto[1].summary, "w");
}

#[test]
fn protocol_paths_keep_the_steps() {
    let p = path_to_proto(AttributePath::new("a").key("k").index(4));
    assert_eq!(p.steps.len(), 3);
    assert!(matches!(&p.steps[0].selector, Some(Selector::AttributeName(n)) if n == "a"));
    assert!(matches!(&p.steps[1].selector, Some(Selector::ElementKeyString(k)) if k == "k"));
    assert!(matches!(&p.steps[2].selector, Some(Selector::ElementKeyInt(4))));
}

#[test]
fn path_additions_chain() {
    let mut p = AttributePath::new("root");
    p.add_attribute("x").add_key("k").add_index(0);
    assert_eq!(p.to_string(), "root.x[\"k\"][0]");
    let mut q = AttributePath::new("a");
    q.add_steps(AttributePath::new("b")).add_step(AttributePathStep::Index(1));
    assert_eq!(q.to_string(), "a.b[1]");
}

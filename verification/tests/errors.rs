use yang_schema::errors::{ErrorContext, Severity};
use yang_schema::Span;

#[test]
fn test_accumulation_and_counts() {
    let mut ctx = ErrorContext::new();
    assert_eq!(ctx.len(), 0);
    ctx.add_error(Span { start: 10, end: 12 }, "first".to_string());
    ctx.add_warning(Span { start: 2, end: 4 }, "second".to_string());
    ctx.add_error(Span { start: 5, end: 7 }, "third".to_string());
    assert_eq!(ctx.len(), 3);
    assert_eq!(ctx.error_count(), 2);
    assert_eq!(ctx.warning_count(), 1);
    // append-only: earlier entries stay in place
    assert_eq!(ctx.get(0).message, "first");
    assert_eq!(ctx.get(0).severity, Severity::Error);
    assert_eq!(ctx.get(1).severity, Severity::Warning);
}

#[test]
fn test_sort_by_span_start() {
    let mut ctx = ErrorContext::new();
    ctx.add_error(Span { start: 30, end: 31 }, "c".to_string());
    ctx.add_error(Span { start: 10, end: 11 }, "a".to_string());
    ctx.add_warning(Span { start: 20, end: 21 }, "b".to_string());
    ctx.sort_errors();
    assert_eq!(ctx.len(), 3);
    assert_eq!(ctx.get(0).message, "a");
    assert_eq!(ctx.get(1).message, "b");
    assert_eq!(ctx.get(2).message, "c");
    let mut prev = 0;
    for i in 0..ctx.len() {
        assert!(ctx.get(i).span.start >= prev);
        prev = ctx.get(i).span.start;
    }
}

#[test]
fn test_render_against_source() {
    let source = "leaf host-name { type string; }";
    let mut ctx = ErrorContext::new();
    ctx.add_error(Span { start: 5, end: 14 }, "just checking".to_string());
    let rendered = ctx.render(source);
    assert_eq!(rendered.len(), 1);
    assert!(rendered[0].contains("just checking"));
    assert!(rendered[0].contains("host-name"));
}

// Diagnostics with equal span starts keep their original order.
#[test]
fn test_sort_is_stable() {
    let mut ctx = ErrorContext::new();
    ctx.add_error(Span { start: 9, end: 10 }, "later".to_string());
    ctx.add_error(Span { start: 4, end: 5 }, "first at four".to_string());
    ctx.add_warning(Span { start: 4, end: 6 }, "second at four".to_string());
    ctx.sort_errors();
    assert_eq!(ctx.get(0).message, "first at four");
    assert_eq!(ctx.get(1).message, "second at four");
    assert_eq!(ctx.get(2).message, "later");
}

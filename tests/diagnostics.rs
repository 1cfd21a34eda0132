use tinymist::diagnostics::{Diagnostic, CompileClusterActor, FileDiagnostics};
use tinymist::text::{Position, Range};

fn diag(line: u32, message: &str) -> Diagnostic {
    Diagnostic {
        range: Range {
            start: Position { line, character: 0 },
            end: Position { line, character: 1 },
        },
        severity: None,
        message: message.to_string(),
        extra: format!("{{\"source\":\"s{line}\"}}"),
    }
}

fn report(uri: &str, diags: Vec<Diagnostic>) -> FileDiagnostics {
    FileDiagnostics { uri: uri.to_string(), diagnostics: diags }
}

fn messages(p: &FileDiagnostics) -> Vec<String> {
    p.diagnostics.iter().map(|d| d.message.clone()).collect()
}

fn summary(out: &[FileDiagnostics]) -> Vec<(String, Vec<String>)> {
    out.iter().map(|p| (p.uri.clone(), messages(p))).collect()
}

#[test]
fn primary_alone_is_published() {
    let mut agg = CompileClusterActor::new();
    let out = agg.publish("primary".to_string(), Some(vec![report("A", vec![diag(0, "d1")])]));
    // The primary group is sole from the start: sent once, unsuppressed.
    assert_eq!(summary(&out), vec![("A".to_string(), vec!["d1".to_string()])]);
    let out = agg.publish("primary".to_string(), Some(vec![report("A", vec![diag(1, "d3")])]));
    assert_eq!(summary(&out), vec![("A".to_string(), vec!["d3".to_string()])]);
}

#[test]
fn dedicated_group_suppresses_primary() {
    let mut agg = CompileClusterActor::new();
    agg.publish("primary".to_string(), Some(vec![report("A", vec![diag(0, "d1")])]));
    let out = agg.publish("task1".to_string(), Some(vec![report("A", vec![diag(0, "d2")])]));
    // task1's own publish, then the retroactive republish of A without d1.
    assert_eq!(
        summary(&out),
        vec![
            ("A".to_string(), vec!["d2".to_string()]),
            ("A".to_string(), vec!["d2".to_string()]),
        ]
    );
    // The next primary event for A is not sent.
    let out = agg.publish("primary".to_string(), Some(vec![report("A", vec![diag(2, "d1b")])]));
    assert!(out.is_empty());
    // Primary diagnostics elsewhere are withheld too.
    let out = agg.publish(
        "primary".to_string(),
        Some(vec![report("A", vec![diag(2, "d1b")]), report("B", vec![diag(0, "b1")])]),
    );
    assert!(out.is_empty());
}

#[test]
fn primary_comes_back_when_task_withdraws() {
    let mut agg = CompileClusterActor::new();
    agg.publish("primary".to_string(), Some(vec![report("A", vec![diag(0, "d1")])]));
    agg.publish("task1".to_string(), Some(vec![report("A", vec![diag(0, "d2")])]));
    let out = agg.publish("task1".to_string(), None);
    // A loses d2 (primary's d1 is still withheld while task1 counted), then
    // the primary group is sole again and A is republished with d1.
    assert_eq!(
        summary(&out),
        vec![
            ("A".to_string(), vec![]),
            ("A".to_string(), vec!["d1".to_string()]),
        ]
    );
}

#[test]
fn withdrawal_sends_empty_list() {
    let mut agg = CompileClusterActor::new();
    agg.publish("main".to_string(), Some(vec![report("A", vec![diag(0, "m1")])]));
    let out = agg.publish("main".to_string(), None);
    assert_eq!(summary(&out), vec![("A".to_string(), vec![])]);
    // A second withdrawal has nothing left to clear.
    let out = agg.publish("main".to_string(), None);
    assert!(out.is_empty());
}

#[test]
fn files_dropped_from_a_report_are_cleared() {
    let mut agg = CompileClusterActor::new();
    agg.publish(
        "main".to_string(),
        Some(vec![report("A", vec![diag(0, "a")]), report("B", vec![diag(0, "b")])]),
    );
    let out = agg.publish("main".to_string(), Some(vec![report("B", vec![diag(1, "b2")])]));
    assert_eq!(
        summary(&out),
        vec![
            ("A".to_string(), vec![]),
            ("B".to_string(), vec!["b2".to_string()]),
        ]
    );
}

#[test]
fn other_dedicated_groups_are_merged() {
    let mut agg = CompileClusterActor::new();
    agg.publish("main".to_string(), Some(vec![report("A", vec![diag(0, "m")])]));
    let out = agg.publish("task1".to_string(), Some(vec![report("A", vec![diag(0, "t")])]));
    assert_eq!(
        summary(&out),
        vec![("A".to_string(), vec!["m".to_string(), "t".to_string()])]
    );
    // Zero diagnostics is a report, not a withdrawal.
    let out = agg.publish("task1".to_string(), Some(vec![report("A", vec![])]));
    assert_eq!(summary(&out), vec![("A".to_string(), vec!["m".to_string()])]);
}

#[test]
fn diagnostic_clone_keeps_fields() {
    let d = diag(3, "x");
    let e = d.clone();
    assert_eq!(e.message, "x");
    assert_eq!(e.extra, d.extra);
    assert_eq!(e.range, d.range);
}

#[test]
fn dedicated_group_withholds_primary_everywhere() {
    let mut agg = CompileClusterActor::new();
    agg.publish(
        "primary".to_string(),
        Some(vec![report("A", vec![diag(0, "a1")]), report("B", vec![diag(0, "b1")])]),
    );
    let out = agg.publish("task1".to_string(), Some(vec![report("A", vec![diag(0, "t")])]));
    // B is not touched by task1, yet the primary group's b1 is withdrawn.
    assert_eq!(
        summary(&out),
        vec![
            ("A".to_string(), vec!["t".to_string()]),
            ("A".to_string(), vec!["t".to_string()]),
            ("B".to_string(), vec![]),
        ]
    );
}

use hydration::mismatch::{ActualKind, ExpectedKind, MismatchRecord, MismatchReporter};
use hydration::node::NodeKind;

fn record(index: usize) -> MismatchRecord {
    MismatchRecord {
        position: vec![index],
        expected_kind: ExpectedKind::Node(NodeKind::Text),
        actual_kind: ActualKind::EndOfScope,
        boundary_id: None,
    }
}

#[test]
fn a_new_reporter_holds_nothing() {
    let reporter = MismatchReporter::new();
    assert_eq!(reporter.count(), 0);
    assert!(reporter.diagnostics.is_empty());
}

#[test]
fn report_appends_in_order() {
    let mut reporter = MismatchReporter::new();
    reporter.report(record(2));
    reporter.report(record(0));
    reporter.report(record(2));
    assert_eq!(reporter.count(), 3);
    assert_eq!(reporter.diagnostics, vec![record(2), record(0), record(2)]);
}
